//! The active-piece register: the single slot that names the piece being practiced.

use vstd::prelude::*;

verus! {

/// A single optional piece identifier. At most one piece is active at any instant.
pub struct ActivePieceRegister {
    active: Option<i64>,
}

impl ActivePieceRegister {
    /// The piece currently marked active, if any.
    pub closed spec fn active(&self) -> Option<i64> {
        self.active
    }

    /// An empty register: no piece is active.
    pub fn new() -> (r: Self)
        ensures
            r.active() is None,
    {
        ActivePieceRegister { active: None }
    }

    /// Overwrites the register with `piece_id`, whatever it held before.
    pub fn set_active(&mut self, piece_id: i64)
        ensures
            final(self).active() == Some(piece_id),
    {
        self.active = Some(piece_id);
    }

    /// Reads the register.
    pub fn get_active(&self) -> (r: Option<i64>)
        ensures
            r == self.active(),
    {
        self.active
    }
}

} // verus!

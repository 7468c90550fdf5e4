//! The session data: a regiment holds pieces, a piece holds tempo log entries.

use crate::time::Timestamp;
use vstd::prelude::*;

verus! {

/// One admitted tempo sample of a piece.
#[derive(Clone, Copy, Debug, PartialEq, Eq)]
pub struct PracticeLog {
    /// Assigned by the store; absent before the entry is stored.
    pub id: Option<i64>,
    /// The piece that owns the entry.
    pub practice_piece_id: i64,
    pub bpm: i64,
    pub timestamp: Timestamp,
}

/// A named exercise within a regiment, with its log entries in order.
#[derive(Clone, Debug, PartialEq, Eq)]
pub struct PracticePiece {
    /// Assigned by the store; absent before the piece is stored.
    pub id: Option<i64>,
    pub name: String,
    pub logs: Vec<PracticeLog>,
}

/// A practice session, with its pieces in order.
#[derive(Clone, Debug, PartialEq, Eq)]
pub struct PracticeRegiment {
    /// Assigned by the store; absent before the regiment is stored.
    pub id: Option<i64>,
    /// When the session took place.
    pub date: Timestamp,
    pub pieces: Vec<PracticePiece>,
}

/// What a piece holds, as plain values.
pub struct PieceView {
    pub id: Option<i64>,
    pub name: Seq<char>,
    pub logs: Seq<PracticeLog>,
}

/// What a regiment holds, as plain values.
pub struct RegimentView {
    pub id: Option<i64>,
    pub date: Timestamp,
    pub pieces: Seq<PieceView>,
}

impl View for PracticePiece {
    type V = PieceView;

    open spec fn view(&self) -> PieceView {
        PieceView { id: self.id, name: self.name@, logs: self.logs@ }
    }
}

/// The pieces of a sequence, each as plain values.
pub open spec fn pieces_view(pieces: Seq<PracticePiece>) -> Seq<PieceView> {
    Seq::new(pieces.len(), |i: int| pieces[i]@)
}

impl View for PracticeRegiment {
    type V = RegimentView;

    open spec fn view(&self) -> RegimentView {
        RegimentView { id: self.id, date: self.date, pieces: pieces_view(self.pieces@) }
    }
}

/// The regiments of a sequence, each as plain values.
pub open spec fn regiments_view(regiments: Seq<PracticeRegiment>) -> Seq<RegimentView> {
    Seq::new(regiments.len(), |i: int| regiments[i]@)
}

/// The names of a sequence of strings, each as its characters.
pub open spec fn names_view(names: Seq<String>) -> Seq<Seq<char>> {
    Seq::new(names.len(), |i: int| names[i]@)
}

impl PracticeRegiment {
    /// The names of the regiment's pieces, in order.
    pub fn piece_names(&self) -> (names: Vec<String>)
        ensures
            names_view(names@) == Seq::new(
                self.pieces@.len(),
                |i: int| self.pieces@[i].name@,
            ),
    {
        let mut names: Vec<String> = Vec::new();
        let n: usize = self.pieces.len();
        let mut i: usize = 0;
        while i < n
            invariant
                n == self.pieces@.len(),
                i <= n,
                names@.len() == i,
                forall|k: int| 0 <= k < i ==> (#[trigger] names@[k])@ == self.pieces@[k].name@,
            decreases n - i,
        {
            names.push(self.pieces[i].name.clone());
            i += 1;
        }
        assert(names_view(names@) =~= Seq::new(
            self.pieces@.len(),
            |i: int| self.pieces@[i].name@,
        ));
        names
    }
}

} // verus!

//! The creation of a regiment with its pieces as one transaction, laid out as a
//! state machine: it is handed what the store answered and says what to ask next.

use crate::model::names_view;
use crate::time::{formatted, Timestamp};
use vstd::prelude::*;

verus! {

/// The pattern under which a regiment's date is written into the store.
pub const REGIMENT_DATE_FORMAT: &'static str = "%Y-%m-%d %H:%M:%S";

/// How far the creation has come.
#[derive(Clone, Copy, Debug, PartialEq, Eq, Structural)]
pub enum CreationPhase {
    /// The transaction was asked for.
    Beginning,
    /// The regiment's row was handed to the store.
    InsertingRegiment,
    /// The store was asked for the identifier that it gave the regiment.
    ReadingId,
    /// The row of piece number `index` was handed to the store.
    InsertingPiece { regiment_id: i64, index: usize },
    /// The store was asked to commit.
    Committing { regiment_id: i64 },
    /// The creation has ended, in success or in failure.
    Finished,
}

/// What the store answered to the last command.
#[derive(Clone, Copy, Debug, PartialEq, Eq, Structural)]
pub enum StoreReply {
    /// The command was carried out.
    Done,
    /// The identifier asked for.
    RowId { id: i64 },
    /// The command failed.
    Failed,
}

/// What the store is asked to do, or how the creation ended.
#[derive(Clone, Debug, PartialEq, Eq)]
pub enum StoreCommand {
    /// Open a transaction.
    Begin,
    /// Insert the regiment's row.
    InsertRegiment { date: String },
    /// Tell the identifier of the row inserted last.
    ReadRegimentId,
    /// Insert the row of a piece of the regiment.
    InsertPiece { regiment_id: i64, name: String },
    /// Commit the transaction.
    Commit,
    /// Undo the transaction and report the failure. Nothing follows.
    Rollback,
    /// Report the failure; no transaction is open. Nothing follows.
    Failed,
    /// Report the new regiment. Nothing follows.
    Created { regiment_id: i64 },
}

/// A command as plain values.
pub enum StoreCommandView {
    Begin,
    InsertRegiment { date: Seq<char> },
    ReadRegimentId,
    InsertPiece { regiment_id: i64, name: Seq<char> },
    Commit,
    Rollback,
    Failed,
    Created { regiment_id: i64 },
}

impl View for StoreCommand {
    type V = StoreCommandView;

    open spec fn view(&self) -> StoreCommandView {
        match *self {
            StoreCommand::Begin => StoreCommandView::Begin,
            StoreCommand::InsertRegiment { date } => StoreCommandView::InsertRegiment { date: date@ },
            StoreCommand::ReadRegimentId => StoreCommandView::ReadRegimentId,
            StoreCommand::InsertPiece { regiment_id, name } => StoreCommandView::InsertPiece {
                regiment_id,
                name: name@,
            },
            StoreCommand::Commit => StoreCommandView::Commit,
            StoreCommand::Rollback => StoreCommandView::Rollback,
            StoreCommand::Failed => StoreCommandView::Failed,
            StoreCommand::Created { regiment_id } => StoreCommandView::Created { regiment_id },
        }
    }
}

/// What follows once the pieces before number `index` are inserted: the next
/// piece, or the commit where none is left.
pub open spec fn from_piece(names: Seq<Seq<char>>, regiment_id: i64, index: int) -> (
    CreationPhase,
    StoreCommandView,
) {
    if 0 <= index < names.len() && index <= usize::MAX {
        (
            CreationPhase::InsertingPiece { regiment_id, index: index as usize },
            StoreCommandView::InsertPiece { regiment_id, name: names[index] },
        )
    } else {
        (CreationPhase::Committing { regiment_id }, StoreCommandView::Commit)
    }
}

/// The phase and the command that follow from a phase and the store's reply.
///
/// While every reply is the one hoped for, the regiment is inserted, its
/// identifier read, each piece inserted in order, and all is committed. Any other
/// reply ends the creation: with a rollback where rows may have been written.
pub open spec fn next_step(
    date: Seq<char>,
    names: Seq<Seq<char>>,
    phase: CreationPhase,
    reply: StoreReply,
) -> (CreationPhase, StoreCommandView) {
    match (phase, reply) {
        (CreationPhase::Beginning, StoreReply::Done) => (
            CreationPhase::InsertingRegiment,
            StoreCommandView::InsertRegiment { date },
        ),
        (CreationPhase::InsertingRegiment, StoreReply::Done) => (
            CreationPhase::ReadingId,
            StoreCommandView::ReadRegimentId,
        ),
        (CreationPhase::ReadingId, StoreReply::RowId { id }) => from_piece(names, id, 0),
        (CreationPhase::InsertingPiece { regiment_id, index }, StoreReply::Done) => from_piece(
            names,
            regiment_id,
            index + 1,
        ),
        (CreationPhase::Committing { regiment_id }, StoreReply::Done) => (
            CreationPhase::Finished,
            StoreCommandView::Created { regiment_id },
        ),
        (CreationPhase::Beginning, _) => (CreationPhase::Finished, StoreCommandView::Failed),
        (CreationPhase::Committing { .. }, _) => (
            CreationPhase::Finished,
            StoreCommandView::Failed,
        ),
        (CreationPhase::Finished, _) => (CreationPhase::Finished, StoreCommandView::Failed),
        _ => (CreationPhase::Finished, StoreCommandView::Rollback),
    }
}

/// The creation of one regiment: what is to be written, and how far it has come.
pub struct RegimentCreation {
    date_text: String,
    piece_names: Vec<String>,
    phase: CreationPhase,
}

impl RegimentCreation {
    /// The regiment's date as the store is given it.
    pub closed spec fn date_text(&self) -> Seq<char> {
        self.date_text@
    }

    /// The names of the pieces, in order.
    pub closed spec fn piece_names(&self) -> Seq<Seq<char>> {
        names_view(self.piece_names@)
    }

    /// How far the creation has come.
    pub closed spec fn phase(&self) -> CreationPhase {
        self.phase
    }

    /// A creation that writes `date_text` as the regiment's date. Its first command
    /// opens the transaction.
    pub fn with_date_text(date_text: String, piece_names: Vec<String>) -> (started: (
        RegimentCreation,
        StoreCommand,
    ))
        ensures
            started.0.date_text() == date_text@,
            started.0.piece_names() == names_view(piece_names@),
            started.0.phase() == CreationPhase::Beginning,
            started.1 == StoreCommand::Begin,
    {
        (
            RegimentCreation { date_text, piece_names, phase: CreationPhase::Beginning },
            StoreCommand::Begin,
        )
    }

    /// A creation of a regiment dated `date`, which is written under
    /// `REGIMENT_DATE_FORMAT`; `None` where chrono cannot write it so.
    pub fn start(date: &Timestamp, piece_names: Vec<String>) -> (started: Option<
        (RegimentCreation, StoreCommand),
    >)
        ensures
            match started {
                Some((creation, first)) => {
                    &&& formatted(date.secs() as int, date.nanos() as int, REGIMENT_DATE_FORMAT@)
                        == Some(creation.date_text())
                    &&& creation.piece_names() == names_view(piece_names@)
                    &&& creation.phase() == CreationPhase::Beginning
                    &&& first == StoreCommand::Begin
                },
                None => formatted(date.secs() as int, date.nanos() as int, REGIMENT_DATE_FORMAT@)
                    is None,
            },
    {
        match date.format(REGIMENT_DATE_FORMAT) {
            Some(date_text) => Some(RegimentCreation::with_date_text(date_text, piece_names)),
            None => None,
        }
    }

    /// Whether the creation has ended.
    pub fn is_finished(&self) -> (finished: bool)
        ensures
            finished == (self.phase() == CreationPhase::Finished),
    {
        match self.phase {
            CreationPhase::Finished => true,
            _ => false,
        }
    }

    /// The command that asks for piece number `index`, or for the commit where no
    /// piece is left.
    fn command_from_piece(&mut self, regiment_id: i64, index: usize) -> (command: StoreCommand)
        ensures
            (final(self).phase(), command@) == from_piece(
                old(self).piece_names(),
                regiment_id,
                index as int,
            ),
            final(self).date_text() == old(self).date_text(),
            final(self).piece_names() == old(self).piece_names(),
    {
        if index < self.piece_names.len() {
            self.phase = CreationPhase::InsertingPiece { regiment_id, index };
            StoreCommand::InsertPiece { regiment_id, name: self.piece_names[index].clone() }
        } else {
            self.phase = CreationPhase::Committing { regiment_id };
            StoreCommand::Commit
        }
    }

    /// Takes the store's reply to the last command and gives the next command.
    pub fn next(&mut self, reply: StoreReply) -> (command: StoreCommand)
        ensures
            (final(self).phase(), command@) == next_step(
                old(self).date_text(),
                old(self).piece_names(),
                old(self).phase(),
                reply,
            ),
            final(self).date_text() == old(self).date_text(),
            final(self).piece_names() == old(self).piece_names(),
    {
        match (self.phase, reply) {
            (CreationPhase::Beginning, StoreReply::Done) => {
                self.phase = CreationPhase::InsertingRegiment;
                StoreCommand::InsertRegiment { date: self.date_text.clone() }
            },
            (CreationPhase::InsertingRegiment, StoreReply::Done) => {
                self.phase = CreationPhase::ReadingId;
                StoreCommand::ReadRegimentId
            },
            (CreationPhase::ReadingId, StoreReply::RowId { id }) => self.command_from_piece(id, 0),
            (CreationPhase::InsertingPiece { regiment_id, index }, StoreReply::Done) => {
                if index < usize::MAX {
                    self.command_from_piece(regiment_id, index + 1)
                } else {
                    self.phase = CreationPhase::Committing { regiment_id };
                    StoreCommand::Commit
                }
            },
            (CreationPhase::Committing { regiment_id }, StoreReply::Done) => {
                self.phase = CreationPhase::Finished;
                StoreCommand::Created { regiment_id }
            },
            (CreationPhase::Beginning, _) => {
                self.phase = CreationPhase::Finished;
                StoreCommand::Failed
            },
            (CreationPhase::Committing { .. }, _) => {
                self.phase = CreationPhase::Finished;
                StoreCommand::Failed
            },
            (CreationPhase::Finished, _) => {
                self.phase = CreationPhase::Finished;
                StoreCommand::Failed
            },
            _ => {
                self.phase = CreationPhase::Finished;
                StoreCommand::Rollback
            },
        }
    }
}

/// A row that a creation writes.
pub enum WrittenRow {
    Regiment { date: Seq<char> },
    Piece { regiment_id: i64, name: Seq<char> },
}

/// What a store with transactions holds of a creation: the rows written in the
/// open transaction, and the rows that it keeps.
pub struct Ledger {
    pub pending: Seq<WrittenRow>,
    pub kept: Seq<WrittenRow>,
}

/// The ledger after the store has answered `command` with `reply`. A row is
/// written where its insert did not fail. The rows of the transaction are kept
/// where the commit is done, and lost where it fails or the transaction is
/// rolled back.
pub open spec fn carry_out(ledger: Ledger, command: StoreCommandView, reply: StoreReply) -> Ledger {
    match command {
        StoreCommandView::Begin => Ledger { pending: Seq::empty(), kept: ledger.kept },
        StoreCommandView::InsertRegiment { date } => if reply is Failed {
            ledger
        } else {
            Ledger {
                pending: ledger.pending.push(WrittenRow::Regiment { date }),
                kept: ledger.kept,
            }
        },
        StoreCommandView::InsertPiece { regiment_id, name } => if reply is Failed {
            ledger
        } else {
            Ledger {
                pending: ledger.pending.push(WrittenRow::Piece { regiment_id, name }),
                kept: ledger.kept,
            }
        },
        StoreCommandView::Commit => if reply is Done {
            Ledger { pending: Seq::empty(), kept: ledger.kept + ledger.pending }
        } else {
            Ledger { pending: Seq::empty(), kept: ledger.kept }
        },
        StoreCommandView::Rollback => Ledger { pending: Seq::empty(), kept: ledger.kept },
        _ => ledger,
    }
}

/// The rows of a regiment dated `date` with pieces `names`, to which the store
/// gave the identifier `regiment_id`: the regiment's row, then one row for each
/// piece.
pub open spec fn rows_of_regiment(date: Seq<char>, names: Seq<Seq<char>>, regiment_id: i64) -> Seq<
    WrittenRow,
> {
    Seq::new(
        names.len() + 1,
        |i: int|
            if i == 0 {
                WrittenRow::Regiment { date }
            } else {
                WrittenRow::Piece { regiment_id, name: names[i - 1] }
            },
    )
}

/// A creation run against a store that answers with `replies`, one after the
/// other: the phase reached, the command issued last, and what the store holds.
/// A rollback is carried out as soon as it is issued.
pub open spec fn run(date: Seq<char>, names: Seq<Seq<char>>, replies: Seq<StoreReply>) -> (
    CreationPhase,
    StoreCommandView,
    Ledger,
)
    decreases replies.len(),
{
    if replies.len() == 0 {
        (
            CreationPhase::Beginning,
            StoreCommandView::Begin,
            Ledger { pending: Seq::empty(), kept: Seq::empty() },
        )
    } else {
        let (phase, command, ledger) = run(date, names, replies.drop_last());
        let (next_phase, next_command) = next_step(date, names, phase, replies.last());
        let answered = carry_out(ledger, command, replies.last());
        (
            next_phase,
            next_command,
            if next_command is Rollback {
                carry_out(answered, next_command, StoreReply::Done)
            } else {
                answered
            },
        )
    }
}

/// What holds of a run at every point: while the creation goes on, the store
/// keeps nothing of it and the open transaction holds the rows written so far;
/// once it has ended, the store keeps all rows of the regiment or none.
spec fn run_invariant(
    date: Seq<char>,
    names: Seq<Seq<char>>,
    phase: CreationPhase,
    command: StoreCommandView,
    ledger: Ledger,
) -> bool {
    match phase {
        CreationPhase::Beginning => command == StoreCommandView::Begin && ledger.pending
            == Seq::<WrittenRow>::empty() && ledger.kept == Seq::<WrittenRow>::empty(),
        CreationPhase::InsertingRegiment => command == (StoreCommandView::InsertRegiment { date })
            && ledger.pending == Seq::<WrittenRow>::empty() && ledger.kept == Seq::<
            WrittenRow,
        >::empty(),
        CreationPhase::ReadingId => command == StoreCommandView::ReadRegimentId && ledger.pending
            == seq![WrittenRow::Regiment { date }] && ledger.kept == Seq::<WrittenRow>::empty(),
        CreationPhase::InsertingPiece { regiment_id, index } => index < names.len() && command == (
        StoreCommandView::InsertPiece { regiment_id, name: names[index as int] }) && ledger.pending
            == rows_of_regiment(date, names, regiment_id).take(index + 1) && ledger.kept == Seq::<
            WrittenRow,
        >::empty(),
        CreationPhase::Committing { regiment_id } => command == StoreCommandView::Commit
            && ledger.pending == rows_of_regiment(date, names, regiment_id) && ledger.kept
            == Seq::<WrittenRow>::empty(),
        CreationPhase::Finished => ledger.pending == Seq::<WrittenRow>::empty() && (match command {
            StoreCommandView::Created { regiment_id } => ledger.kept == rows_of_regiment(
                date,
                names,
                regiment_id,
            ),
            StoreCommandView::Rollback => ledger.kept == Seq::<WrittenRow>::empty(),
            StoreCommandView::Failed => ledger.kept == Seq::<WrittenRow>::empty() || exists|
                regiment_id: i64,
            |
                ledger.kept == rows_of_regiment(date, names, regiment_id),
            _ => false,
        }),
    }
}

proof fn lemma_run_invariant(date: Seq<char>, names: Seq<Seq<char>>, replies: Seq<StoreReply>)
    requires
        names.len() <= usize::MAX,
    ensures
        ({
            let (phase, command, ledger) = run(date, names, replies);
            run_invariant(date, names, phase, command, ledger)
        }),
    decreases replies.len(),
{
    if replies.len() > 0 {
        lemma_run_invariant(date, names, replies.drop_last());
        let (phase, command, ledger) = run(date, names, replies.drop_last());
        let reply = replies.last();
        let (next_phase, next_command, next_ledger) = run(date, names, replies);
        match phase {
            CreationPhase::ReadingId => {
                if let StoreReply::RowId { id } = reply {
                    let rows = rows_of_regiment(date, names, id);
                    if names.len() > 0 {
                        assert(rows.take(1) =~= seq![WrittenRow::Regiment { date }]);
                    } else {
                        assert(rows =~= seq![WrittenRow::Regiment { date }]);
                    }
                }
            },
            CreationPhase::InsertingPiece { regiment_id, index } => {
                let rows = rows_of_regiment(date, names, regiment_id);
                if reply is Done {
                    assert(rows.take(index + 1).push(
                        WrittenRow::Piece { regiment_id, name: names[index as int] },
                    ) =~= rows.take(index + 2));
                    if index + 1 >= names.len() {
                        assert(rows.take(index + 2) =~= rows);
                    }
                }
            },
            CreationPhase::Committing { regiment_id } => {
                let rows = rows_of_regiment(date, names, regiment_id);
            },
            _ => {},
        }
    }
}

/// A creation is atomic: whatever the store answers, and wherever the run stands,
/// the store keeps either no row of the regiment or the regiment's row with the
/// rows of all its pieces.
pub proof fn lemma_creation_is_atomic(
    date: Seq<char>,
    names: Seq<Seq<char>>,
    replies: Seq<StoreReply>,
)
    requires
        names.len() <= usize::MAX,
    ensures
        run(date, names, replies).2.kept == Seq::<WrittenRow>::empty() || exists|regiment_id: i64|
            run(date, names, replies).2.kept == rows_of_regiment(date, names, regiment_id),
{
    lemma_run_invariant(date, names, replies);
}

/// The report of a creation tells what the store keeps: a run that has just ended
/// reports the new regiment exactly when the store keeps all its rows, and a
/// failure exactly when it keeps none.
pub proof fn lemma_report_tells_what_is_kept(
    date: Seq<char>,
    names: Seq<Seq<char>>,
    replies: Seq<StoreReply>,
)
    requires
        names.len() <= usize::MAX,
        replies.len() > 0,
        run(date, names, replies.drop_last()).0 != CreationPhase::Finished,
    ensures
        ({
            let (phase, command, ledger) = run(date, names, replies);
            match command {
                StoreCommandView::Created { regiment_id } => phase == CreationPhase::Finished
                    && ledger.kept == rows_of_regiment(date, names, regiment_id),
                StoreCommandView::Rollback | StoreCommandView::Failed => phase
                    == CreationPhase::Finished && ledger.kept == Seq::<WrittenRow>::empty(),
                _ => phase != CreationPhase::Finished && ledger.kept == Seq::<WrittenRow>::empty(),
            }
        }),
{
    lemma_run_invariant(date, names, replies.drop_last());
    lemma_run_invariant(date, names, replies);
}

} // verus!

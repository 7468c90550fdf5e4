//! The history aggregator: rebuilds regiments, pieces and log entries from the
//! flat rows of the store's outer join.

use crate::model::{
    regiments_view, PieceView, PracticeLog, PracticePiece, PracticeRegiment, RegimentView,
};
use crate::time::Timestamp;
use std::collections::HashMap;
use vstd::prelude::*;

verus! {

/// One row of the outer join of regiments, pieces and log entries. A regiment
/// without pieces gives one row with the piece columns empty; a piece without
/// log entries gives one row with the log columns empty.
#[derive(Clone, Debug, PartialEq, Eq)]
pub struct RegimenPieceLog {
    pub regimen_id: i64,
    pub regimen_date: Timestamp,
    pub piece_id: Option<i64>,
    pub piece_name: Option<String>,
    pub log_id: Option<i64>,
    pub log_bpm: Option<i64>,
    pub log_timestamp: Option<Timestamp>,
}

/// What a row holds, as plain values.
pub struct RowView {
    pub regimen_id: i64,
    pub regimen_date: Timestamp,
    pub piece_id: Option<i64>,
    pub piece_name: Option<Seq<char>>,
    pub log_id: Option<i64>,
    pub log_bpm: Option<i64>,
    pub log_timestamp: Option<Timestamp>,
}

impl View for RegimenPieceLog {
    type V = RowView;

    open spec fn view(&self) -> RowView {
        RowView {
            regimen_id: self.regimen_id,
            regimen_date: self.regimen_date,
            piece_id: self.piece_id,
            piece_name: match self.piece_name {
                Some(name) => Some(name@),
                None => None,
            },
            log_id: self.log_id,
            log_bpm: self.log_bpm,
            log_timestamp: self.log_timestamp,
        }
    }
}

impl RowView {
    /// A row that carries a log entry of a piece carries the entry's time.
    pub open spec fn well_formed(self) -> bool {
        self.piece_id is Some && self.log_id is Some ==> self.log_timestamp is Some
    }

    /// The piece's name; empty where the column is empty.
    pub open spec fn name(self) -> Seq<char> {
        match self.piece_name {
            Some(name) => name,
            None => Seq::empty(),
        }
    }

    /// The log entry that the row carries. A tempo column that is empty counts as 0.
    pub open spec fn log(self) -> PracticeLog {
        PracticeLog {
            id: self.log_id,
            practice_piece_id: self.piece_id.unwrap(),
            bpm: match self.log_bpm {
                Some(bpm) => bpm,
                None => 0,
            },
            timestamp: self.log_timestamp.unwrap(),
        }
    }
}

/// The rows of a sequence, each as plain values.
pub open spec fn rows_view(rows: Seq<RegimenPieceLog>) -> Seq<RowView> {
    Seq::new(rows.len(), |i: int| rows[i]@)
}

/// Whether every row is well formed.
pub open spec fn all_well_formed(rows: Seq<RowView>) -> bool {
    forall|i: int| 0 <= i < rows.len() ==> (#[trigger] rows[i]).well_formed()
}

/// The values of `s`, each once, in the order in which they first occur.
pub open spec fn first_seen(s: Seq<i64>) -> Seq<i64>
    decreases s.len(),
{
    if s.len() == 0 {
        Seq::empty()
    } else {
        let before = first_seen(s.drop_last());
        if before.contains(s.last()) {
            before
        } else {
            before.push(s.last())
        }
    }
}

/// The rows of regiment `regimen_id`.
pub open spec fn in_regiment(regimen_id: i64) -> spec_fn(RowView) -> bool {
    |row: RowView| row.regimen_id == regimen_id
}

/// The rows of piece `piece_id`.
pub open spec fn in_piece(piece_id: i64) -> spec_fn(RowView) -> bool {
    |row: RowView| row.piece_id == Some(piece_id)
}

/// The rows that carry a log entry.
pub open spec fn has_log() -> spec_fn(RowView) -> bool {
    |row: RowView| row.log_id is Some
}

/// The regiment identifiers of the rows, one for each row.
pub open spec fn regimen_id_column(rows: Seq<RowView>) -> Seq<i64> {
    Seq::new(rows.len(), |i: int| rows[i].regimen_id)
}

/// The piece identifiers of the rows that have one.
pub open spec fn piece_id_column(rows: Seq<RowView>) -> Seq<i64>
    decreases rows.len(),
{
    if rows.len() == 0 {
        Seq::empty()
    } else {
        match rows.last().piece_id {
            Some(id) => piece_id_column(rows.drop_last()).push(id),
            None => piece_id_column(rows.drop_last()),
        }
    }
}

/// The log entries that the rows carry, in the order of the rows.
pub open spec fn logs_of(rows: Seq<RowView>) -> Seq<PracticeLog> {
    let carrying = rows.filter(has_log());
    Seq::new(carrying.len(), |i: int| carrying[i].log())
}

/// Piece `piece_id` as the rows of its regiment give it: named as the first of its
/// rows names it, with the log entries of its rows in order.
pub open spec fn piece_of(rows: Seq<RowView>, piece_id: i64) -> PieceView {
    let own = rows.filter(in_piece(piece_id));
    PieceView { id: Some(piece_id), name: own[0].name(), logs: logs_of(own) }
}

/// The regiment that `rows`, all of regiment `regimen_id`, give: dated as the
/// first row, with the pieces in the order in which the rows first name them.
pub open spec fn regiment_from(rows: Seq<RowView>, regimen_id: i64) -> RegimentView {
    let ids = first_seen(piece_id_column(rows));
    RegimentView {
        id: Some(regimen_id),
        date: rows[0].regimen_date,
        pieces: Seq::new(ids.len(), |i: int| piece_of(rows, ids[i])),
    }
}

/// Regiment `regimen_id` as the rows give it.
pub open spec fn regiment_of(rows: Seq<RowView>, regimen_id: i64) -> RegimentView {
    regiment_from(rows.filter(in_regiment(regimen_id)), regimen_id)
}

/// The practice history that the rows spell: one regiment for each regiment
/// identifier, in the order in which the rows first name them.
pub open spec fn history(rows: Seq<RowView>) -> Seq<RegimentView> {
    let ids = first_seen(regimen_id_column(rows));
    Seq::new(ids.len(), |i: int| regiment_of(rows, ids[i]))
}

/// `first_seen` holds the values of the sequence and no others.
pub proof fn lemma_first_seen_contains(s: Seq<i64>, v: i64)
    ensures
        first_seen(s).contains(v) <==> s.contains(v),
    decreases s.len(),
{
    if s.len() > 0 {
        let before = first_seen(s.drop_last());
        lemma_first_seen_contains(s.drop_last(), v);
        if s.contains(v) {
            let i = choose|i: int| 0 <= i < s.len() && s[i] == v;
            if i < s.len() - 1 {
                assert(s.drop_last()[i] == v);
                let j = choose|j: int| 0 <= j < before.len() && before[j] == v;
                assert(first_seen(s)[j] == v);
            } else if !before.contains(v) {
                assert(before.push(v)[before.len() as int] == v);
            }
        }
    }
}

/// `first_seen` holds no value twice.
pub proof fn lemma_first_seen_no_duplicates(s: Seq<i64>)
    ensures
        first_seen(s).no_duplicates(),
    decreases s.len(),
{
    if s.len() > 0 {
        lemma_first_seen_no_duplicates(s.drop_last());
    }
}

/// What one more value does to `first_seen`.
pub proof fn lemma_first_seen_push(s: Seq<i64>, v: i64)
    ensures
        first_seen(s.push(v)) == if s.contains(v) {
            first_seen(s)
        } else {
            first_seen(s).push(v)
        },
{
    assert(s.push(v).drop_last() =~= s);
    lemma_first_seen_contains(s, v);
}

/// The piece that a row opens: named by the row, with the row's log entry if it
/// carries one.
spec fn fresh_piece(row: RowView) -> PieceView {
    PieceView {
        id: row.piece_id,
        name: row.name(),
        logs: if row.log_id is Some {
            seq![row.log()]
        } else {
            Seq::empty()
        },
    }
}

/// The piece after one more of its rows: the row's log entry, if it carries one,
/// comes last.
spec fn piece_with_row(piece: PieceView, row: RowView) -> PieceView {
    PieceView {
        id: piece.id,
        name: piece.name,
        logs: if row.log_id is Some {
            piece.logs.push(row.log())
        } else {
            piece.logs
        },
    }
}

/// What one more row does to the log entries of a run of rows.
proof fn lemma_logs_of_push(rows: Seq<RowView>, row: RowView)
    ensures
        logs_of(rows.push(row)) == if row.log_id is Some {
            logs_of(rows).push(row.log())
        } else {
            logs_of(rows)
        },
{
    rows.lemma_filter_push(row, has_log());
}

/// What one more row does to a piece.
proof fn lemma_piece_of_push(rows: Seq<RowView>, row: RowView, piece_id: i64)
    ensures
        piece_of(rows.push(row), piece_id) == if row.piece_id != Some(piece_id) {
            piece_of(rows, piece_id)
        } else if rows.filter(in_piece(piece_id)).len() > 0 {
            piece_with_row(piece_of(rows, piece_id), row)
        } else {
            fresh_piece(row)
        },
{
    let own = rows.filter(in_piece(piece_id));
    rows.lemma_filter_push(row, in_piece(piece_id));
    if row.piece_id == Some(piece_id) {
        lemma_logs_of_push(own, row);
        if own.len() == 0 {
            assert(own.filter(has_log()) =~= Seq::<RowView>::empty()) by {
                reveal_with_fuel(Seq::filter, 1);
            }
            assert(logs_of(own) =~= Seq::<PracticeLog>::empty());
        }
    }
}

/// What one more row does to the column of piece identifiers.
proof fn lemma_piece_id_column_push(rows: Seq<RowView>, row: RowView)
    ensures
        piece_id_column(rows.push(row)) == match row.piece_id {
            Some(id) => piece_id_column(rows).push(id),
            None => piece_id_column(rows),
        },
{
    assert(rows.push(row).drop_last() =~= rows);
}

/// The column of piece identifiers holds a piece exactly when a row names it.
proof fn lemma_piece_id_column_contains(rows: Seq<RowView>, piece_id: i64)
    ensures
        piece_id_column(rows).contains(piece_id) <==> rows.filter(in_piece(piece_id)).len() > 0,
    decreases rows.len(),
{
    reveal_with_fuel(Seq::filter, 1);
    if rows.len() > 0 {
        let before = rows.drop_last();
        let row = rows.last();
        lemma_piece_id_column_contains(before, piece_id);
        before.lemma_filter_push(row, in_piece(piece_id));
        let column = piece_id_column(before);
        match row.piece_id {
            Some(id) => {
                if column.contains(piece_id) {
                    let j = choose|j: int| 0 <= j < column.len() && column[j] == piece_id;
                    assert(column.push(id)[j] == piece_id);
                }
                if id == piece_id {
                    assert(column.push(id)[column.len() as int] == piece_id);
                }
            },
            None => {},
        }
    }
}

/// The column of regiment identifiers holds a regiment exactly when a row names it.
proof fn lemma_regimen_id_column_contains(rows: Seq<RowView>, regimen_id: i64)
    ensures
        regimen_id_column(rows).contains(regimen_id) <==> rows.filter(
            in_regiment(regimen_id),
        ).len() > 0,
    decreases rows.len(),
{
    reveal_with_fuel(Seq::filter, 1);
    let column = regimen_id_column(rows);
    if rows.len() > 0 {
        let before = rows.drop_last();
        let row = rows.last();
        lemma_regimen_id_column_contains(before, regimen_id);
        before.lemma_filter_push(row, in_regiment(regimen_id));
        let shorter = regimen_id_column(before);
        if column.contains(regimen_id) {
            let j = choose|j: int| 0 <= j < column.len() && column[j] == regimen_id;
            if j < shorter.len() {
                assert(shorter[j] == regimen_id);
            }
        }
        if shorter.contains(regimen_id) {
            let j = choose|j: int| 0 <= j < shorter.len() && shorter[j] == regimen_id;
            assert(column[j] == regimen_id);
        }
        if row.regimen_id == regimen_id {
            assert(column[shorter.len() as int] == regimen_id);
        }
    }
}

/// What one more row does to the pieces of a regiment: nothing where it names no
/// piece; a log entry the more for the piece it names, where the rows had named
/// it; else a new piece at the end.
proof fn lemma_regiment_pieces_push(rows: Seq<RowView>, row: RowView, regimen_id: i64)
    ensures
        ({
            let ids = first_seen(piece_id_column(rows));
            let before = regiment_from(rows, regimen_id).pieces;
            let after = regiment_from(rows.push(row), regimen_id).pieces;
            match row.piece_id {
                None => after == before,
                Some(piece_id) => if ids.contains(piece_id) {
                    forall|j: int|
                        0 <= j < ids.len() && ids[j] == piece_id ==> after == before.update(
                            j,
                            piece_with_row(before[j], row),
                        )
                } else {
                    after == before.push(fresh_piece(row))
                },
            }
        }),
{
    let column = piece_id_column(rows);
    let ids = first_seen(column);
    let longer = rows.push(row);
    lemma_piece_id_column_push(rows, row);
    lemma_first_seen_no_duplicates(column);
    assert forall|i: int| 0 <= i < ids.len() implies piece_of(longer, ids[i]) == (if row.piece_id
        == Some(ids[i]) {
        piece_with_row(piece_of(rows, ids[i]), row)
    } else {
        piece_of(rows, ids[i])
    }) by {
        lemma_piece_of_push(rows, row, ids[i]);
        lemma_first_seen_contains(column, ids[i]);
        lemma_piece_id_column_contains(rows, ids[i]);
    }
    if let Some(piece_id) = row.piece_id {
        lemma_first_seen_push(column, piece_id);
        lemma_first_seen_contains(column, piece_id);
        lemma_piece_id_column_contains(rows, piece_id);
        lemma_piece_of_push(rows, row, piece_id);
    }
}

/// The log entry that a row of piece `piece_id` carries, if it carries one.
fn log_entry(row: &RegimenPieceLog, piece_id: i64) -> (entry: Option<PracticeLog>)
    requires
        row@.well_formed(),
        row.piece_id == Some(piece_id),
    ensures
        entry == (if row@.log_id is Some {
            Some(row@.log())
        } else {
            None
        }),
{
    match row.log_id {
        None => None,
        Some(log_id) => {
            let bpm: i64 = match row.log_bpm {
                Some(bpm) => bpm,
                None => 0,
            };
            Some(
                PracticeLog {
                    id: Some(log_id),
                    practice_piece_id: piece_id,
                    bpm,
                    timestamp: row.log_timestamp.unwrap(),
                },
            )
        },
    }
}

/// The name that a row gives its piece; empty where the column is empty.
fn piece_name(row: &RegimenPieceLog) -> (name: String)
    ensures
        name@ == row@.name(),
{
    match &row.piece_name {
        Some(name) => name.clone(),
        None => String::new(),
    }
}

/// Where among `pieces` the piece `piece_id` stands; `pieces.len()` where it does not.
fn find_piece(pieces: &Vec<PracticePiece>, piece_id: i64) -> (at: usize)
    ensures
        at <= pieces.len(),
        at < pieces.len() ==> pieces[at as int].id == Some(piece_id),
        forall|k: int| 0 <= k < at ==> (#[trigger] pieces[k]).id != Some(piece_id),
{
    let n: usize = pieces.len();
    let mut at: usize = 0;
    while at < n
        invariant
            n == pieces.len(),
            at <= n,
            forall|k: int| 0 <= k < at ==> (#[trigger] pieces[k]).id != Some(piece_id),
        decreases n - at,
    {
        let found: bool = match pieces[at].id {
            Some(id) => id == piece_id,
            None => false,
        };
        if found {
            return at;
        }
        at += 1;
    }
    at
}

/// Takes one more row into a regiment whose pieces are those of `own`.
fn absorb_row(
    regiment: &mut PracticeRegiment,
    row: &RegimenPieceLog,
    Ghost(own): Ghost<Seq<RowView>>,
    Ghost(regimen_id): Ghost<i64>,
)
    requires
        row@.well_formed(),
        old(regiment)@.pieces == regiment_from(own, regimen_id).pieces,
    ensures
        final(regiment)@.pieces == regiment_from(own.push(row@), regimen_id).pieces,
        final(regiment).id == old(regiment).id,
        final(regiment).date == old(regiment).date,
{
    proof {
        lemma_regiment_pieces_push(own, row@, regimen_id);
    }
    let ghost ids = first_seen(piece_id_column(own));
    let ghost before = regiment@.pieces;
    assert(before.len() == ids.len() && forall|k: int|
        0 <= k < ids.len() ==> (#[trigger] before[k]) == piece_of(own, ids[k]));
    assert(forall|k: int|
        0 <= k < before.len() ==> (#[trigger] regiment.pieces[k])@ == before[k]);
    match row.piece_id {
        None => {},
        Some(piece_id) => {
            let at: usize = find_piece(&regiment.pieces, piece_id);
            let entry: Option<PracticeLog> = log_entry(row, piece_id);
            if at < regiment.pieces.len() {
                match entry {
                    Some(log) => {
                        regiment.pieces[at].logs.push(log);
                    },
                    None => {},
                }
                assert(regiment@.pieces =~= before.update(
                    at as int,
                    piece_with_row(before[at as int], row@),
                ));
            } else {
                let mut logs: Vec<PracticeLog> = Vec::new();
                match entry {
                    Some(log) => {
                        logs.push(log);
                    },
                    None => {},
                }
                let piece = PracticePiece { id: Some(piece_id), name: piece_name(row), logs };
                regiment.pieces.push(piece);
            }
        },
    }
}

/// What one more row does to the regiments of a history: the regiment that the row
/// names takes the row in; a regiment that it does not name stays as it is.
proof fn lemma_regiment_of_push(rows: Seq<RowView>, row: RowView, regimen_id: i64)
    ensures
        row.regimen_id != regimen_id ==> regiment_of(rows.push(row), regimen_id) == regiment_of(
            rows,
            regimen_id,
        ),
        row.regimen_id == regimen_id ==> regiment_of(rows.push(row), regimen_id) == regiment_from(
            rows.filter(in_regiment(regimen_id)).push(row),
            regimen_id,
        ),
{
    rows.lemma_filter_push(row, in_regiment(regimen_id));
}

/// Whether `index` tells of each regiment identifier in `ids` where it stands.
spec fn indexes(index: Map<i64, usize>, ids: Seq<i64>) -> bool {
    &&& forall|id: i64| index.contains_key(id) <==> ids.contains(id)
    &&& forall|k: int| 0 <= k < ids.len() ==> index[#[trigger] ids[k]] == k
}

/// Rebuilds the practice history from the rows of the outer join.
///
/// The regiments come in the order in which the rows first name them, so rows
/// sorted by regiment date give regiments sorted by date. Within a regiment the
/// pieces, and within a piece the log entries, come in the order of their rows.
pub fn build_history(rows: &Vec<RegimenPieceLog>) -> (regiments: Vec<PracticeRegiment>)
    requires
        all_well_formed(rows_view(rows@)),
    ensures
        regiments_view(regiments@) == history(rows_view(rows@)),
{
    broadcast use vstd::std_specs::hash::group_hash_axioms;

    let ghost all = rows_view(rows@);
    let mut regiments: Vec<PracticeRegiment> = Vec::new();
    let mut index: HashMap<i64, usize> = HashMap::new();
    let n: usize = rows.len();
    let mut i: usize = 0;
    while i < n
        invariant
            n == rows.len(),
            i <= n,
            all == rows_view(rows@),
            all_well_formed(all),
            regiments@.len() == first_seen(regimen_id_column(all.take(i as int))).len(),
            forall|k: int|
                0 <= k < regiments@.len() ==> (#[trigger] regiments@[k])@ == regiment_of(
                    all.take(i as int),
                    first_seen(regimen_id_column(all.take(i as int)))[k],
                ),
            indexes(index@, first_seen(regimen_id_column(all.take(i as int)))),
        decreases n - i,
    {
        let row: &RegimenPieceLog = &rows[i];
        let ghost seen = all.take(i as int);
        let ghost ids = first_seen(regimen_id_column(seen));
        let ghost own = seen.filter(in_regiment(row.regimen_id));
        proof {
            assert(all[i as int] == row@);
            assert(all.take(i + 1) =~= seen.push(row@));
            assert(regimen_id_column(seen.push(row@)) =~= regimen_id_column(seen).push(
                row.regimen_id,
            ));
            lemma_first_seen_push(regimen_id_column(seen), row.regimen_id);
            lemma_first_seen_contains(regimen_id_column(seen), row.regimen_id);
            lemma_first_seen_no_duplicates(regimen_id_column(seen));
            lemma_regimen_id_column_contains(seen, row.regimen_id);
            lemma_regiment_of_push(seen, row@, row.regimen_id);
            assert forall|k: int| 0 <= k < ids.len() && ids[k] != row.regimen_id implies regiment_of(
                seen.push(row@),
                ids[k],
            ) == regiment_of(seen, ids[k]) by {
                lemma_regiment_of_push(seen, row@, ids[k]);
            }
        }
        let known: Option<usize> = match index.get(&row.regimen_id) {
            Some(at) => Some(*at),
            None => None,
        };
        match known {
            Some(at) => {
                assert(ids[at as int] == row.regimen_id) by {
                    let k = choose|k: int| 0 <= k < ids.len() && ids[k] == row.regimen_id;
                    assert(index@[ids[k]] == k);
                }
                absorb_row(&mut regiments[at], row, Ghost(own), Ghost(row.regimen_id));
            },
            None => {
                let mut regiment = PracticeRegiment {
                    id: Some(row.regimen_id),
                    date: row.regimen_date,
                    pieces: Vec::new(),
                };
                assert(regiment@.pieces =~= regiment_from(own, row.regimen_id).pieces);
                absorb_row(&mut regiment, row, Ghost(own), Ghost(row.regimen_id));
                index.insert(row.regimen_id, regiments.len());
                regiments.push(regiment);
                assert forall|id: i64| index@.contains_key(id) <==> ids.push(
                    row.regimen_id,
                ).contains(id) by {
                    if ids.contains(id) {
                        let k = choose|k: int| 0 <= k < ids.len() && ids[k] == id;
                        assert(ids.push(row.regimen_id)[k] == id);
                    }
                    if id == row.regimen_id {
                        assert(ids.push(row.regimen_id)[ids.len() as int] == id);
                    }
                }
            },
        }
        i += 1;
    }
    assert(all.take(n as int) =~= all);
    regiments
}

impl RegimenPieceLog {
    /// Whether the row, if it carries a log entry of a piece, carries its time.
    pub fn is_well_formed(&self) -> (ok: bool)
        ensures
            ok == self@.well_formed(),
    {
        match (self.piece_id, self.log_id, self.log_timestamp) {
            (Some(_), Some(_), None) => false,
            _ => true,
        }
    }
}

/// Whether every row is well formed.
pub fn rows_well_formed(rows: &Vec<RegimenPieceLog>) -> (ok: bool)
    ensures
        ok == all_well_formed(rows_view(rows@)),
{
    let n: usize = rows.len();
    let mut i: usize = 0;
    while i < n
        invariant
            n == rows.len(),
            i <= n,
            forall|k: int| 0 <= k < i ==> (#[trigger] rows_view(rows@)[k]).well_formed(),
        decreases n - i,
    {
        if !rows[i].is_well_formed() {
            assert(!rows_view(rows@)[i as int].well_formed());
            return false;
        }
        i += 1;
    }
    true
}

/// Rebuilds the practice history from the rows, where every row is well formed;
/// `None` where one is not.
pub fn history_of(rows: &Vec<RegimenPieceLog>) -> (regiments: Option<Vec<PracticeRegiment>>)
    ensures
        regiments is Some <==> all_well_formed(rows_view(rows@)),
        regiments is Some ==> regiments_view(regiments.unwrap()@) == history(rows_view(rows@)),
{
    if rows_well_formed(rows) {
        Some(build_history(rows))
    } else {
        None
    }
}

} // verus!

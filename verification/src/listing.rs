//! The plain listing of regiments with their pieces, from the rows of the inner
//! join of the two. Log entries are left out.

use crate::history::{
    first_seen, lemma_first_seen_contains, lemma_first_seen_no_duplicates, lemma_first_seen_push,
};
use crate::model::{regiments_view, PieceView, PracticePiece, PracticeRegiment, RegimentView};
use crate::time::Timestamp;
use std::collections::HashMap;
use vstd::prelude::*;

verus! {

/// One row of the inner join of regiments and pieces.
#[derive(Clone, Debug, PartialEq, Eq)]
pub struct RegimentPieceRow {
    pub regiment_id: i64,
    pub date: Timestamp,
    pub piece_id: i64,
    pub piece_name: String,
}

/// What a row holds, as plain values.
pub struct PieceRowView {
    pub regiment_id: i64,
    pub date: Timestamp,
    pub piece_id: i64,
    pub piece_name: Seq<char>,
}

impl View for RegimentPieceRow {
    type V = PieceRowView;

    open spec fn view(&self) -> PieceRowView {
        PieceRowView {
            regiment_id: self.regiment_id,
            date: self.date,
            piece_id: self.piece_id,
            piece_name: self.piece_name@,
        }
    }
}

impl PieceRowView {
    /// The piece that the row tells of, without log entries.
    pub open spec fn piece(self) -> PieceView {
        PieceView { id: Some(self.piece_id), name: self.piece_name, logs: Seq::empty() }
    }
}

/// The rows of a sequence, each as plain values.
pub open spec fn piece_rows_view(rows: Seq<RegimentPieceRow>) -> Seq<PieceRowView> {
    Seq::new(rows.len(), |i: int| rows[i]@)
}

/// The rows of regiment `regiment_id`.
pub open spec fn of_regiment(regiment_id: i64) -> spec_fn(PieceRowView) -> bool {
    |row: PieceRowView| row.regiment_id == regiment_id
}

/// The regiment identifiers of the rows, one for each row.
pub open spec fn regiment_id_column(rows: Seq<PieceRowView>) -> Seq<i64> {
    Seq::new(rows.len(), |i: int| rows[i].regiment_id)
}

/// The regiment that `rows`, all of regiment `regiment_id`, tell of: dated as the
/// first row, with one piece for each row, in order.
pub open spec fn listed_from(rows: Seq<PieceRowView>, regiment_id: i64) -> RegimentView {
    RegimentView {
        id: Some(regiment_id),
        date: rows[0].date,
        pieces: Seq::new(rows.len(), |i: int| rows[i].piece()),
    }
}

/// Regiment `regiment_id` as the rows tell of it.
pub open spec fn listed_regiment(rows: Seq<PieceRowView>, regiment_id: i64) -> RegimentView {
    listed_from(rows.filter(of_regiment(regiment_id)), regiment_id)
}

/// The listing that the rows spell: one regiment for each regiment identifier, in
/// the order in which the rows first name them.
pub open spec fn listing(rows: Seq<PieceRowView>) -> Seq<RegimentView> {
    let ids = first_seen(regiment_id_column(rows));
    Seq::new(ids.len(), |i: int| listed_regiment(rows, ids[i]))
}

/// The column of regiment identifiers holds a regiment exactly when a row names it.
proof fn lemma_regiment_id_column_contains(rows: Seq<PieceRowView>, regiment_id: i64)
    ensures
        regiment_id_column(rows).contains(regiment_id) <==> rows.filter(
            of_regiment(regiment_id),
        ).len() > 0,
    decreases rows.len(),
{
    reveal_with_fuel(Seq::filter, 1);
    let column = regiment_id_column(rows);
    if rows.len() > 0 {
        let before = rows.drop_last();
        let row = rows.last();
        lemma_regiment_id_column_contains(before, regiment_id);
        before.lemma_filter_push(row, of_regiment(regiment_id));
        let shorter = regiment_id_column(before);
        if column.contains(regiment_id) {
            let j = choose|j: int| 0 <= j < column.len() && column[j] == regiment_id;
            if j < shorter.len() {
                assert(shorter[j] == regiment_id);
            }
        }
        if shorter.contains(regiment_id) {
            let j = choose|j: int| 0 <= j < shorter.len() && shorter[j] == regiment_id;
            assert(column[j] == regiment_id);
        }
        if row.regiment_id == regiment_id {
            assert(column[shorter.len() as int] == regiment_id);
        }
    }
}

/// What one more row does to a regiment of the listing: the regiment that the row
/// names gets the row's piece at its end; any other stays as it is.
proof fn lemma_listed_regiment_push(rows: Seq<PieceRowView>, row: PieceRowView, regiment_id: i64)
    ensures
        row.regiment_id != regiment_id ==> listed_regiment(rows.push(row), regiment_id)
            == listed_regiment(rows, regiment_id),
        row.regiment_id == regiment_id ==> listed_regiment(rows.push(row), regiment_id).pieces
            == listed_regiment(rows, regiment_id).pieces.push(row.piece()),
        row.regiment_id == regiment_id ==> listed_regiment(rows.push(row), regiment_id).date == (
        if rows.filter(of_regiment(regiment_id)).len() > 0 {
            listed_regiment(rows, regiment_id).date
        } else {
            row.date
        }),
{
    rows.lemma_filter_push(row, of_regiment(regiment_id));
    if row.regiment_id == regiment_id {
        assert(listed_regiment(rows.push(row), regiment_id).pieces =~= listed_regiment(
            rows,
            regiment_id,
        ).pieces.push(row.piece()));
    }
}

/// Whether `index` tells of each regiment identifier in `ids` where it stands.
spec fn indexes(index: Map<i64, usize>, ids: Seq<i64>) -> bool {
    &&& forall|id: i64| index.contains_key(id) <==> ids.contains(id)
    &&& forall|k: int| 0 <= k < ids.len() ==> index[#[trigger] ids[k]] == k
}

/// Groups the rows into regiments, each with the pieces of its rows.
///
/// The regiments come in the order in which the rows first name them; the pieces
/// of a regiment come in the order of its rows.
pub fn list_regiments(rows: &Vec<RegimentPieceRow>) -> (regiments: Vec<PracticeRegiment>)
    ensures
        regiments_view(regiments@) == listing(piece_rows_view(rows@)),
{
    broadcast use vstd::std_specs::hash::group_hash_axioms;

    let ghost all = piece_rows_view(rows@);
    let mut regiments: Vec<PracticeRegiment> = Vec::new();
    let mut index: HashMap<i64, usize> = HashMap::new();
    let n: usize = rows.len();
    let mut i: usize = 0;
    while i < n
        invariant
            n == rows.len(),
            i <= n,
            all == piece_rows_view(rows@),
            regiments@.len() == first_seen(regiment_id_column(all.take(i as int))).len(),
            forall|k: int|
                0 <= k < regiments@.len() ==> (#[trigger] regiments@[k])@ == listed_regiment(
                    all.take(i as int),
                    first_seen(regiment_id_column(all.take(i as int)))[k],
                ),
            indexes(index@, first_seen(regiment_id_column(all.take(i as int)))),
        decreases n - i,
    {
        let row: &RegimentPieceRow = &rows[i];
        let ghost seen = all.take(i as int);
        let ghost ids = first_seen(regiment_id_column(seen));
        proof {
            assert(all.take(i + 1) =~= seen.push(row@));
            assert(regiment_id_column(seen.push(row@)) =~= regiment_id_column(seen).push(
                row.regiment_id,
            ));
            lemma_first_seen_push(regiment_id_column(seen), row.regiment_id);
            lemma_first_seen_contains(regiment_id_column(seen), row.regiment_id);
            lemma_first_seen_no_duplicates(regiment_id_column(seen));
            lemma_regiment_id_column_contains(seen, row.regiment_id);
            assert forall|k: int| 0 <= k < ids.len() implies listed_regiment(
                seen.push(row@),
                ids[k],
            ) == (if ids[k] == row.regiment_id {
                RegimentView {
                    id: listed_regiment(seen, ids[k]).id,
                    date: listed_regiment(seen, ids[k]).date,
                    pieces: listed_regiment(seen, ids[k]).pieces.push(row@.piece()),
                }
            } else {
                listed_regiment(seen, ids[k])
            }) by {
                lemma_listed_regiment_push(seen, row@, ids[k]);
                lemma_first_seen_contains(regiment_id_column(seen), ids[k]);
                lemma_regiment_id_column_contains(seen, ids[k]);
            }
            lemma_listed_regiment_push(seen, row@, row.regiment_id);
        }
        let piece = PracticePiece {
            id: Some(row.piece_id),
            name: row.piece_name.clone(),
            logs: Vec::new(),
        };
        let known: Option<usize> = match index.get(&row.regiment_id) {
            Some(at) => Some(*at),
            None => None,
        };
        match known {
            Some(at) => {
                assert(ids[at as int] == row.regiment_id) by {
                    let k = choose|k: int| 0 <= k < ids.len() && ids[k] == row.regiment_id;
                    assert(index@[ids[k]] == k);
                }
                let ghost before = regiments@[at as int]@;
                regiments[at].pieces.push(piece);
                assert(regiments@[at as int]@.pieces =~= before.pieces.push(row@.piece()));
            },
            None => {
                let mut pieces: Vec<PracticePiece> = Vec::new();
                pieces.push(piece);
                let regiment = PracticeRegiment {
                    id: Some(row.regiment_id),
                    date: row.date,
                    pieces,
                };
                assert(regiment@.pieces =~= listed_regiment(
                    seen.push(row@),
                    row.regiment_id,
                ).pieces);
                index.insert(row.regiment_id, regiments.len());
                regiments.push(regiment);
                assert forall|id: i64| index@.contains_key(id) <==> ids.push(
                    row.regiment_id,
                ).contains(id) by {
                    if ids.contains(id) {
                        let k = choose|k: int| 0 <= k < ids.len() && ids[k] == id;
                        assert(ids.push(row.regiment_id)[k] == id);
                    }
                    if id == row.regiment_id {
                        assert(ids.push(row.regiment_id)[ids.len() as int] == id);
                    }
                }
            },
        }
        i += 1;
    }
    assert(all.take(n as int) =~= all);
    regiments
}

} // verus!

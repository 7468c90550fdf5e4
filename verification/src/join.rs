//! The outer join of a stored history, and the proof that the aggregator takes
//! it back to the history.

use crate::history::{
    all_well_formed, first_seen, has_log, history, in_piece, in_regiment,
    lemma_first_seen_contains, lemma_first_seen_push, logs_of, piece_id_column, piece_of,
    regimen_id_column, regiment_from, regiment_of, RowView,
};
use crate::model::{PieceView, PracticeLog, RegimentView};
use crate::time::Timestamp;
use vstd::prelude::*;

verus! {

/// The blocks one after the other.
pub open spec fn concat<A>(blocks: Seq<Seq<A>>) -> Seq<A>
    decreases blocks.len(),
{
    if blocks.len() == 0 {
        Seq::empty()
    } else {
        concat(blocks.drop_last()) + blocks.last()
    }
}

/// A filter keeps a sequence whose items all pass.
proof fn lemma_filter_keeps_all<A>(s: Seq<A>, pred: spec_fn(A) -> bool)
    requires
        forall|i: int| 0 <= i < s.len() ==> pred(#[trigger] s[i]),
    ensures
        s.filter(pred) == s,
    decreases s.len(),
{
    reveal_with_fuel(Seq::filter, 1);
    if s.len() > 0 {
        lemma_filter_keeps_all(s.drop_last(), pred);
    }
}

/// A filter empties a sequence of which no item passes.
proof fn lemma_filter_drops_all<A>(s: Seq<A>, pred: spec_fn(A) -> bool)
    requires
        forall|i: int| 0 <= i < s.len() ==> !pred(#[trigger] s[i]),
    ensures
        s.filter(pred) == Seq::<A>::empty(),
    decreases s.len(),
{
    reveal_with_fuel(Seq::filter, 1);
    if s.len() > 0 {
        lemma_filter_drops_all(s.drop_last(), pred);
    }
}

/// A filter that no item of any block passes empties the blocks' concatenation.
proof fn lemma_concat_filter_none<A>(blocks: Seq<Seq<A>>, pred: spec_fn(A) -> bool)
    requires
        forall|j: int, i: int|
            0 <= j < blocks.len() && 0 <= i < blocks[j].len() ==> !pred(#[trigger] blocks[j][i]),
    ensures
        concat(blocks).filter(pred) == Seq::<A>::empty(),
    decreases blocks.len(),
{
    if blocks.len() > 0 {
        let rest = blocks.drop_last();
        let last = blocks.last();
        lemma_concat_filter_none(rest, pred);
        lemma_filter_drops_all(last, pred);
        Seq::filter_distributes_over_add(concat(rest), last, pred);
    } else {
        reveal_with_fuel(Seq::filter, 1);
    }
}

/// A filter that the items of block `k` pass, and no item of another block,
/// picks block `k` out of the concatenation.
proof fn lemma_concat_filter_one<A>(blocks: Seq<Seq<A>>, pred: spec_fn(A) -> bool, k: int)
    requires
        0 <= k < blocks.len(),
        forall|j: int, i: int|
            0 <= j < blocks.len() && 0 <= i < blocks[j].len() ==> (pred(#[trigger] blocks[j][i])
                <==> j == k),
    ensures
        concat(blocks).filter(pred) == blocks[k],
    decreases blocks.len(),
{
    let rest = blocks.drop_last();
    let last = blocks.last();
    Seq::filter_distributes_over_add(concat(rest), last, pred);
    if k == blocks.len() - 1 {
        lemma_concat_filter_none(rest, pred);
        lemma_filter_keeps_all(last, pred);
    } else {
        lemma_concat_filter_one(rest, pred, k);
        lemma_filter_drops_all(last, pred);
    }
}

/// After a sequence that lacks `v`, a run of `v` adds `v` once to what was seen.
proof fn lemma_first_seen_append_run(s: Seq<i64>, run: Seq<i64>, v: i64)
    requires
        run.len() > 0,
        forall|i: int| 0 <= i < run.len() ==> run[i] == v,
        !s.contains(v),
    ensures
        first_seen(s + run) == first_seen(s).push(v),
    decreases run.len(),
{
    let shorter = run.drop_last();
    assert(s + run =~= (s + shorter).push(v));
    lemma_first_seen_push(s + shorter, v);
    if shorter.len() > 0 {
        lemma_first_seen_append_run(s, shorter, v);
    }
}

/// The row of a regiment that has no piece.
pub open spec fn shell_row(regimen_id: i64, date: Timestamp) -> RowView {
    RowView {
        regimen_id,
        regimen_date: date,
        piece_id: None,
        piece_name: None,
        log_id: None,
        log_bpm: None,
        log_timestamp: None,
    }
}

/// The row of a piece that has no log entry.
pub open spec fn bare_piece_row(regimen_id: i64, date: Timestamp, piece: PieceView) -> RowView {
    RowView {
        regimen_id,
        regimen_date: date,
        piece_id: piece.id,
        piece_name: Some(piece.name),
        log_id: None,
        log_bpm: None,
        log_timestamp: None,
    }
}

/// The row of one log entry of a piece.
pub open spec fn log_row(
    regimen_id: i64,
    date: Timestamp,
    piece: PieceView,
    log: PracticeLog,
) -> RowView {
    RowView {
        regimen_id,
        regimen_date: date,
        piece_id: piece.id,
        piece_name: Some(piece.name),
        log_id: log.id,
        log_bpm: Some(log.bpm),
        log_timestamp: Some(log.timestamp),
    }
}

/// The rows that the join gives for a piece: one for each log entry, or one
/// with the log columns empty.
pub open spec fn piece_rows(regimen_id: i64, date: Timestamp, piece: PieceView) -> Seq<RowView> {
    if piece.logs.len() == 0 {
        seq![bare_piece_row(regimen_id, date, piece)]
    } else {
        Seq::new(piece.logs.len(), |i: int| log_row(regimen_id, date, piece, piece.logs[i]))
    }
}

/// The rows that the join gives for a regiment: those of its pieces in order, or
/// one with the piece columns empty.
pub open spec fn regiment_rows(regiment: RegimentView) -> Seq<RowView> {
    if regiment.pieces.len() == 0 {
        seq![shell_row(regiment.id.unwrap(), regiment.date)]
    } else {
        concat(
            Seq::new(
                regiment.pieces.len(),
                |j: int| piece_rows(regiment.id.unwrap(), regiment.date, regiment.pieces[j]),
            ),
        )
    }
}

/// The outer join of regiments, pieces and log entries: the rows of the
/// regiments in order.
pub open spec fn outer_join(regiments: Seq<RegimentView>) -> Seq<RowView> {
    concat(Seq::new(regiments.len(), |k: int| regiment_rows(regiments[k])))
}

/// A piece as a store holds it: it has an identifier, and its log entries have
/// theirs and name the piece as their owner.
pub open spec fn stored_piece(piece: PieceView) -> bool {
    &&& piece.id is Some
    &&& forall|i: int|
        0 <= i < piece.logs.len() ==> (#[trigger] piece.logs[i]).id is Some
            && piece.logs[i].practice_piece_id == piece.id.unwrap()
}

/// A regiment as a store holds it: it has an identifier, and its pieces are
/// stored pieces with identifiers of their own.
pub open spec fn stored_regiment(regiment: RegimentView) -> bool {
    &&& regiment.id is Some
    &&& forall|j: int| 0 <= j < regiment.pieces.len() ==> stored_piece(#[trigger] regiment.pieces[j])
    &&& forall|i: int, j: int|
        0 <= i < j < regiment.pieces.len() ==> (#[trigger] regiment.pieces[i]).id != (
        #[trigger] regiment.pieces[j]).id
}

/// A history as a store holds it: stored regiments with identifiers of their own.
pub open spec fn stored(regiments: Seq<RegimentView>) -> bool {
    &&& forall|k: int| 0 <= k < regiments.len() ==> stored_regiment(#[trigger] regiments[k])
    &&& forall|i: int, k: int|
        0 <= i < k < regiments.len() ==> (#[trigger] regiments[i]).id != (
        #[trigger] regiments[k]).id
}

/// The column of piece identifiers of two runs of rows, one after the other.
proof fn lemma_piece_id_column_add(a: Seq<RowView>, b: Seq<RowView>)
    ensures
        piece_id_column(a + b) == piece_id_column(a) + piece_id_column(b),
    decreases b.len(),
{
    if b.len() > 0 {
        lemma_piece_id_column_add(a, b.drop_last());
        assert((a + b).drop_last() =~= a + b.drop_last());
        if let Some(id) = b.last().piece_id {
            assert((piece_id_column(a) + piece_id_column(b.drop_last())).push(id)
                =~= piece_id_column(a) + piece_id_column(b.drop_last()).push(id));
        }
    }
}

/// The column of piece identifiers of rows that all tell of piece `piece_id`.
proof fn lemma_piece_id_column_of_one_piece(rows: Seq<RowView>, piece_id: i64)
    requires
        forall|i: int| 0 <= i < rows.len() ==> (#[trigger] rows[i]).piece_id == Some(piece_id),
    ensures
        piece_id_column(rows).len() == rows.len(),
        forall|i: int| 0 <= i < rows.len() ==> piece_id_column(rows)[i] == piece_id,
    decreases rows.len(),
{
    if rows.len() > 0 {
        lemma_piece_id_column_of_one_piece(rows.drop_last(), piece_id);
    }
}

/// Every item of a concatenation is an item of one of the blocks.
proof fn lemma_concat_item<A>(blocks: Seq<Seq<A>>, i: int) -> (at: (int, int))
    requires
        0 <= i < concat(blocks).len(),
    ensures
        0 <= at.0 < blocks.len(),
        0 <= at.1 < blocks[at.0].len(),
        concat(blocks)[i] == blocks[at.0][at.1],
    decreases blocks.len(),
{
    let rest = blocks.drop_last();
    if i < concat(rest).len() {
        lemma_concat_item(rest, i)
    } else {
        (blocks.len() - 1, i - concat(rest).len())
    }
}

/// A concatenation whose last block is not empty is not empty.
proof fn lemma_concat_not_empty<A>(blocks: Seq<Seq<A>>)
    requires
        blocks.len() > 0,
        blocks.last().len() > 0,
    ensures
        concat(blocks).len() > 0,
{
}

/// The rows of a stored piece: there is one at least, and each tells of the
/// regiment and the piece and is well formed.
proof fn lemma_piece_rows(regimen_id: i64, date: Timestamp, piece: PieceView)
    requires
        stored_piece(piece),
    ensures
        piece_rows(regimen_id, date, piece).len() > 0,
        forall|i: int|
            0 <= i < piece_rows(regimen_id, date, piece).len() ==> {
                let row = #[trigger] piece_rows(regimen_id, date, piece)[i];
                &&& row.regimen_id == regimen_id
                &&& row.regimen_date == date
                &&& row.piece_id == piece.id
                &&& row.well_formed()
            },
{
}

/// The rows of a stored piece give the piece back.
proof fn lemma_piece_from_its_rows(regimen_id: i64, date: Timestamp, piece: PieceView)
    requires
        stored_piece(piece),
    ensures
        piece_rows(regimen_id, date, piece)[0].name() == piece.name,
        logs_of(piece_rows(regimen_id, date, piece)) == piece.logs,
{
    let own = piece_rows(regimen_id, date, piece);
    if piece.logs.len() == 0 {
        lemma_filter_drops_all(own, has_log());
    } else {
        lemma_filter_keeps_all(own, has_log());
    }
}

/// The rows of the pieces of a regiment, piece by piece.
spec fn piece_blocks(regimen_id: i64, date: Timestamp, pieces: Seq<PieceView>) -> Seq<
    Seq<RowView>,
> {
    Seq::new(pieces.len(), |j: int| piece_rows(regimen_id, date, pieces[j]))
}

/// The identifiers of stored pieces, in order.
spec fn piece_ids(pieces: Seq<PieceView>) -> Seq<i64> {
    Seq::new(pieces.len(), |j: int| pieces[j].id.unwrap())
}

/// Whether the pieces are stored pieces with identifiers of their own.
spec fn stored_pieces(pieces: Seq<PieceView>) -> bool {
    &&& forall|j: int| 0 <= j < pieces.len() ==> stored_piece(#[trigger] pieces[j])
    &&& forall|i: int, j: int|
        0 <= i < j < pieces.len() ==> (#[trigger] pieces[i]).id != (#[trigger] pieces[j]).id
}

/// The rows of stored pieces name the pieces in their order.
proof fn lemma_piece_ids_of_blocks(regimen_id: i64, date: Timestamp, pieces: Seq<PieceView>)
    requires
        stored_pieces(pieces),
    ensures
        first_seen(piece_id_column(concat(piece_blocks(regimen_id, date, pieces)))) == piece_ids(
            pieces,
        ),
    decreases pieces.len(),
{
    if pieces.len() > 0 {
        let rest = pieces.drop_last();
        let last = pieces.last();
        let id = last.id.unwrap();
        assert(stored_pieces(rest));
        lemma_piece_ids_of_blocks(regimen_id, date, rest);
        assert(piece_blocks(regimen_id, date, pieces).drop_last() =~= piece_blocks(
            regimen_id,
            date,
            rest,
        ));
        let before = concat(piece_blocks(regimen_id, date, rest));
        let block = piece_rows(regimen_id, date, last);
        lemma_piece_id_column_add(before, block);
        lemma_piece_rows(regimen_id, date, last);
        lemma_piece_id_column_of_one_piece(block, id);
        lemma_first_seen_contains(piece_id_column(before), id);
        assert(!piece_ids(rest).contains(id));
        lemma_first_seen_append_run(piece_id_column(before), piece_id_column(block), id);
    }
}

/// The rows of a stored regiment: there is one at least, and each tells of the
/// regiment and is well formed.
proof fn lemma_regiment_rows(regiment: RegimentView)
    requires
        stored_regiment(regiment),
    ensures
        regiment_rows(regiment).len() > 0,
        forall|i: int|
            0 <= i < regiment_rows(regiment).len() ==> {
                let row = #[trigger] regiment_rows(regiment)[i];
                &&& row.regimen_id == regiment.id.unwrap()
                &&& row.regimen_date == regiment.date
                &&& row.well_formed()
            },
{
    let regimen_id = regiment.id.unwrap();
    let pieces = regiment.pieces;
    if pieces.len() > 0 {
        let blocks = piece_blocks(regimen_id, regiment.date, pieces);
        lemma_piece_rows(regimen_id, regiment.date, pieces[pieces.len() - 1]);
        lemma_concat_not_empty(blocks);
        assert forall|i: int| 0 <= i < concat(blocks).len() implies {
            let row = #[trigger] concat(blocks)[i];
            &&& row.regimen_id == regimen_id
            &&& row.regimen_date == regiment.date
            &&& row.well_formed()
        } by {
            let at = lemma_concat_item(blocks, i);
            lemma_piece_rows(regimen_id, regiment.date, pieces[at.0]);
        }
    }
}

/// The rows of a stored regiment give the regiment back.
proof fn lemma_regiment_from_its_rows(regiment: RegimentView)
    requires
        stored_regiment(regiment),
    ensures
        regiment_from(regiment_rows(regiment), regiment.id.unwrap()) == regiment,
{
    let regimen_id = regiment.id.unwrap();
    let date = regiment.date;
    let pieces = regiment.pieces;
    let rows = regiment_rows(regiment);
    let rebuilt = regiment_from(rows, regimen_id);
    lemma_regiment_rows(regiment);
    if pieces.len() == 0 {
        reveal_with_fuel(piece_id_column, 2);
        assert(rebuilt.pieces =~= pieces);
    } else {
        let blocks = piece_blocks(regimen_id, date, pieces);
        lemma_piece_ids_of_blocks(regimen_id, date, pieces);
        let ids = piece_ids(pieces);
        assert forall|j: int| 0 <= j < pieces.len() implies piece_of(rows, ids[j]) == pieces[j] by {
            assert forall|b: int, i: int| 0 <= b < blocks.len() && 0 <= i < blocks[b].len() implies (
            in_piece(ids[j])(#[trigger] blocks[b][i]) <==> b == j) by {
                lemma_piece_rows(regimen_id, date, pieces[b]);
            }
            lemma_concat_filter_one(blocks, in_piece(ids[j]), j);
            lemma_piece_from_its_rows(regimen_id, date, pieces[j]);
        }
        assert(rebuilt.pieces =~= pieces);
    }
}

/// The rows of the regiments of a history, regiment by regiment.
spec fn regiment_blocks(regiments: Seq<RegimentView>) -> Seq<Seq<RowView>> {
    Seq::new(regiments.len(), |k: int| regiment_rows(regiments[k]))
}

/// The identifiers of stored regiments, in order.
spec fn regiment_ids(regiments: Seq<RegimentView>) -> Seq<i64> {
    Seq::new(regiments.len(), |k: int| regiments[k].id.unwrap())
}

/// The rows of a stored history name the regiments in their order.
proof fn lemma_regiment_ids_of_blocks(regiments: Seq<RegimentView>)
    requires
        stored(regiments),
    ensures
        first_seen(regimen_id_column(concat(regiment_blocks(regiments)))) == regiment_ids(
            regiments,
        ),
    decreases regiments.len(),
{
    if regiments.len() > 0 {
        let rest = regiments.drop_last();
        let last = regiments.last();
        let id = last.id.unwrap();
        assert(stored(rest));
        lemma_regiment_ids_of_blocks(rest);
        assert(regiment_blocks(regiments).drop_last() =~= regiment_blocks(rest));
        let before = concat(regiment_blocks(rest));
        let block = regiment_rows(last);
        assert(regimen_id_column(before + block) =~= regimen_id_column(before) + regimen_id_column(
            block,
        ));
        lemma_regiment_rows(last);
        lemma_first_seen_contains(regimen_id_column(before), id);
        assert(!regiment_ids(rest).contains(id));
        lemma_first_seen_append_run(regimen_id_column(before), regimen_id_column(block), id);
    }
}

/// The aggregation round trip: the history that a store holds, flattened into
/// the rows of the outer join, is rebuilt from the rows as it was, and the rows
/// are such as the aggregator takes.
pub proof fn lemma_history_of_outer_join(regiments: Seq<RegimentView>)
    requires
        stored(regiments),
    ensures
        all_well_formed(outer_join(regiments)),
        history(outer_join(regiments)) == regiments,
{
    let blocks = regiment_blocks(regiments);
    let rows = outer_join(regiments);
    let ids = regiment_ids(regiments);
    assert forall|i: int| 0 <= i < rows.len() implies (#[trigger] rows[i]).well_formed() by {
        let at = lemma_concat_item(blocks, i);
        lemma_regiment_rows(regiments[at.0]);
    }
    lemma_regiment_ids_of_blocks(regiments);
    assert forall|k: int| 0 <= k < regiments.len() implies regiment_of(rows, ids[k])
        == regiments[k] by {
        assert forall|b: int, i: int| 0 <= b < blocks.len() && 0 <= i < blocks[b].len() implies (
        in_regiment(ids[k])(#[trigger] blocks[b][i]) <==> b == k) by {
            lemma_regiment_rows(regiments[b]);
        }
        lemma_concat_filter_one(blocks, in_regiment(ids[k]), k);
        lemma_regiment_from_its_rows(regiments[k]);
    }
}

} // verus!

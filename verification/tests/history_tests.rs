use practice_tracker::history::{build_history, history_of, rows_well_formed, RegimenPieceLog};
use practice_tracker::model::{PracticeLog, PracticePiece, PracticeRegiment};
use practice_tracker::time::Timestamp;

fn at(secs: i64) -> Timestamp {
    Timestamp::new(secs, 0).expect("a reading that chrono can hold")
}

fn shell(regimen_id: i64, date: i64) -> RegimenPieceLog {
    RegimenPieceLog {
        regimen_id,
        regimen_date: at(date),
        piece_id: None,
        piece_name: None,
        log_id: None,
        log_bpm: None,
        log_timestamp: None,
    }
}

fn bare_piece(regimen_id: i64, date: i64, piece_id: i64, name: &str) -> RegimenPieceLog {
    RegimenPieceLog {
        piece_id: Some(piece_id),
        piece_name: Some(name.to_string()),
        ..shell(regimen_id, date)
    }
}

fn logged(
    regimen_id: i64,
    date: i64,
    piece_id: i64,
    name: &str,
    log_id: i64,
    bpm: i64,
    time: i64,
) -> RegimenPieceLog {
    RegimenPieceLog {
        log_id: Some(log_id),
        log_bpm: Some(bpm),
        log_timestamp: Some(at(time)),
        ..bare_piece(regimen_id, date, piece_id, name)
    }
}

fn log(id: i64, piece: i64, bpm: i64, time: i64) -> PracticeLog {
    PracticeLog { id: Some(id), practice_piece_id: piece, bpm, timestamp: at(time) }
}

fn piece(id: i64, name: &str, logs: Vec<PracticeLog>) -> PracticePiece {
    PracticePiece { id: Some(id), name: name.to_string(), logs }
}

fn regiment(id: i64, date: i64, pieces: Vec<PracticePiece>) -> PracticeRegiment {
    PracticeRegiment { id: Some(id), date: at(date), pieces }
}

#[test]
fn no_rows_give_no_regiments() {
    assert_eq!(build_history(&vec![]), vec![]);
}

#[test]
fn the_hierarchy_is_rebuilt_from_the_join() {
    // Regiment 2 with piece 10 (two entries) and piece 11 (none); regiment 1 without pieces.
    let rows = vec![
        logged(2, 2_000, 10, "Scales", 100, 80, 2_010),
        logged(2, 2_000, 10, "Scales", 101, 84, 2_020),
        bare_piece(2, 2_000, 11, "Etude"),
        shell(1, 1_000),
    ];
    let expected = vec![
        regiment(
            2,
            2_000,
            vec![
                piece(10, "Scales", vec![log(100, 10, 80, 2_010), log(101, 10, 84, 2_020)]),
                piece(11, "Etude", vec![]),
            ],
        ),
        regiment(1, 1_000, vec![]),
    ];
    assert_eq!(build_history(&rows), expected);
    assert_eq!(history_of(&rows), Some(expected));
}

#[test]
fn rows_of_one_regiment_need_not_be_neighbours() {
    let rows = vec![
        logged(2, 2_000, 10, "Scales", 100, 80, 2_010),
        bare_piece(1, 1_000, 20, "Arpeggio"),
        logged(2, 2_000, 11, "Etude", 102, 60, 2_030),
        logged(2, 2_000, 10, "Scales", 101, 84, 2_020),
        logged(1, 1_000, 20, "Arpeggio", 103, 70, 1_010),
    ];
    let expected = vec![
        regiment(
            2,
            2_000,
            vec![
                piece(10, "Scales", vec![log(100, 10, 80, 2_010), log(101, 10, 84, 2_020)]),
                piece(11, "Etude", vec![log(102, 11, 60, 2_030)]),
            ],
        ),
        regiment(1, 1_000, vec![piece(20, "Arpeggio", vec![log(103, 20, 70, 1_010)])]),
    ];
    assert_eq!(build_history(&rows), expected);
}

#[test]
fn the_first_row_names_and_dates() {
    let rows = vec![
        bare_piece(1, 1_000, 20, "First"),
        bare_piece(1, 9_999, 20, "Second"),
    ];
    assert_eq!(build_history(&rows), vec![regiment(1, 1_000, vec![piece(20, "First", vec![])])]);
}

#[test]
fn the_same_piece_identifier_in_two_regiments_is_two_pieces() {
    let rows = vec![
        logged(1, 1_000, 7, "A", 1, 60, 1_001),
        logged(2, 2_000, 7, "B", 2, 61, 2_001),
    ];
    let expected = vec![
        regiment(1, 1_000, vec![piece(7, "A", vec![log(1, 7, 60, 1_001)])]),
        regiment(2, 2_000, vec![piece(7, "B", vec![log(2, 7, 61, 2_001)])]),
    ];
    assert_eq!(build_history(&rows), expected);
}

#[test]
fn empty_columns_take_their_defaults() {
    let mut row = logged(1, 1_000, 7, "A", 1, 60, 1_001);
    row.piece_name = None;
    row.log_bpm = None;
    let expected = vec![regiment(1, 1_000, vec![piece(7, "", vec![log(1, 7, 0, 1_001)])])];
    assert_eq!(build_history(&vec![row]), expected);
}

#[test]
fn a_log_without_a_piece_is_left_out() {
    let mut row = shell(1, 1_000);
    row.log_id = Some(5);
    row.log_bpm = Some(90);
    assert!(row.is_well_formed());
    assert_eq!(build_history(&vec![row]), vec![regiment(1, 1_000, vec![])]);
}

#[test]
fn a_log_without_its_time_is_refused() {
    let mut row = logged(1, 1_000, 7, "A", 1, 60, 1_001);
    row.log_timestamp = None;
    assert!(!row.is_well_formed());
    let rows = vec![shell(2, 2_000), row];
    assert!(!rows_well_formed(&rows));
    assert_eq!(history_of(&rows), None);
}

#[test]
fn well_formed_rows_are_told() {
    assert!(rows_well_formed(&vec![]));
    assert!(rows_well_formed(&vec![shell(1, 1), bare_piece(1, 1, 2, "x"), logged(1, 1, 2, "x", 3, 4, 5)]));
    let mut timed_only = bare_piece(1, 1, 2, "x");
    timed_only.log_timestamp = Some(at(5));
    assert!(timed_only.is_well_formed());
}

#[test]
fn many_regiments_keep_their_order() {
    let mut rows = Vec::new();
    let mut expected = Vec::new();
    for k in 0..200i64 {
        let id = 1_000 - k;
        rows.push(bare_piece(id, 50_000 - k, k, "p"));
        rows.push(logged(id, 50_000 - k, k, "p", k, 100 + k, 60_000 + k));
        expected.push(regiment(id, 50_000 - k, vec![piece(k, "p", vec![log(k, k, 100 + k, 60_000 + k)])]));
    }
    assert_eq!(build_history(&rows), expected);
}

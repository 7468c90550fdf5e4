use practice_tracker::listing::{list_regiments, RegimentPieceRow};
use practice_tracker::model::{PracticePiece, PracticeRegiment};
use practice_tracker::time::Timestamp;

fn at(secs: i64) -> Timestamp {
    Timestamp::new(secs, 0).expect("a reading that chrono can hold")
}

fn row(regiment_id: i64, date: i64, piece_id: i64, name: &str) -> RegimentPieceRow {
    RegimentPieceRow { regiment_id, date: at(date), piece_id, piece_name: name.to_string() }
}

fn piece(id: i64, name: &str) -> PracticePiece {
    PracticePiece { id: Some(id), name: name.to_string(), logs: vec![] }
}

#[test]
fn no_rows_list_nothing() {
    assert_eq!(list_regiments(&vec![]), vec![]);
}

#[test]
fn pieces_are_grouped_by_regiment() {
    let rows = vec![
        row(2, 2_000, 10, "Scales"),
        row(2, 2_000, 11, "Etude"),
        row(1, 1_000, 12, "Arpeggio"),
        row(2, 2_000, 13, "Sonata"),
    ];
    let expected = vec![
        PracticeRegiment {
            id: Some(2),
            date: at(2_000),
            pieces: vec![piece(10, "Scales"), piece(11, "Etude"), piece(13, "Sonata")],
        },
        PracticeRegiment { id: Some(1), date: at(1_000), pieces: vec![piece(12, "Arpeggio")] },
    ];
    assert_eq!(list_regiments(&rows), expected);
}

#[test]
fn every_row_gives_a_piece() {
    let rows = vec![row(1, 1_000, 12, "Arpeggio"), row(1, 1_500, 12, "Arpeggio")];
    let expected = vec![PracticeRegiment {
        id: Some(1),
        date: at(1_000),
        pieces: vec![piece(12, "Arpeggio"), piece(12, "Arpeggio")],
    }];
    assert_eq!(list_regiments(&rows), expected);
}

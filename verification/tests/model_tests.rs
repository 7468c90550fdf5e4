use practice_tracker::model::{PracticePiece, PracticeRegiment};
use practice_tracker::time::Timestamp;

#[test]
fn piece_names_come_in_order() {
    let regiment = PracticeRegiment {
        id: None,
        date: Timestamp::new(1_700_000_000, 0).unwrap(),
        pieces: vec![
            PracticePiece { id: None, name: "Scales".to_string(), logs: vec![] },
            PracticePiece { id: Some(4), name: String::new(), logs: vec![] },
            PracticePiece { id: None, name: "Scales".to_string(), logs: vec![] },
        ],
    };
    assert_eq!(regiment.piece_names(), vec!["Scales".to_string(), String::new(), "Scales".to_string()]);
}

#[test]
fn a_regiment_without_pieces_has_no_names() {
    let regiment =
        PracticeRegiment { id: Some(1), date: Timestamp::new(0, 0).unwrap(), pieces: vec![] };
    assert_eq!(regiment.piece_names(), Vec::<String>::new());
}

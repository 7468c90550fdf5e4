use practice_tracker::failure::FailureKind;

#[test]
fn messages_open_with_the_kind() {
    assert_eq!(
        FailureKind::InsertRegiment.message("RowNotFound"),
        "Failed to insert regiment in command: RowNotFound"
    );
    assert_eq!(FailureKind::LoadHistory.message("no such table"), "Failed to load data: no such table");
    assert_eq!(FailureKind::Serialization.message("eof"), "Serialization failed: eof");
    assert_eq!(FailureKind::LockRegister.message("poisoned"), "Failed to lock mutex: poisoned");
}

#[test]
fn an_empty_detail_leaves_the_prefix() {
    assert_eq!(FailureKind::LoadHistory.message(""), FailureKind::LoadHistory.prefix());
    assert_eq!(FailureKind::LockRegister.prefix(), "Failed to lock mutex: ");
}

use practice_tracker::register::ActivePieceRegister;

#[test]
fn a_new_register_is_empty() {
    let register = ActivePieceRegister::new();
    assert_eq!(register.get_active(), None);
}

#[test]
fn set_active_overwrites() {
    let mut register = ActivePieceRegister::new();
    register.set_active(7);
    assert_eq!(register.get_active(), Some(7));
    register.set_active(9);
    assert_eq!(register.get_active(), Some(9));
    register.set_active(9);
    assert_eq!(register.get_active(), Some(9));
}

#[test]
fn any_identifier_is_taken() {
    let mut register = ActivePieceRegister::new();
    register.set_active(-1);
    assert_eq!(register.get_active(), Some(-1));
    register.set_active(i64::MAX);
    assert_eq!(register.get_active(), Some(i64::MAX));
}

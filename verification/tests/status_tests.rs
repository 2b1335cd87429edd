use pingmon::status::Status;

#[test]
fn status_to_str_forms() {
    assert_eq!(Status::Up.to_str(), "up");
    assert_eq!(Status::Down.to_str(), "down");
    assert_eq!(Status::Unknown.to_str(), "unknown");
}

#[test]
fn status_from_str_reads_the_canonical_forms() {
    assert_eq!(Status::from_str("up"), Status::Up);
    assert_eq!(Status::from_str("down"), Status::Down);
    assert_eq!(Status::from_str("unknown"), Status::Unknown);
}

#[test]
fn status_from_str_folds_anything_else_to_unknown() {
    assert_eq!(Status::from_str(""), Status::Unknown);
    assert_eq!(Status::from_str("UP"), Status::Unknown);
    assert_eq!(Status::from_str("downn"), Status::Unknown);
}

#[test]
fn status_round_trips_through_text() {
    for s in [Status::Up, Status::Down, Status::Unknown] {
        assert_eq!(Status::from_str(s.to_str()), s);
    }
}

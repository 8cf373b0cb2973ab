use rissue::pages::stored_status;
use rissue::status::IssueStatus;

#[test]
fn new_accepts_exactly_the_four_statuses() {
    for raw in 0..4 {
        let s = IssueStatus::new(raw).expect("known status");
        assert_eq!(s.get_raw(), raw);
    }
    assert!(IssueStatus::new(-1).is_none());
    assert!(IssueStatus::new(4).is_none());
    assert!(IssueStatus::new(i32::MIN).is_none());
    assert!(IssueStatus::new(i32::MAX).is_none());
}

#[test]
fn named_constructors_have_their_raw_values() {
    assert_eq!(IssueStatus::unresolved().get_raw(), 0);
    assert_eq!(IssueStatus::wip().get_raw(), 1);
    assert_eq!(IssueStatus::wont_resolve().get_raw(), 2);
    assert_eq!(IssueStatus::resolved().get_raw(), 3);
    assert_eq!(IssueStatus::new(3), Some(IssueStatus::resolved()));
}

#[test]
fn names_and_classes() {
    let names: Vec<String> = (0..4).map(|r| IssueStatus::new(r).unwrap().as_str().to_string()).collect();
    assert_eq!(names, vec!["Unresolved", "Work In Progress", "Won't Resolve", "Resolved"]);
    assert_eq!(IssueStatus::unresolved().as_class_str(), "issue-unres");
    assert_eq!(IssueStatus::wip().as_class_str(), "issue-wip");
    assert_eq!(IssueStatus::wont_resolve().as_class_str(), "issue-wont");
    assert_eq!(IssueStatus::resolved().as_class_str(), "issue-res");
}

#[test]
fn raw_round_trip() {
    for s in [IssueStatus::unresolved(), IssueStatus::wip(), IssueStatus::wont_resolve(), IssueStatus::resolved()] {
        assert_eq!(IssueStatus::new(s.get_raw()), Some(s));
    }
}

#[test]
fn unknown_stored_status_shows_as_unresolved() {
    assert_eq!(stored_status(2), IssueStatus::wont_resolve());
    assert_eq!(stored_status(9), IssueStatus::unresolved());
    assert_eq!(stored_status(-3), IssueStatus::unresolved());
    // the stored value is read as an i32, as the server reads it
    assert_eq!(stored_status((1i64 << 32) + 1), IssueStatus::wip());
}

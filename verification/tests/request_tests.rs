use rissue::requests::{CreateCommentRequest, CreateIssueRequest, StatusDecision, StatusUpdate};

fn update(stat: i32) -> StatusUpdate {
    StatusUpdate { stat, issue_id: 12, jwt: "t".to_string() }
}

#[test]
fn status_update_decisions() {
    assert_eq!(update(5).decide(true), StatusDecision::BadRequest);
    assert_eq!(update(-1).decide(false), StatusDecision::BadRequest);
    assert_eq!(update(2).decide(false), StatusDecision::Forbidden);
    assert_eq!(update(3).decide(true), StatusDecision::Store { status: 3, issue_id: 12 });
}

#[test]
fn issue_request_validation() {
    let req = CreateIssueRequest { title: "t".to_string(), comment: "c".to_string(), jwt: "j".to_string() };
    let ok = req.validate(true).expect("accepted");
    assert_eq!((ok.title.as_str(), ok.comment.as_str(), ok.jwt.as_str()), ("t", "c", "j"));
    let req = CreateIssueRequest { title: "t".to_string(), comment: "c".to_string(), jwt: "j".to_string() };
    assert!(req.validate(false).is_none());
}

#[test]
fn comment_request_validation() {
    let req = CreateCommentRequest { issue_id: 4, comment: "c".to_string(), jwt: "j".to_string() };
    let ok = req.validate(true).expect("accepted");
    assert_eq!(ok.issue_id, 4);
    assert_eq!(ok.comment, "c");
    let req = CreateCommentRequest { issue_id: 4, comment: "c".to_string(), jwt: "j".to_string() };
    assert!(req.validate(false).is_none());
}

#[test]
fn new_issue_records() {
    let req = CreateIssueRequest { title: "Crash".to_string(), comment: "It crashes".to_string(), jwt: "j".to_string() };
    let (issue, comment) = req.plan(Some("alice".to_string()), 5, 9).expect("token accepted");
    assert_eq!(issue.issue_id, 5);
    assert_eq!(issue.title, "Crash");
    assert_eq!(issue.submitter, "alice");
    assert_eq!(issue.status, rissue::status::IssueStatus::unresolved().get_raw());
    assert_eq!(comment.comment_id, 9);
    assert_eq!(comment.issue_id, 5);
    assert_eq!(comment.content, "It crashes");
    assert_eq!(comment.submitter, "alice");

    let req = CreateIssueRequest { title: "t".to_string(), comment: "c".to_string(), jwt: "j".to_string() };
    assert!(req.plan(None, 5, 9).is_none());
}

#[test]
fn new_comment_record() {
    let req = CreateCommentRequest { issue_id: 3, comment: "me too".to_string(), jwt: "j".to_string() };
    let c = req.plan(Some("bob".to_string()), 11).expect("token accepted");
    assert_eq!((c.comment_id, c.issue_id), (11, 3));
    assert_eq!(c.content, "me too");
    assert_eq!(c.submitter, "bob");
    let req = CreateCommentRequest { issue_id: 3, comment: "x".to_string(), jwt: "j".to_string() };
    assert!(req.plan(None, 11).is_none());
}

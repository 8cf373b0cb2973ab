use rissue::requests::CreateIssueRequest;
use rissue::pages::{asset_kind, render_comment_feed, render_index, render_issue_list, render_issue_page, AssetKind, CommentRow, IssueRow};

fn issue(id: i64, title: &str, status: i64) -> IssueRow {
    IssueRow { issue_id: id, title: title.to_string(), status, post_date: "2024-01-02 03:04:05 UTC".to_string() }
}

fn comment(id: i64, issue_id: i64, content: &str) -> CommentRow {
    CommentRow {
        comment_id: id,
        issue_id,
        content: content.to_string(),
        submitter: "alice".to_string(),
        post_date: "2024-01-02 03:04:05 UTC".to_string(),
    }
}

#[test]
fn issue_list_lines() {
    let rows = vec![issue(0, "Crash", 1), issue(7, "Typo", 42)];
    let html = render_issue_list(&rows);
    assert_eq!(
        html,
        "<div class=\"issue-title issue-wip\" hx-get=\"/issue/0\" hx-swap=\"innerHTML\" hx-target=\"#latest-div\">0 - Crash</div>\n\
         <div class=\"issue-title issue-unres\" hx-get=\"/issue/7\" hx-swap=\"innerHTML\" hx-target=\"#latest-div\">7 - Typo</div>\n"
    );
    assert_eq!(render_issue_list(&vec![]), "");
}

#[test]
fn index_template_is_filled() {
    let rows = vec![issue(1, "A", 0)];
    let page = render_index("<main>{}</main><aside>{}</aside>", &rows);
    let line = render_issue_list(&rows);
    assert_eq!(page, format!("<main>{}</main><aside>{}</aside>", line, line));
    assert_eq!(render_index("plain", &rows), "plain");
}

#[test]
fn issue_page() {
    let page = render_issue_page(&issue(3, "Broken", 2), &vec![comment(10, 3, "first"), comment(11, 3, "second")]);
    let expected = String::new()
        + "<div><button hx-get=\"/issues\" hx-target=\"#latest-div\" hx-swap=\"innerHTML\" class=\"create-button\">Go home</button></div>\n<div>"
        + "<h1 class=\"issue-title\"><span id=\"issue-id\">3</span> - Broken</h1>"
        + "<p class=\"issue-datetime\">date time: 2024-01-02 03:04:05 UTC</p>"
        + "<p class=\"issue-status\">Status: Won't Resolve</p>"
        + "</div><br>"
        + "<div class=\"issue-comment\" id=\"id-10\">first<br>(Submitted by: alice at 2024-01-02 03:04:05 UTC)</div><br>\n"
        + "<div class=\"issue-comment\" id=\"id-11\">second<br>(Submitted by: alice at 2024-01-02 03:04:05 UTC)</div><br>\n"
        + "<button hx-get=\"/new/comment\" hx-swap=\"outerHTML\" class=\"create-button\">Post new comment</button>\n";
    assert_eq!(page, expected);
}

#[test]
fn comment_feed() {
    let feed = render_comment_feed(&vec![comment(10, 3, "hello")], "<form></form>");
    assert_eq!(
        feed,
        "<div class=\"issue-comment\" id=\"id-3\">hello<br>(Submitted by: alice at 2024-01-02 03:04:05 UTC)<br><br></div>\n<form></form>"
    );
}

#[test]
fn asset_kinds() {
    assert_eq!(asset_kind("main.js"), AssetKind::JavaScript);
    assert_eq!(asset_kind("style.css"), AssetKind::Css);
    assert_eq!(asset_kind("README"), AssetKind::Css);
}

#[test]
fn new_issue_is_listed_unresolved() {
    let req = CreateIssueRequest { title: "Login fails".to_string(), comment: "c".to_string(), jwt: "j".to_string() };
    let (planned, _) = req.plan(Some("dave".to_string()), 14, 2).unwrap();
    let rows = vec![issue(1, "Older", 1), IssueRow {
        issue_id: planned.issue_id,
        title: planned.title.clone(),
        status: planned.status as i64,
        post_date: "2024-01-02 03:04:05 UTC".to_string(),
    }];
    let html = render_issue_list(&rows);
    assert!(html.ends_with(
        "<div class=\"issue-title issue-unres\" hx-get=\"/issue/14\" hx-swap=\"innerHTML\" hx-target=\"#latest-div\">14 - Login fails</div>\n"
    ));
}

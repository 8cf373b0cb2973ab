//! The HTML fragments that the tracker answers with: the list of open
//! issues, the page of one issue with its comments, and the comment feed.

use vstd::prelude::*;
use crate::status;
use crate::status::IssueStatus;
use crate::requests::NewIssue;
use crate::text;

verus! {

/// An issue as it is read from storage.
#[derive(Debug)]
pub struct IssueRow {
    pub issue_id: i64,
    pub title: String,
    pub status: i64,
    /// When the issue was posted, already written out for display.
    pub post_date: String,
}

/// A comment as it is read from storage.
#[derive(Debug)]
pub struct CommentRow {
    pub comment_id: i64,
    pub issue_id: i64,
    pub content: String,
    pub submitter: String,
    /// When the comment was posted, already written out for display.
    pub post_date: String,
}

/// The kind of a static asset, which decides its content type.
#[derive(Debug, PartialEq, Eq, Structural)]
pub enum AssetKind {
    JavaScript,
    Css,
}

/// The raw status that is shown for a stored status value: the stored value
/// (as an `i32`) when it names a status, `Unresolved` (0) otherwise.
pub open spec fn shown_status(raw: i64) -> int {
    if status::valid_raw((raw as i32) as int) {
        (raw as i32) as int
    } else {
        0
    }
}

/// The concatenation of `f` applied to each element of `s`, in order.
pub open spec fn concat_map<T>(s: Seq<T>, f: spec_fn(T) -> Seq<char>) -> Seq<char>
    decreases s.len(),
{
    if s.len() == 0 {
        seq![]
    } else {
        concat_map(s.drop_last(), f) + f(s.last())
    }
}

/// One line of the issue list.
pub open spec fn issue_list_entry(row: IssueRow) -> Seq<char> {
    let id = text::signed_decimal(row.issue_id as int);
    "<div class=\"issue-title "@ + status::status_class(shown_status(row.status))
        + "\" hx-get=\"/issue/"@ + id + "\" hx-swap=\"innerHTML\" hx-target=\"#latest-div\">"@
        + id + " - "@ + row.title@ + "</div>\n"@
}

/// The list of issues, one line each, in the given order.
pub open spec fn issue_list_html(rows: Seq<IssueRow>) -> Seq<char> {
    concat_map(rows, |r: IssueRow| issue_list_entry(r))
}

/// One comment on the page of an issue.
pub open spec fn issue_comment_entry(c: CommentRow) -> Seq<char> {
    "<div class=\"issue-comment\" id=\"id-"@ + text::signed_decimal(c.comment_id as int) + "\">"@
        + c.content@ + "<br>"@ + "(Submitted by: "@ + c.submitter@ + " at "@ + c.post_date@
        + ")</div><br>\n"@
}

/// The top of the page of an issue: the way back home, then its title, date
/// and status.
pub open spec fn issue_header(issue: IssueRow) -> Seq<char> {
    "<div><button hx-get=\"/issues\" hx-target=\"#latest-div\" hx-swap=\"innerHTML\" class=\"create-button\">Go home</button></div>\n<div>"@
        + "<h1 class=\"issue-title\"><span id=\"issue-id\">"@ + text::signed_decimal(
        issue.issue_id as int,
    ) + "</span> - "@ + issue.title@ + "</h1>"@ + "<p class=\"issue-datetime\">date time: "@
        + issue.post_date@ + "</p>"@ + "<p class=\"issue-status\">Status: "@
        + status::status_name(shown_status(issue.status)) + "</p>"@ + "</div><br>"@
}

/// The page of an issue with its comments, in the given order.
pub open spec fn issue_page_html(issue: IssueRow, comments: Seq<CommentRow>) -> Seq<char> {
    issue_header(issue) + concat_map(comments, |c: CommentRow| issue_comment_entry(c))
        + "<button hx-get=\"/new/comment\" hx-swap=\"outerHTML\" class=\"create-button\">Post new comment</button>\n"@
}

/// One comment in the feed shown after a comment is posted.
pub open spec fn feed_entry(c: CommentRow) -> Seq<char> {
    "<div class=\"issue-comment\" id=\"id-"@ + text::signed_decimal(c.issue_id as int) + "\">"@
        + c.content@ + "<br>"@ + "(Submitted by: "@ + c.submitter@ + " at "@ + c.post_date@
        + ")<br><br>"@ + "</div>\n"@
}

/// The comment feed, followed by a fresh comment box.
pub open spec fn comment_feed_html(comments: Seq<CommentRow>, comment_box: Seq<char>) -> Seq<
    char,
> {
    concat_map(comments, |c: CommentRow| feed_entry(c)) + comment_box
}

/// The element of `s` at `i` extends the concatenation of the ones before it.
proof fn lemma_concat_map_take<T>(s: Seq<T>, f: spec_fn(T) -> Seq<char>, i: int)
    requires
        0 <= i < s.len(),
    ensures
        concat_map(s.take(i + 1), f) == concat_map(s.take(i), f) + f(s[i]),
{
    assert(s.take(i + 1).drop_last() =~= s.take(i));
}

/// The list line of issue `issue_id`, titled `title`, while it is unresolved.
pub open spec fn unresolved_line(issue_id: i64, title: Seq<char>) -> Seq<char> {
    let id = text::signed_decimal(issue_id as int);
    "<div class=\"issue-title issue-unres\" hx-get=\"/issue/"@ + id
        + "\" hx-swap=\"innerHTML\" hx-target=\"#latest-div\">"@ + id + " - "@ + title
        + "</div>\n"@
}

/// Concatenating the pieces of two sequences one after the other.
proof fn lemma_concat_map_append<T>(a: Seq<T>, b: Seq<T>, f: spec_fn(T) -> Seq<char>)
    ensures
        concat_map(a + b, f) == concat_map(a, f) + concat_map(b, f),
    decreases b.len(),
{
    if b.len() == 0 {
        assert(a + b =~= a);
        assert(concat_map(a, f) + concat_map(b, f) =~= concat_map(a, f));
    } else {
        lemma_concat_map_append(a, b.drop_last(), f);
        assert((a + b).drop_last() =~= a + b.drop_last());
        assert((a + b).last() == b.last());
    }
}

/// An issue opened through `CreateIssueRequest::plan` starts unresolved, so
/// as long as its stored status is unchanged, wherever its row stands in the
/// list of issues, the list shows it as an `issue-unres` line linking to
/// `/issue/{n}` and reading `{n} - {title}`.
pub proof fn law_new_issue_is_listed_unresolved(rows: Seq<IssueRow>, k: int, issue: NewIssue)
    requires
        0 <= k < rows.len(),
        issue.status == 0,
        rows[k].issue_id == issue.issue_id,
        rows[k].title@ == issue.title@,
        rows[k].status == issue.status as i64,
    ensures
        issue_list_html(rows) == issue_list_html(rows.take(k)) + unresolved_line(
            issue.issue_id,
            issue.title@,
        ) + issue_list_html(rows.skip(k + 1)),
{
    let f = |r: IssueRow| issue_list_entry(r);
    let front = rows.take(k);
    let one = seq![rows[k]];
    let back = rows.skip(k + 1);
    assert(rows =~= front + one + back);
    lemma_concat_map_append(front + one, back, f);
    lemma_concat_map_append(front, one, f);
    assert(one.drop_last() =~= Seq::<IssueRow>::empty());
    assert(concat_map(one.drop_last(), f) =~= Seq::<char>::empty());
    assert(one.last() == rows[k]);
    assert(f(rows[k]) == issue_list_entry(rows[k]));
    assert(concat_map(one, f) =~= issue_list_entry(rows[k]));
    assert(shown_status(rows[k].status) == 0);
    reveal_strlit("<div class=\"issue-title ");
    reveal_strlit("issue-unres");
    reveal_strlit("\" hx-get=\"/issue/");
    reveal_strlit("<div class=\"issue-title issue-unres\" hx-get=\"/issue/");
    assert("<div class=\"issue-title "@ + "issue-unres"@ + "\" hx-get=\"/issue/"@
        =~= "<div class=\"issue-title issue-unres\" hx-get=\"/issue/"@);
    assert(issue_list_entry(rows[k]) =~= unresolved_line(issue.issue_id, issue.title@));
}

/// The pieces of a sequence are its pieces before position `k`, the piece of
/// the element at `k`, and the pieces after it.
proof fn lemma_concat_map_split<T>(s: Seq<T>, f: spec_fn(T) -> Seq<char>, k: int)
    requires
        0 <= k < s.len(),
    ensures
        concat_map(s, f) == concat_map(s.take(k), f) + f(s[k]) + concat_map(s.skip(k + 1), f),
{
    let front = s.take(k);
    let one = seq![s[k]];
    let back = s.skip(k + 1);
    assert(s =~= front + one + back);
    lemma_concat_map_append(front + one, back, f);
    lemma_concat_map_append(front, one, f);
    assert(one.drop_last() =~= Seq::<T>::empty());
    assert(concat_map(one.drop_last(), f) =~= Seq::<char>::empty());
    assert(one.last() == s[k]);
    assert(concat_map(one, f) =~= f(s[k]));
}

/// A stored value that names a status (0 to 3, read as an `i32`) is shown as
/// that very status; only values that name none are shown as Unresolved (0).
pub proof fn law_stored_status_is_shown(raw: i64)
    ensures
        0 <= raw as i32 <= 3 ==> shown_status(raw) == raw as i32,
        !(0 <= raw as i32 <= 3) ==> shown_status(raw) == 0,
{
}

/// The list has one line for every row, in order, whatever the row's status:
/// the line of row `k` stands between the lines of the rows before it and
/// those after it.
pub proof fn law_every_row_is_listed(rows: Seq<IssueRow>, k: int)
    requires
        0 <= k < rows.len(),
    ensures
        issue_list_html(rows) == issue_list_html(rows.take(k)) + issue_list_entry(rows[k])
            + issue_list_html(rows.skip(k + 1)),
{
    let f = |r: IssueRow| issue_list_entry(r);
    lemma_concat_map_split(rows, f, k);
    assert(f(rows[k]) == issue_list_entry(rows[k]));
}

/// The line of a row opens a `div` with class `issue-title` and the class of
/// the shown status, linking to `/issue/{n}`; it then reads `{n} - ` and the
/// whole title, and closes the `div`.
pub proof fn law_issue_line_layout(row: IssueRow)
    ensures
        ({
            let id = text::signed_decimal(row.issue_id as int);
            let head = "<div class=\"issue-title "@ + status::status_class(shown_status(row.status))
                + "\" hx-get=\"/issue/"@ + id
                + "\" hx-swap=\"innerHTML\" hx-target=\"#latest-div\">"@ + id + " - "@;
            let line = issue_list_entry(row);
            &&& line.len() == head.len() + row.title@.len() + "</div>\n"@.len()
            &&& line.take(head.len() as int) == head
            &&& line.subrange(head.len() as int, (head.len() + row.title@.len()) as int) == row.title@
            &&& line.skip((head.len() + row.title@.len()) as int) == "</div>\n"@
        }),
{
    let id = text::signed_decimal(row.issue_id as int);
    let head = "<div class=\"issue-title "@ + status::status_class(shown_status(row.status))
        + "\" hx-get=\"/issue/"@ + id + "\" hx-swap=\"innerHTML\" hx-target=\"#latest-div\">"@ + id
        + " - "@;
    let line = issue_list_entry(row);
    assert(line =~= head + row.title@ + "</div>\n"@);
    assert(line.take(head.len() as int) =~= head);
    assert(line.subrange(head.len() as int, (head.len() + row.title@.len()) as int) =~= row.title@);
    assert(line.skip((head.len() + row.title@.len()) as int) =~= "</div>\n"@);
}

/// A comment in the feed holds its whole content, verbatim, right after the
/// opening `div` that names the issue; after the content come its submitter
/// and date.
pub proof fn law_feed_entry_layout(c: CommentRow)
    ensures
        ({
            let head = "<div class=\"issue-comment\" id=\"id-"@ + text::signed_decimal(
                c.issue_id as int,
            ) + "\">"@;
            let tail = "<br>"@ + "(Submitted by: "@ + c.submitter@ + " at "@ + c.post_date@
                + ")<br><br>"@ + "</div>\n"@;
            let entry = feed_entry(c);
            &&& entry.len() == head.len() + c.content@.len() + tail.len()
            &&& entry.take(head.len() as int) == head
            &&& entry.subrange(head.len() as int, (head.len() + c.content@.len()) as int) == c.content@
            &&& entry.skip((head.len() + c.content@.len()) as int) == tail
        }),
{
    let head = "<div class=\"issue-comment\" id=\"id-"@ + text::signed_decimal(c.issue_id as int)
        + "\">"@;
    let tail = "<br>"@ + "(Submitted by: "@ + c.submitter@ + " at "@ + c.post_date@
        + ")<br><br>"@ + "</div>\n"@;
    let entry = feed_entry(c);
    assert(entry =~= head + c.content@ + tail);
    assert(entry.take(head.len() as int) =~= head);
    assert(entry.subrange(head.len() as int, (head.len() + c.content@.len()) as int) =~= c.content@);
    assert(entry.skip((head.len() + c.content@.len()) as int) =~= tail);
}

/// The feed shows every posted comment, in order, and ends with the comment
/// box.
pub proof fn law_every_comment_is_in_feed(comments: Seq<CommentRow>, k: int, comment_box: Seq<char>)
    requires
        0 <= k < comments.len(),
    ensures
        comment_feed_html(comments, comment_box) == concat_map(
            comments.take(k),
            |c: CommentRow| feed_entry(c),
        ) + feed_entry(comments[k]) + concat_map(
            comments.skip(k + 1),
            |c: CommentRow| feed_entry(c),
        ) + comment_box,
{
    let f = |c: CommentRow| feed_entry(c);
    lemma_concat_map_split(comments, f, k);
    assert(f(comments[k]) == feed_entry(comments[k]));
}

/// A comment on the page of an issue holds its whole content, verbatim,
/// right after the opening `div` named by the comment's number; after the
/// content come its submitter and date.
pub proof fn law_issue_comment_layout(c: CommentRow)
    ensures
        ({
            let head = "<div class=\"issue-comment\" id=\"id-"@ + text::signed_decimal(
                c.comment_id as int,
            ) + "\">"@;
            let tail = "<br>"@ + "(Submitted by: "@ + c.submitter@ + " at "@ + c.post_date@
                + ")</div><br>\n"@;
            let entry = issue_comment_entry(c);
            &&& entry.len() == head.len() + c.content@.len() + tail.len()
            &&& entry.take(head.len() as int) == head
            &&& entry.subrange(head.len() as int, (head.len() + c.content@.len()) as int) == c.content@
            &&& entry.skip((head.len() + c.content@.len()) as int) == tail
        }),
{
    let head = "<div class=\"issue-comment\" id=\"id-"@ + text::signed_decimal(c.comment_id as int)
        + "\">"@;
    let tail = "<br>"@ + "(Submitted by: "@ + c.submitter@ + " at "@ + c.post_date@
        + ")</div><br>\n"@;
    let entry = issue_comment_entry(c);
    assert(entry =~= head + c.content@ + tail);
    assert(entry.take(head.len() as int) =~= head);
    assert(entry.subrange(head.len() as int, (head.len() + c.content@.len()) as int) =~= c.content@);
    assert(entry.skip((head.len() + c.content@.len()) as int) =~= tail);
}

/// The page of an issue starts with its header, shows every comment in order,
/// and ends with the button that opens a new comment; the header shows the
/// whole title, the date and the name of the shown status.
pub proof fn law_issue_page_layout(issue: IssueRow, comments: Seq<CommentRow>, k: int)
    requires
        0 <= k < comments.len(),
    ensures
        issue_page_html(issue, comments) == issue_header(issue) + concat_map(
            comments.take(k),
            |c: CommentRow| issue_comment_entry(c),
        ) + issue_comment_entry(comments[k]) + concat_map(
            comments.skip(k + 1),
            |c: CommentRow| issue_comment_entry(c),
        )
            + "<button hx-get=\"/new/comment\" hx-swap=\"outerHTML\" class=\"create-button\">Post new comment</button>\n"@,
        ({
            let head = "<div><button hx-get=\"/issues\" hx-target=\"#latest-div\" hx-swap=\"innerHTML\" class=\"create-button\">Go home</button></div>\n<div>"@
                + "<h1 class=\"issue-title\"><span id=\"issue-id\">"@ + text::signed_decimal(
                issue.issue_id as int,
            ) + "</span> - "@;
            let tail = "</h1>"@ + "<p class=\"issue-datetime\">date time: "@ + issue.post_date@
                + "</p>"@ + "<p class=\"issue-status\">Status: "@ + status::status_name(
                shown_status(issue.status),
            ) + "</p>"@ + "</div><br>"@;
            let h = issue_header(issue);
            &&& h.len() == head.len() + issue.title@.len() + tail.len()
            &&& h.take(head.len() as int) == head
            &&& h.subrange(head.len() as int, (head.len() + issue.title@.len()) as int) == issue.title@
            &&& h.skip((head.len() + issue.title@.len()) as int) == tail
        }),
{
    let f = |c: CommentRow| issue_comment_entry(c);
    lemma_concat_map_split(comments, f, k);
    assert(f(comments[k]) == issue_comment_entry(comments[k]));
    let head = "<div><button hx-get=\"/issues\" hx-target=\"#latest-div\" hx-swap=\"innerHTML\" class=\"create-button\">Go home</button></div>\n<div>"@
        + "<h1 class=\"issue-title\"><span id=\"issue-id\">"@ + text::signed_decimal(
        issue.issue_id as int,
    ) + "</span> - "@;
    let tail = "</h1>"@ + "<p class=\"issue-datetime\">date time: "@ + issue.post_date@ + "</p>"@
        + "<p class=\"issue-status\">Status: "@ + status::status_name(shown_status(issue.status))
        + "</p>"@ + "</div><br>"@;
    let h = issue_header(issue);
    assert(h =~= head + issue.title@ + tail);
    assert(h.take(head.len() as int) =~= head);
    assert(h.subrange(head.len() as int, (head.len() + issue.title@.len()) as int) =~= issue.title@);
    assert(h.skip((head.len() + issue.title@.len()) as int) =~= tail);
}

/// The status shown for a stored status value; values that name no status
/// are shown as `Unresolved`.
pub fn stored_status(raw: i64) -> (r: IssueStatus)
    ensures
        r@ == shown_status(raw),
{
    match IssueStatus::new(raw as i32) {
        Some(s) => s,
        None => IssueStatus::unresolved(),
    }
}

/// The content type of an asset: JavaScript for names ending in `.js`, CSS
/// for all others.
pub fn asset_kind(filename: &str) -> (r: AssetKind)
    ensures
        r == (if text::has_suffix(filename@, ".js"@) {
            AssetKind::JavaScript
        } else {
            AssetKind::Css
        }),
{
    if text::ends_with(filename, ".js") {
        AssetKind::JavaScript
    } else {
        AssetKind::Css
    }
}

fn push_issue_list_entry(out: &mut String, row: &IssueRow)
    ensures
        final(out)@ == old(out)@ + issue_list_entry(*row),
{
    let status = stored_status(row.status);
    let id = text::format_i64(row.issue_id);
    out.append("<div class=\"issue-title ");
    out.append(status.as_class_str());
    out.append("\" hx-get=\"/issue/");
    out.append(id.as_str());
    out.append("\" hx-swap=\"innerHTML\" hx-target=\"#latest-div\">");
    out.append(id.as_str());
    out.append(" - ");
    out.append(row.title.as_str());
    out.append("</div>\n");
    assert(out@ =~= old(out)@ + issue_list_entry(*row));
}

/// The list of issues, one line each, in the given order.
pub fn render_issue_list(rows: &Vec<IssueRow>) -> (r: String)
    ensures
        r@ == issue_list_html(rows@),
{
    let mut out = String::new();
    let n = rows.len();
    let ghost f = |r: IssueRow| issue_list_entry(r);
    assert(rows@.take(0) =~= Seq::<IssueRow>::empty());
    for i in 0..n
        invariant
            n == rows@.len(),
            forall|r: IssueRow| #[trigger] f(r) == issue_list_entry(r),
            out@ == concat_map(rows@.take(i as int), f),
    {
        proof {
            lemma_concat_map_take(rows@, f, i as int);
        }
        push_issue_list_entry(&mut out, &rows[i]);
    }
    assert(rows@.take(n as int) =~= rows@);
    out
}

/// The index page: `template` with every `{}` replaced by the issue list.
pub fn render_index(template: &str, rows: &Vec<IssueRow>) -> (r: String)
    ensures
        r@ == text::replaced(template@, "{}"@, issue_list_html(rows@)),
{
    let list = render_issue_list(rows);
    proof {
        reveal_strlit("{}");
    }
    text::replace(template, "{}", list.as_str())
}

fn push_issue_comment(out: &mut String, c: &CommentRow)
    ensures
        final(out)@ == old(out)@ + issue_comment_entry(*c),
{
    let id = text::format_i64(c.comment_id);
    out.append("<div class=\"issue-comment\" id=\"id-");
    out.append(id.as_str());
    out.append("\">");
    out.append(c.content.as_str());
    out.append("<br>");
    out.append("(Submitted by: ");
    out.append(c.submitter.as_str());
    out.append(" at ");
    out.append(c.post_date.as_str());
    out.append(")</div><br>\n");
    assert(out@ =~= old(out)@ + issue_comment_entry(*c));
}

fn push_issue_header(out: &mut String, issue: &IssueRow)
    ensures
        final(out)@ == old(out)@ + issue_header(*issue),
{
    let id = text::format_i64(issue.issue_id);
    let status = stored_status(issue.status);
    out.append(
        "<div><button hx-get=\"/issues\" hx-target=\"#latest-div\" hx-swap=\"innerHTML\" class=\"create-button\">Go home</button></div>\n<div>",
    );
    out.append("<h1 class=\"issue-title\"><span id=\"issue-id\">");
    out.append(id.as_str());
    out.append("</span> - ");
    out.append(issue.title.as_str());
    out.append("</h1>");
    out.append("<p class=\"issue-datetime\">date time: ");
    out.append(issue.post_date.as_str());
    out.append("</p>");
    out.append("<p class=\"issue-status\">Status: ");
    out.append(status.as_str());
    out.append("</p>");
    out.append("</div><br>");
    assert(out@ =~= old(out)@ + issue_header(*issue));
}

/// The page of an issue with its comments, in the given order.
pub fn render_issue_page(issue: &IssueRow, comments: &Vec<CommentRow>) -> (r: String)
    ensures
        r@ == issue_page_html(*issue, comments@),
{
    let mut out = String::new();
    push_issue_header(&mut out, issue);
    let ghost head = out@;
    let n = comments.len();
    let ghost f = |c: CommentRow| issue_comment_entry(c);
    assert(comments@.take(0) =~= Seq::<CommentRow>::empty());
    for i in 0..n
        invariant
            n == comments@.len(),
            forall|c: CommentRow| #[trigger] f(c) == issue_comment_entry(c),
            out@ == head + concat_map(comments@.take(i as int), f),
    {
        proof {
            lemma_concat_map_take(comments@, f, i as int);
        }
        push_issue_comment(&mut out, &comments[i]);
    }
    assert(comments@.take(n as int) =~= comments@);
    out.append(
        "<button hx-get=\"/new/comment\" hx-swap=\"outerHTML\" class=\"create-button\">Post new comment</button>\n",
    );
    assert(out@ =~= issue_page_html(*issue, comments@));
    out
}

fn push_feed_entry(out: &mut String, c: &CommentRow)
    ensures
        final(out)@ == old(out)@ + feed_entry(*c),
{
    let id = text::format_i64(c.issue_id);
    out.append("<div class=\"issue-comment\" id=\"id-");
    out.append(id.as_str());
    out.append("\">");
    out.append(c.content.as_str());
    out.append("<br>");
    out.append("(Submitted by: ");
    out.append(c.submitter.as_str());
    out.append(" at ");
    out.append(c.post_date.as_str());
    out.append(")<br><br>");
    out.append("</div>\n");
    assert(out@ =~= old(out)@ + feed_entry(*c));
}

/// The comments just posted, followed by a fresh comment box.
pub fn render_comment_feed(comments: &Vec<CommentRow>, comment_box: &str) -> (r: String)
    ensures
        r@ == comment_feed_html(comments@, comment_box@),
{
    let mut out = String::new();
    let n = comments.len();
    let ghost f = |c: CommentRow| feed_entry(c);
    assert(comments@.take(0) =~= Seq::<CommentRow>::empty());
    for i in 0..n
        invariant
            n == comments@.len(),
            forall|c: CommentRow| #[trigger] f(c) == feed_entry(c),
            out@ == concat_map(comments@.take(i as int), f),
    {
        proof {
            lemma_concat_map_take(comments@, f, i as int);
        }
        push_feed_entry(&mut out, &comments[i]);
    }
    assert(comments@.take(n as int) =~= comments@);
    out.append(comment_box);
    out
}

} // verus!

//! The forms that change the tracker, and the checks they pass before any
//! change is made. Whether a session token is accepted is decided by the JWT
//! library with the server's key and the current time; these checks take that
//! verdict as `token_accepted`.

use vstd::prelude::*;
use crate::status::IssueStatus;

verus! {

/// The form that opens a new issue with its first comment.
#[derive(Debug)]
pub struct CreateIssueRequest {
    pub title: String,
    pub comment: String,
    pub jwt: String,
}

/// The form that adds a comment to an issue.
#[derive(Debug)]
pub struct CreateCommentRequest {
    pub issue_id: i32,
    pub comment: String,
    pub jwt: String,
}

/// The form that sets the status of an issue.
#[derive(Debug)]
pub struct StatusUpdate {
    pub stat: i32,
    pub issue_id: i32,
    pub jwt: String,
}

/// An issue to be stored.
#[derive(Debug)]
pub struct NewIssue {
    pub issue_id: i64,
    pub title: String,
    pub submitter: String,
    pub status: i32,
}

/// A comment to be stored.
#[derive(Debug)]
pub struct NewComment {
    pub comment_id: i64,
    pub issue_id: i64,
    pub content: String,
    pub submitter: String,
}

/// What becomes of a status update.
#[derive(Debug, PartialEq, Eq, Structural)]
pub enum StatusDecision {
    /// The requested status is unknown (answered with 400).
    BadRequest,
    /// The session token was refused (answered with 403).
    Forbidden,
    /// Store `status` as the status of issue `issue_id`.
    Store { status: i32, issue_id: i32 },
}

impl CreateIssueRequest {
    /// The request itself when its session token is accepted, `None` otherwise.
    pub fn validate(self, token_accepted: bool) -> (r: Option<CreateIssueRequest>)
        ensures
            r == (if token_accepted {
                Some(self)
            } else {
                None
            }),
    {
        if token_accepted {
            Some(CreateIssueRequest { title: self.title, comment: self.comment, jwt: self.jwt })
        } else {
            None
        }
    }
}

impl CreateIssueRequest {
    /// The records that open the issue: `submitter` is the user the session
    /// token names (`None` when the token was refused, and then nothing is
    /// stored). The issue takes the next issue number, `issue_count`, and
    /// starts out unresolved; its first comment takes the next comment number,
    /// `comment_count`, and is written by the same user.
    pub fn plan(self, submitter: Option<String>, issue_count: i64, comment_count: i64) -> (r:
        Option<(NewIssue, NewComment)>)
        ensures
            r is Some <==> submitter is Some,
            r matches Some((issue, comment)) ==> {
                &&& issue.issue_id == issue_count
                &&& issue.title == self.title
                &&& Some(issue.submitter) == submitter
                &&& issue.status == 0
                &&& comment.comment_id == comment_count
                &&& comment.issue_id == issue_count
                &&& comment.content == self.comment
                &&& comment.submitter == issue.submitter
            },
    {
        match submitter {
            None => None,
            Some(user) => {
                let status = IssueStatus::unresolved().get_raw();
                let comment = NewComment {
                    comment_id: comment_count,
                    issue_id: issue_count,
                    content: self.comment,
                    submitter: user.clone(),
                };
                let issue = NewIssue {
                    issue_id: issue_count,
                    title: self.title,
                    submitter: user,
                    status,
                };
                Some((issue, comment))
            },
        }
    }
}

impl CreateCommentRequest {
    /// The comment to store: `submitter` is the user the session token names
    /// (`None` when the token was refused, and then nothing is stored). The
    /// comment takes the next comment number, `comment_count`.
    pub fn plan(self, submitter: Option<String>, comment_count: i64) -> (r: Option<NewComment>)
        ensures
            r is Some <==> submitter is Some,
            r matches Some(c) ==> {
                &&& c.comment_id == comment_count
                &&& c.issue_id == self.issue_id
                &&& c.content == self.comment
                &&& Some(c.submitter) == submitter
            },
    {
        match submitter {
            None => None,
            Some(user) => Some(
                NewComment {
                    comment_id: comment_count,
                    issue_id: self.issue_id as i64,
                    content: self.comment,
                    submitter: user,
                },
            ),
        }
    }

    /// The request itself when its session token is accepted, `None` otherwise.
    pub fn validate(self, token_accepted: bool) -> (r: Option<CreateCommentRequest>)
        ensures
            r == (if token_accepted {
                Some(self)
            } else {
                None
            }),
    {
        if token_accepted {
            Some(
                CreateCommentRequest {
                    issue_id: self.issue_id,
                    comment: self.comment,
                    jwt: self.jwt,
                },
            )
        } else {
            None
        }
    }
}

impl StatusUpdate {
    /// Decides a status update: an unknown status is a bad request whatever
    /// the token; a known status with a refused token is forbidden; otherwise
    /// the status is stored for the issue.
    pub fn decide(&self, token_accepted: bool) -> (r: StatusDecision)
        ensures
            !crate::status::valid_raw(self.stat as int) ==> r == StatusDecision::BadRequest,
            crate::status::valid_raw(self.stat as int) && !token_accepted ==> r
                == StatusDecision::Forbidden,
            crate::status::valid_raw(self.stat as int) && token_accepted ==> r
                == (StatusDecision::Store { status: self.stat, issue_id: self.issue_id }),
    {
        match IssueStatus::new(self.stat) {
            None => StatusDecision::BadRequest,
            Some(s) => {
                if !token_accepted {
                    StatusDecision::Forbidden
                } else {
                    StatusDecision::Store { status: s.get_raw(), issue_id: self.issue_id }
                }
            },
        }
    }
}

} // verus!

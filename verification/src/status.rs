//! The status of an issue: one of four fixed states, stored as a small integer.

use vstd::prelude::*;

verus! {

broadcast use vstd::string::group_string_axioms;

/// The number of known statuses; raw values `0..STATUS_COUNT` are valid.
pub const STATUS_COUNT: i32 = 4;

/// Whether `raw` names a known status.
pub open spec fn valid_raw(raw: int) -> bool {
    0 <= raw < STATUS_COUNT
}

/// The human readable name of the status with raw value `raw`.
pub open spec fn status_name(raw: int) -> Seq<char> {
    if raw == 0 {
        "Unresolved"@
    } else if raw == 1 {
        "Work In Progress"@
    } else if raw == 2 {
        "Won't Resolve"@
    } else {
        "Resolved"@
    }
}

/// The CSS class used to render the status with raw value `raw`.
pub open spec fn status_class(raw: int) -> Seq<char> {
    if raw == 0 {
        "issue-unres"@
    } else if raw == 1 {
        "issue-wip"@
    } else if raw == 2 {
        "issue-wont"@
    } else {
        "issue-res"@
    }
}

/// An issue status; its raw value always lies in `0..STATUS_COUNT`.
#[derive(Debug, PartialEq, Eq, Structural)]
pub struct IssueStatus {
    stat: i32,
}

impl View for IssueStatus {
    type V = int;

    closed spec fn view(&self) -> int {
        self.stat as int
    }
}

/// A status is determined by its raw value, so `IssueStatus::new` given the
/// raw value of a status gives back that very status.
pub proof fn law_status_determined_by_raw(s: IssueStatus, t: IssueStatus)
    ensures
        s@ == t@ <==> s == t,
{
}

/// The known raw values are 0 to 3, with these names and classes: 0 is
/// Unresolved (`issue-unres`), 1 Work In Progress (`issue-wip`), 2 Won't
/// Resolve (`issue-wont`) and 3 Resolved (`issue-res`).
pub proof fn law_status_texts(raw: int)
    ensures
        valid_raw(raw) <==> 0 <= raw <= 3,
        raw == 0 ==> status_name(raw) == "Unresolved"@ && status_class(raw) == "issue-unres"@,
        raw == 1 ==> status_name(raw) == "Work In Progress"@ && status_class(raw)
            == "issue-wip"@,
        raw == 2 ==> status_name(raw) == "Won't Resolve"@ && status_class(raw) == "issue-wont"@,
        raw == 3 ==> status_name(raw) == "Resolved"@ && status_class(raw) == "issue-res"@,
{
}

/// Distinct statuses have distinct names and distinct CSS classes.
pub proof fn law_names_are_distinct(a: int, b: int)
    requires
        valid_raw(a),
        valid_raw(b),
        a != b,
    ensures
        status_name(a) != status_name(b),
        status_class(a) != status_class(b),
{
    reveal_strlit("Unresolved");
    reveal_strlit("Work In Progress");
    reveal_strlit("Won't Resolve");
    reveal_strlit("Resolved");
    reveal_strlit("issue-unres");
    reveal_strlit("issue-wip");
    reveal_strlit("issue-wont");
    reveal_strlit("issue-res");
    assert(status_name(a).len() != status_name(b).len());
    if status_class(a).len() == status_class(b).len() {
        assert(status_class(a)[6] != status_class(b)[6]);
    }
}

impl IssueStatus {
    #[verifier::type_invariant]
    spec fn inv(self) -> bool {
        valid_raw(self.stat as int)
    }

    /// The display name of the status.
    pub fn as_str(&self) -> (r: &str)
        ensures
            r@ == status_name(self@),
    {
        proof {
            use_type_invariant(self);
        }
        if self.stat == 0 {
            "Unresolved"
        } else if self.stat == 1 {
            "Work In Progress"
        } else if self.stat == 2 {
            "Won't Resolve"
        } else {
            "Resolved"
        }
    }

    /// The CSS class of the status.
    pub fn as_class_str(&self) -> (r: &str)
        ensures
            r@ == status_class(self@),
    {
        proof {
            use_type_invariant(self);
        }
        if self.stat == 0 {
            "issue-unres"
        } else if self.stat == 1 {
            "issue-wip"
        } else if self.stat == 2 {
            "issue-wont"
        } else {
            "issue-res"
        }
    }

    /// The raw value that is stored in the database.
    pub fn get_raw(&self) -> (r: i32)
        ensures
            r == self@,
            valid_raw(r as int),
    {
        proof {
            use_type_invariant(self);
        }
        self.stat
    }

    /// The status with raw value `stat`, if there is one.
    pub fn new(stat: i32) -> (r: Option<IssueStatus>)
        ensures
            r is Some <==> valid_raw(stat as int),
            r matches Some(s) ==> s@ == stat,
    {
        if 0 <= stat && stat < STATUS_COUNT {
            Some(IssueStatus { stat })
        } else {
            None
        }
    }

    /// The status of a freshly submitted issue.
    pub fn unresolved() -> (r: IssueStatus)
        ensures
            r@ == 0,
    {
        IssueStatus { stat: 0 }
    }

    /// The status of an issue that somebody works on.
    pub fn wip() -> (r: IssueStatus)
        ensures
            r@ == 1,
    {
        IssueStatus { stat: 1 }
    }

    /// The status of an issue that will not be fixed.
    pub fn wont_resolve() -> (r: IssueStatus)
        ensures
            r@ == 2,
    {
        IssueStatus { stat: 2 }
    }

    /// The status of a fixed issue.
    pub fn resolved() -> (r: IssueStatus)
        ensures
            r@ == 3,
    {
        IssueStatus { stat: 3 }
    }
}

} // verus!

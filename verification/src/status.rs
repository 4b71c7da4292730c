//! The statuses that a check reports.
use vstd::prelude::*;

use fontations::read::ReadError;

verus! {

/// Why a check could not run to the end.
#[derive(Debug)]
pub enum CheckError {
    /// The font, or a table that the check needs, could not be read.
    FontRead(ReadError),
}

/// How serious a reported status is.
#[derive(PartialEq, Eq, Structural, Clone, Copy, Debug)]
pub enum StatusCode {
    /// The check did not run.
    Skip,
    /// Nothing to report.
    Pass,
    /// Useful information, no problem.
    Info,
    /// A problem to review by hand.
    Warn,
    /// A problem that affects the font.
    Fail,
    /// Something went wrong in the check itself.
    Error,
}

/// One reported status: a severity, with an optional code and message.
#[derive(Debug)]
pub struct Status {
    /// The message that explains the status.
    pub message: Option<String>,
    /// The severity.
    pub severity: StatusCode,
    /// The code that identifies the status.
    pub code: Option<String>,
}

/// What a status holds, as plain values.
pub struct StatusView {
    pub message: Option<Seq<char>>,
    pub severity: StatusCode,
    pub code: Option<Seq<char>>,
}

pub open spec fn opt_string_view(s: Option<String>) -> Option<Seq<char>> {
    match s {
        Some(x) => Some(x@),
        None => None,
    }
}

impl View for Status {
    type V = StatusView;

    open spec fn view(&self) -> StatusView {
        StatusView {
            message: opt_string_view(self.message),
            severity: self.severity,
            code: opt_string_view(self.code),
        }
    }
}

/// The statuses held by a vector, as plain values.
pub open spec fn statuses_view(v: Seq<Status>) -> Seq<StatusView> {
    v.map_values(|s: Status| s@)
}

/// The single status of a passing check.
pub open spec fn pass_view() -> StatusView {
    StatusView { message: None, severity: StatusCode::Pass, code: None }
}

/// A status with a code and a message.
pub open spec fn status_view(severity: StatusCode, code: Seq<char>, message: Seq<char>) -> StatusView {
    StatusView { message: Some(message), severity, code: Some(code) }
}

/// What a check reports for a list of problems: the problems, or a single
/// pass where there are none.
pub open spec fn result_view(problems: Seq<StatusView>) -> Seq<StatusView> {
    if problems.len() == 0 {
        seq![pass_view()]
    } else {
        problems
    }
}

/// Whether no status of a list is a pass.
pub open spec fn no_pass(p: Seq<StatusView>) -> bool {
    forall|i: int| 0 <= i < p.len() ==> (#[trigger] p[i]).severity != StatusCode::Pass
}

/// Whether a report is well formed: it holds at least one status, and a
/// pass only as its single status.
pub open spec fn well_formed_report(r: Seq<StatusView>) -> bool {
    &&& r.len() >= 1
    &&& forall|i: int|
        0 <= i < r.len() && (#[trigger] r[i]).severity == StatusCode::Pass ==> r == seq![
            pass_view(),
        ]
}

/// Reporting a list of problems that holds no pass gives a well-formed
/// report: the problems themselves, or a single pass where there are none.
pub proof fn law_result_well_formed(p: Seq<StatusView>)
    requires
        no_pass(p),
    ensures
        well_formed_report(result_view(p)),
{
}

/// Concatenating lists without a pass gives a list without a pass.
pub proof fn lemma_no_pass_concat(a: Seq<StatusView>, b: Seq<StatusView>)
    requires
        no_pass(a),
        no_pass(b),
    ensures
        no_pass(a + b),
{
    assert forall|i: int| 0 <= i < (a + b).len() implies (#[trigger] (a + b)[i]).severity
        != StatusCode::Pass by {
        if i < a.len() {
            assert((a + b)[i] == a[i]);
        } else {
            assert((a + b)[i] == b[i - a.len()]);
        }
    }
}

impl Status {
    /// A passing status, with no code and no message.
    pub fn pass() -> (s: Status)
        ensures
            s@ == pass_view(),
    {
        Status { message: None, severity: StatusCode::Pass, code: None }
    }

    /// A status of the given severity, code and message.
    pub fn new(severity: StatusCode, code: &str, message: String) -> (s: Status)
        ensures
            s@ == status_view(severity, code@, message@),
    {
        Status { message: Some(message), severity, code: Some(String::from_str(code)) }
    }
}

/// The statuses of a check for a list of problems: the problems, or a
/// single pass where there are none.
pub fn return_result(problems: Vec<Status>) -> (r: Vec<Status>)
    ensures
        statuses_view(r@) == result_view(statuses_view(problems@)),
{
    if problems.len() == 0 {
        let mut r: Vec<Status> = Vec::new();
        r.push(Status::pass());
        proof {
            assert(statuses_view(r@) =~= seq![pass_view()]);
        }
        r
    } else {
        problems
    }
}

/// The single status of a passing check.
pub fn just_one_pass() -> (r: Vec<Status>)
    ensures
        statuses_view(r@) == seq![pass_view()],
{
    let mut r: Vec<Status> = Vec::new();
    r.push(Status::pass());
    proof {
        assert(statuses_view(r@) =~= seq![pass_view()]);
    }
    r
}

/// A single status of the given severity, code and message.
pub fn just_one(severity: StatusCode, code: &str, message: String) -> (r: Vec<Status>)
    ensures
        statuses_view(r@) == seq![status_view(severity, code@, message@)],
{
    let mut r: Vec<Status> = Vec::new();
    r.push(Status::new(severity, code, message));
    proof {
        assert(statuses_view(r@) =~= seq![status_view(severity, code@, message@)]);
    }
    r
}

} // verus!

//! Lifecycle transitions of an issue: what updating, releasing, closing and
//! reopening do from each status, the guarded statement an update writes,
//! and the revision guards of every lifecycle write. Reading and writing
//! the issue row happen outside this crate.
use vstd::prelude::*;
use crate::error::{Error, ErrorKind};
use crate::model::BaseStatus;
use crate::text::{byte_len, cat, cat3, chars_of, i64_text, int_text, join, join_seq, owned, push_str, str_eq, sv, trim, trim_seq, utf8_len};

verus! {

broadcast use vstd::string::group_string_axioms;

/// The refusal when a guarded write touched no row.
pub open spec fn revision_mismatch(expected: i64) -> Seq<char> {
    "Revision mismatch: expected "@ + int_text(expected as int)
        + ". The issue has been modified since you retrieved it."@
}

/// A lifecycle write guarded by the validated revision must touch its row;
/// touching none is the lost update the guard rejects.
pub fn ensure_revision_row_affected(changed: usize, expected_revision: i64) -> (r: Result<(), Error>)
    ensures
        changed > 0 ==> r is Ok,
        changed == 0 ==> (r matches Err(e) && e.is(ErrorKind::Conflict, revision_mismatch(expected_revision))),
{
    if changed == 0 {
        let n = i64_text(expected_revision);
        return Err(Error::Conflict(cat3("Revision mismatch: expected ", n.as_str(),
            ". The issue has been modified since you retrieved it.")));
    }
    Ok(())
}

/// The revision a guarded write expects: the stored one, or 1 for a row
/// that predates revisions.
pub fn expected_revision(revision: Option<i64>) -> (r: i64)
    ensures
        r == match revision {
            Some(n) => n,
            None => 1,
        },
{
    match revision {
        Some(n) => n,
        None => 1,
    }
}

/// What a lifecycle command does to the row.
#[derive(Debug, Clone, Copy, PartialEq, Eq, Structural)]
pub enum Transition {
    /// Write the new state and append the event.
    Apply,
    /// Already in the requested state: succeed without writing.
    Unchanged,
}

/// Releasing: an in-progress issue goes back to open and unassigned; an
/// open unassigned issue is already released; an open assigned one needs
/// `update --clear-assignee`; deferred and closed issues cannot be released.
pub open spec fn release_spec(status: BaseStatus, assigned: bool) -> Result<Transition, Seq<char>> {
    match status {
        BaseStatus::InProgress => Ok(Transition::Apply),
        BaseStatus::Open => if assigned {
            Err("Cannot release assigned open issue - use 'update --clear-assignee' instead"@)
        } else {
            Ok(Transition::Unchanged)
        },
        _ => Err("Cannot release issue in "@ + status.spelling() + " status - only in-progress issues can be released"@),
    }
}

/// Decide a release from the issue's status and whether it is assigned.
pub fn release_decision(status: BaseStatus, assigned: bool) -> (r: Result<Transition, Error>)
    ensures
        match release_spec(status, assigned) {
            Ok(t) => r == Ok::<Transition, Error>(t),
            Err(m) => r matches Err(e) && e.is(ErrorKind::Conflict, m),
        },
{
    match status {
        BaseStatus::InProgress => Ok(Transition::Apply),
        BaseStatus::Open => {
            if assigned {
                Err(Error::Conflict(owned("Cannot release assigned open issue - use 'update --clear-assignee' instead")))
            } else {
                Ok(Transition::Unchanged)
            }
        },
        _ => Err(Error::Conflict(cat3("Cannot release issue in ", status.as_str(),
            " status - only in-progress issues can be released"))),
    }
}

/// Closing: an issue not yet closed is closed with the trimmed reason; a
/// closed issue with the same trimmed reason is already closed; any other
/// reason conflicts.
pub open spec fn close_spec(status: BaseStatus, existing: Option<Seq<char>>, reason: Seq<char>) -> Result<Transition, Seq<char>> {
    match status {
        BaseStatus::Closed => match existing {
            Some(e) => if trim_seq(e) == trim_seq(reason) {
                Ok(Transition::Unchanged)
            } else {
                Err("Issue already closed with different reason"@)
            },
            None => Err("Issue already closed with different reason"@),
        },
        _ => Ok(Transition::Apply),
    }
}

/// Decide a close; on `Apply` the reason to store is returned, trimmed.
pub fn close_decision(status: BaseStatus, existing_reason: Option<&str>, reason: &str) -> (r: Result<(Transition, String), Error>)
    ensures
        match close_spec(status, crate::git_commit::opt_str(existing_reason), reason@) {
            Ok(t) => r matches Ok((u, s)) && u == t && s@ == trim_seq(reason@),
            Err(m) => r matches Err(e) && e.is(ErrorKind::Conflict, m),
        },
{
    let normalized = trim(reason);
    match status {
        BaseStatus::Closed => {
            if let Some(existing) = existing_reason {
                let e = trim(existing);
                if str_eq(e.as_str(), normalized.as_str()) {
                    return Ok((Transition::Unchanged, normalized));
                }
            }
            Err(Error::Conflict(owned("Issue already closed with different reason")))
        },
        _ => Ok((Transition::Apply, normalized)),
    }
}

/// Reopening: a closed issue goes back to open and unassigned; an open
/// issue is already open; in-progress and deferred issues cannot be
/// reopened.
pub open spec fn reopen_spec(status: BaseStatus) -> Result<Transition, Seq<char>> {
    match status {
        BaseStatus::Closed => Ok(Transition::Apply),
        BaseStatus::Open => Ok(Transition::Unchanged),
        _ => Err("Cannot reopen issue in "@ + status.spelling() + " status - only closed issues can be reopened"@),
    }
}

/// Decide a reopen from the issue's status.
pub fn reopen_decision(status: BaseStatus) -> (r: Result<Transition, Error>)
    ensures
        match reopen_spec(status) {
            Ok(t) => r == Ok::<Transition, Error>(t),
            Err(m) => r matches Err(e) && e.is(ErrorKind::Conflict, m),
        },
{
    match status {
        BaseStatus::Closed => Ok(Transition::Apply),
        BaseStatus::Open => Ok(Transition::Unchanged),
        _ => Err(Error::Conflict(cat3("Cannot reopen issue in ", status.as_str(), " status - only closed issues can be reopened"))),
    }
}

/// Only a closed issue reopens with a write; an open issue is already
/// where a reopen would put it; an in-progress or deferred issue is
/// refused, so a reopen never takes a claimed issue from its worker.
pub proof fn law_only_closed_issues_reopen(s: BaseStatus)
    ensures
        (reopen_spec(s) == Ok::<Transition, Seq<char>>(Transition::Apply)) <==> s == BaseStatus::Closed,
        (reopen_spec(s) == Ok::<Transition, Seq<char>>(Transition::Unchanged)) <==> s == BaseStatus::Open,
        reopen_spec(s) is Err <==> (s == BaseStatus::InProgress || s == BaseStatus::Deferred),
{
}

/// Each lifecycle command, repeated on the state it produces, changes
/// nothing: a released issue (open, unassigned) releases as unchanged; a
/// closed issue closed again with the reason it was closed with is
/// unchanged; a reopened issue (open) reopens as unchanged.
pub proof fn law_lifecycle_commands_are_idempotent(reason: Seq<char>)
    ensures
        release_spec(BaseStatus::Open, false) == Ok::<Transition, Seq<char>>(Transition::Unchanged),
        close_spec(BaseStatus::Closed, Some(trim_seq(reason)), reason) == Ok::<Transition, Seq<char>>(Transition::Unchanged),
        reopen_spec(BaseStatus::Open) == Ok::<Transition, Seq<char>>(Transition::Unchanged),
{
    crate::text::lemma_trim_idempotent(reason);
}

/// The `--if-revision` precondition of every lifecycle command: the
/// issue's revision (1 for a row that predates revisions) must be the one
/// the caller saw.
pub open spec fn revision_precondition(if_revision: Option<i64>, revision: Option<i64>) -> Option<Seq<char>> {
    match if_revision {
        None => None,
        Some(expected) => {
            let current = match revision {
                Some(n) => n,
                None => 1,
            };
            if current != expected {
                Some("Revision mismatch: expected "@ + int_text(expected as int) + ", found "@ + int_text(current as int)
                    + ". The issue has been modified since you retrieved it."@)
            } else {
                None
            }
        },
    }
}

/// Check the `--if-revision` precondition (see `revision_precondition`);
/// a stale revision conflicts.
pub fn check_revision_precondition(if_revision: Option<i64>, revision: Option<i64>) -> (r: Result<(), Error>)
    ensures
        match revision_precondition(if_revision, revision) {
            None => r is Ok,
            Some(m) => r matches Err(e) && e.is(ErrorKind::Conflict, m),
        },
{
    if let Some(expected) = if_revision {
        let current = expected_revision(revision);
        if current != expected {
            let a = cat3("Revision mismatch: expected ", i64_text(expected).as_str(), ", found ");
            return Err(Error::Conflict(cat3(a.as_str(), i64_text(current).as_str(),
                ". The issue has been modified since you retrieved it.")));
        }
    }
    Ok(())
}

/// Revision guards give optimistic concurrency: a command passes the
/// `--if-revision` guard exactly when the revision it names is the
/// issue's, and a stale revision fails as a conflict (exit 4) instead of
/// losing an update.
pub proof fn law_stale_revision_is_a_conflict(expected: i64, revision: Option<i64>)
    ensures
        revision_precondition(Some(expected), revision) is None <==> expected == match revision {
            Some(n) => n,
            None => 1,
        },
        revision_precondition(None, revision) is None,
        forall|e: Error| #[trigger] e.kind() == ErrorKind::Conflict ==> e.code() == 4,
{
}

/// The refusals of an update request before its issue is read: both an
/// assignee and `--clear-assignee`.
pub fn check_update_flags(assignee_given: bool, clear_assignee: bool) -> (r: Result<(), Error>)
    ensures
        !(assignee_given && clear_assignee) ==> r is Ok,
        assignee_given && clear_assignee ==> (r matches Err(e)
            && e.is(ErrorKind::Validation, "Cannot specify both --assignee and --clear-assignee"@)),
{
    if assignee_given && clear_assignee {
        return Err(Error::Validation(owned("Cannot specify both --assignee and --clear-assignee")));
    }
    Ok(())
}

/// The refusals of an update's values, checked after the issue's
/// revision and lease: an empty assignee, notes over 4 MiB.
pub open spec fn update_value_problem(assignee: Option<Seq<char>>, notes: Option<Seq<char>>) -> Option<Seq<char>> {
    if assignee matches Some(a) && a.len() == 0 {
        Some("assignee cannot be empty"@)
    } else if notes matches Some(n) && utf8_len(n) > 4194304 {
        Some("Notes cannot exceed 4 MiB"@)
    } else {
        None
    }
}

pub open spec fn opt_str(o: Option<&str>) -> Option<Seq<char>> {
    match o {
        Some(s) => Some(s@),
        None => None,
    }
}

/// Check an update's values (see `update_value_problem`).
pub fn check_update_values(assignee: Option<&str>, notes: Option<&str>) -> (r: Result<(), Error>)
    ensures
        match update_value_problem(opt_str(assignee), opt_str(notes)) {
            None => r is Ok,
            Some(m) => r matches Err(e) && e.is(ErrorKind::Validation, m),
        },
{
    if let Some(a) = assignee {
        if a.is_empty() {
            proof {
                reveal_strlit("");
            }
            return Err(Error::Validation(owned("assignee cannot be empty")));
        }
    }
    if let Some(n) = notes {
        if byte_len(n) > 4194304 {
            return Err(Error::Validation(owned("Notes cannot exceed 4 MiB")));
        }
    }
    proof {
        reveal_strlit("");
    }
    Ok(())
}

/// A requested status as the caller resolved it: the text, the status
/// type's strict parse of it, and whether the issue's status may move to
/// the parsed one.
#[derive(Debug)]
pub struct StatusChoice {
    pub text: String,
    pub parsed: Result<BaseStatus, Error>,
    pub can_transition: bool,
}

/// The character is the given letter in either ASCII case.
pub open spec fn letter_ci(c: char, lower: char, upper: char) -> bool {
    c == lower || c == upper
}

/// The text is `blocked` in any ASCII case, as `str::eq_ignore_ascii_case`
/// compares it.
pub open spec fn is_blocked_spelling(a: Seq<char>) -> bool {
    &&& a.len() == 7
    &&& letter_ci(a[0], 'b', 'B')
    &&& letter_ci(a[1], 'l', 'L')
    &&& letter_ci(a[2], 'o', 'O')
    &&& letter_ci(a[3], 'c', 'C')
    &&& letter_ci(a[4], 'k', 'K')
    &&& letter_ci(a[5], 'e', 'E')
    &&& letter_ci(a[6], 'd', 'D')
}

fn is_blocked_word(t: &str) -> (r: bool)
    ensures
        r == is_blocked_spelling(t@),
{
    let cs = chars_of(t);
    if cs.len() != 7 {
        return false;
    }
    (cs[0] == 'b' || cs[0] == 'B') && (cs[1] == 'l' || cs[1] == 'L') && (cs[2] == 'o' || cs[2] == 'O')
        && (cs[3] == 'c' || cs[3] == 'C') && (cs[4] == 'k' || cs[4] == 'K') && (cs[5] == 'e' || cs[5] == 'E')
        && (cs[6] == 'd' || cs[6] == 'D')
}

/// An update's status clauses and parameters: `blocked` sets the manual
/// block (refused on a closed issue); another status must parse, must not
/// be closed (use close) and must be a permitted transition that is not a
/// reopen, and sets the status and clears the manual block.
pub open spec fn status_part(st: BaseStatus, req: Option<StatusChoice>) -> Result<(Seq<Seq<char>>, Seq<Seq<char>>), (ErrorKind, Seq<char>)> {
    match req {
        None => Ok((Seq::empty(), Seq::empty())),
        Some(q) => if is_blocked_spelling(q.text@) {
            if st == BaseStatus::Closed {
                Err((ErrorKind::Conflict, "Cannot set manual blocked flag on closed issue"@))
            } else {
                Ok((seq!["manual_blocked = 1"@], Seq::empty()))
            }
        } else {
            match q.parsed {
                Err(e) => Err((e.kind(), e.text())),
                Ok(t) => if t == BaseStatus::Closed {
                    Err((ErrorKind::Conflict, "Use 'close' command to transition an issue to closed"@))
                } else if !q.can_transition {
                    Err((ErrorKind::Conflict, "Invalid status transition from "@ + st.spelling() + " to "@ + t.spelling()))
                } else if st == BaseStatus::Closed && t == BaseStatus::Open {
                    Err((ErrorKind::Conflict, "Use 'reopen' command to transition from closed to open"@))
                } else {
                    Ok((seq!["base_status = ?"@, "manual_blocked = 0"@], seq![q.text@]))
                },
            }
        },
    }
}

/// An update's assignee clauses and parameters, and whether it clears an
/// assignment: a new assignee is set; clearing applies to an open issue
/// (a no-op when unassigned) and is refused in every other status.
pub open spec fn assignee_part(st: BaseStatus, has_assignee: bool, assignee: Option<Seq<char>>, clear: bool)
    -> Result<(Seq<Seq<char>>, Seq<Seq<char>>, bool), (ErrorKind, Seq<char>)>
{
    match assignee {
        Some(a) => Ok((seq!["assignee = ?"@], seq![a], false)),
        None => if clear {
            match st {
                BaseStatus::Open => if has_assignee {
                    Ok((seq!["assignee = NULL"@], Seq::empty(), true))
                } else {
                    Ok((Seq::empty(), Seq::empty(), false))
                },
                BaseStatus::InProgress => Err((ErrorKind::Conflict, "Use 'release' command for in-progress issues"@)),
                BaseStatus::Deferred => Err((ErrorKind::Conflict, "Cannot clear assignee on deferred issue - update status to open first"@)),
                BaseStatus::Closed => Err((ErrorKind::Conflict, "Cannot modify closed issue - use 'reopen' first"@)),
            }
        } else {
            Ok((Seq::empty(), Seq::empty(), false))
        },
    }
}

/// What an update writes: the guarded statement and its parameters (the
/// issue id and expected revision follow them), or nothing when nothing
/// changes; the revision it expects; and which events it appends.
#[derive(Debug, Clone)]
pub struct UpdatePlan {
    pub statement: Option<(String, Vec<String>)>,
    pub expected_revision: i64,
    pub assignment_cleared_event: bool,
    pub updated_event: bool,
}

pub type PlanView = (Option<(Seq<char>, Seq<Seq<char>>)>, i64, bool, bool);

pub open spec fn plan_view(p: UpdatePlan) -> PlanView {
    (match p.statement {
        Some((q, ps)) => Some((q@, sv(ps@))),
        None => None,
    }, p.expected_revision, p.assignment_cleared_event, p.updated_event)
}

/// The whole update: the status, assignee and notes clauses in turn (the
/// first refusal wins); no clause means nothing to write; otherwise the
/// update also stamps `now`, advances the revision and is guarded by the
/// expected one. An assignment clear appends its own event; any other
/// requested change appends an update event.
pub open spec fn update_plan_spec(
    st: BaseStatus,
    has_assignee: bool,
    revision: Option<i64>,
    req: Option<StatusChoice>,
    assignee: Option<Seq<char>>,
    clear: bool,
    notes: Option<Seq<char>>,
    now: Seq<char>,
) -> Result<PlanView, (ErrorKind, Seq<char>)> {
    let expected = match revision {
        Some(n) => n,
        None => 1,
    };
    match status_part(st, req) {
        Err(e) => Err(e),
        Ok((p1, q1)) => match assignee_part(st, has_assignee, assignee, clear) {
            Err(e) => Err(e),
            Ok((p2, q2, cleared)) => {
                let (p3, q3) = match notes {
                    Some(n) => (seq!["notes = ?"@], seq![n]),
                    None => (Seq::<Seq<char>>::empty(), Seq::<Seq<char>>::empty()),
                };
                let parts = p1 + p2 + p3;
                if parts.len() == 0 {
                    Ok((None, expected, false, false))
                } else {
                    let all = parts + seq!["updated_at = ?"@, "revision = revision + 1"@];
                    Ok((Some(("UPDATE issues SET "@ + join_seq(all, ", "@) + " WHERE id = ? AND revision = ?"@, q1 + q2 + q3 + seq![now])),
                        expected, cleared,
                        !(clear && has_assignee) && (req is Some || assignee is Some || notes is Some)))
                }
            },
        },
    }
}

fn push_text(v: &mut Vec<String>, t: &str)
    ensures
        sv(final(v)@) == sv(old(v)@).push(t@),
{
    let ghost before = sv(v@);
    v.push(owned(t));
    assert(sv(v@) =~= before.push(t@));
}

fn status_clauses(st: BaseStatus, status: Option<StatusChoice>) -> (r: Result<(Vec<String>, Vec<String>), Error>)
    ensures
        match status_part(st, status) {
            Ok((p, q)) => r matches Ok((a, b)) && sv(a@) == p && sv(b@) == q,
            Err((k, m)) => r matches Err(e) && e.is(k, m),
        },
{
    let mut parts: Vec<String> = Vec::new();
    let mut params: Vec<String> = Vec::new();
    assert(sv(parts@) =~= Seq::<Seq<char>>::empty());
    assert(sv(params@) =~= Seq::<Seq<char>>::empty());
    match status {
        None => {},
        Some(q) => {
            if is_blocked_word(q.text.as_str()) {
                if st == BaseStatus::Closed {
                    return Err(Error::Conflict(owned("Cannot set manual blocked flag on closed issue")));
                }
                push_text(&mut parts, "manual_blocked = 1");
                assert(sv(parts@) =~= seq!["manual_blocked = 1"@]);
            } else {
                match q.parsed {
                    Err(e) => {
                        return Err(e);
                    },
                    Ok(t) => {
                        if t == BaseStatus::Closed {
                            return Err(Error::Conflict(owned("Use 'close' command to transition an issue to closed")));
                        }
                        if !q.can_transition {
                            let a = cat3("Invalid status transition from ", st.as_str(), " to ");
                            return Err(Error::Conflict(cat(a.as_str(), t.as_str())));
                        }
                        if st == BaseStatus::Closed && t == BaseStatus::Open {
                            return Err(Error::Conflict(owned("Use 'reopen' command to transition from closed to open")));
                        }
                        push_text(&mut parts, "base_status = ?");
                        push_text(&mut parts, "manual_blocked = 0");
                        push_text(&mut params, q.text.as_str());
                        assert(sv(parts@) =~= seq!["base_status = ?"@, "manual_blocked = 0"@]);
                        assert(sv(params@) =~= seq![q.text@]);
                    },
                }
            }
        },
    }
    Ok((parts, params))
}

fn assignee_clauses(st: BaseStatus, has_assignee: bool, assignee: Option<&str>, clear: bool) -> (r: Result<(Vec<String>, Vec<String>, bool), Error>)
    ensures
        match assignee_part(st, has_assignee, opt_str(assignee), clear) {
            Ok((p, q, c)) => r matches Ok((a, b, x)) && sv(a@) == p && sv(b@) == q && x == c,
            Err((k, m)) => r matches Err(e) && e.is(k, m),
        },
{
    let mut parts: Vec<String> = Vec::new();
    let mut params: Vec<String> = Vec::new();
    assert(sv(parts@) =~= Seq::<Seq<char>>::empty());
    assert(sv(params@) =~= Seq::<Seq<char>>::empty());
    let mut cleared = false;
    match assignee {
        Some(a) => {
            push_text(&mut parts, "assignee = ?");
            push_text(&mut params, a);
            assert(sv(parts@) =~= seq!["assignee = ?"@]);
            assert(sv(params@) =~= seq![a@]);
        },
        None => {
            if clear {
                match st {
                    BaseStatus::Open => {
                        if has_assignee {
                            push_text(&mut parts, "assignee = NULL");
                            assert(sv(parts@) =~= seq!["assignee = NULL"@]);
                            cleared = true;
                        }
                    },
                    BaseStatus::InProgress => {
                        return Err(Error::Conflict(owned("Use 'release' command for in-progress issues")));
                    },
                    BaseStatus::Deferred => {
                        return Err(Error::Conflict(owned("Cannot clear assignee on deferred issue - update status to open first")));
                    },
                    BaseStatus::Closed => {
                        return Err(Error::Conflict(owned("Cannot modify closed issue - use 'reopen' first")));
                    },
                }
            }
        },
    }
    Ok((parts, params, cleared))
}

fn append_texts(v: &mut Vec<String>, more: Vec<String>)
    ensures
        sv(final(v)@) == sv(old(v)@) + sv(more@),
{
    let mut more = more;
    let ghost before = sv(v@);
    let ghost added = sv(more@);
    v.append(&mut more);
    assert(sv(v@) =~= before + added);
}

/// Plan an update of an issue with status `st` (see `update_plan_spec`);
/// `now` is the time the row is stamped with.
#[verifier::spinoff_prover]
#[verifier::rlimit(40)]
pub fn update_plan(
    st: BaseStatus,
    has_assignee: bool,
    revision: Option<i64>,
    status: Option<StatusChoice>,
    assignee: Option<&str>,
    clear_assignee: bool,
    notes: Option<&str>,
    now: &str,
) -> (r: Result<UpdatePlan, Error>)
    ensures
        match update_plan_spec(st, has_assignee, revision, status, opt_str(assignee), clear_assignee, opt_str(notes), now@) {
            Ok(v) => r matches Ok(p) && plan_view(p) == v,
            Err((k, m)) => r matches Err(e) && e.is(k, m),
        },
{
    let status_given = status.is_some();
    let ghost req = status;
    let (mut parts, mut params) = match status_clauses(st, status) {
        Ok(v) => v,
        Err(e) => {
            return Err(e);
        },
    };
    let ghost p1 = sv(parts@);
    let ghost q1 = sv(params@);
    assert(status_part(st, req) == Ok::<(Seq<Seq<char>>, Seq<Seq<char>>), (ErrorKind, Seq<char>)>((p1, q1)));
    let (p2, q2, cleared) = match assignee_clauses(st, has_assignee, assignee, clear_assignee) {
        Ok(v) => v,
        Err(e) => {
            return Err(e);
        },
    };
    let ghost gp2 = sv(p2@);
    let ghost gq2 = sv(q2@);
    assert(assignee_part(st, has_assignee, opt_str(assignee), clear_assignee)
        == Ok::<(Seq<Seq<char>>, Seq<Seq<char>>, bool), (ErrorKind, Seq<char>)>((gp2, gq2, cleared)));
    append_texts(&mut parts, p2);
    append_texts(&mut params, q2);
    if let Some(n) = notes {
        push_text(&mut parts, "notes = ?");
        push_text(&mut params, n);
    }
    let ghost p3: Seq<Seq<char>> = match notes {
        Some(n) => seq!["notes = ?"@],
        None => Seq::<Seq<char>>::empty(),
    };
    let ghost q3: Seq<Seq<char>> = match notes {
        Some(n) => seq![n@],
        None => Seq::<Seq<char>>::empty(),
    };
    assert(sv(parts@) =~= p1 + gp2 + p3);
    assert(sv(params@) =~= q1 + gq2 + q3);
    let expected = expected_revision(revision);
    if parts.len() == 0 {
        return Ok(UpdatePlan { statement: None, expected_revision: expected, assignment_cleared_event: false, updated_event: false });
    }
    let ghost body = sv(parts@);
    push_text(&mut parts, "updated_at = ?");
    push_text(&mut parts, "revision = revision + 1");
    push_text(&mut params, now);
    assert(sv(parts@) =~= body + seq!["updated_at = ?"@, "revision = revision + 1"@]);
    let mut sql = cat("UPDATE issues SET ", join(&parts, ", ").as_str());
    push_str(&mut sql, " WHERE id = ? AND revision = ?");
    let updated = !(clear_assignee && has_assignee) && (status_given || assignee.is_some() || notes.is_some());
    Ok(UpdatePlan {
        statement: Some((sql, params)),
        expected_revision: expected,
        assignment_cleared_event: cleared,
        updated_event: updated,
    })
}

} // verus!

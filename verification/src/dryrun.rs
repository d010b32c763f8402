//! Dry runs of lifecycle commands: the projected state after an update,
//! close, reopen or release, whether it would be a semantic change, and the
//! advisory message, without writing anything. Reading the issue and the
//! event sequence happens outside this crate.
use vstd::prelude::*;
use crate::error::{Error, ErrorKind};
use crate::model::BaseStatus;
use crate::text::{byte_len, cat, cat3, join, join_seq, owned, push_str, str_eq, sv, trim, trim_seq, utf8_len};

verus! {

broadcast use vstd::string::group_string_axioms;

/// The stored fields of an issue a dry run reads.
#[derive(Debug, Clone)]
pub struct IssueSnapshot {
    pub id: String,
    pub title: String,
    pub base_status: BaseStatus,
    pub priority: i64,
    pub assignee: Option<String>,
    pub manual_blocked: Option<bool>,
    pub closed_at: Option<String>,
    pub close_reason: Option<String>,
    pub updated_at: String,
    pub revision: Option<i64>,
    pub notes: Option<String>,
}

/// An issue's state as a dry run reports it.
#[derive(Debug, Clone)]
pub struct IssueDryRunState {
    pub id: String,
    pub title: String,
    pub base_status: String,
    pub priority: i64,
    pub assignee: Option<String>,
    pub manual_blocked: Option<bool>,
    pub closed_at: Option<String>,
    pub updated_at: String,
}

/// The before and after of a dry-run mutation.
#[derive(Debug, Clone)]
pub struct DryRunResult {
    pub id: String,
    pub current_revision: i64,
    pub workspace_sequence: i64,
    pub before: IssueDryRunState,
    pub after: IssueDryRunState,
    pub semantic_change: bool,
    pub message: String,
}

/// The outcome of a dry-run dependency change.
#[derive(Debug, Clone)]
pub struct DependencyDryRunResult {
    pub blocked: String,
    pub blocker: String,
    pub kind: String,
    pub condition: Option<String>,
    pub workspace_sequence: i64,
    pub semantic_change: bool,
    pub message: String,
}

pub open spec fn opt_text(o: Option<String>) -> Option<Seq<char>> {
    match o {
        Some(s) => Some(s@),
        None => None,
    }
}

/// A reported state as plain values.
pub type StateView = (Seq<char>, Seq<char>, Seq<char>, i64, Option<Seq<char>>, Option<bool>, Option<Seq<char>>, Seq<char>);

pub open spec fn state_view(s: IssueDryRunState) -> StateView {
    (s.id@, s.title@, s.base_status@, s.priority, opt_text(s.assignee), s.manual_blocked, opt_text(s.closed_at), s.updated_at@)
}

/// The reported state of a snapshot, with a status, an assignee, a manual
/// block and a close time of its own.
pub open spec fn projected(i: IssueSnapshot, status: BaseStatus, assignee: Option<Seq<char>>, blocked: Option<bool>, closed_at: Option<Seq<char>>) -> StateView {
    (i.id@, i.title@, status.spelling(), i.priority, assignee, blocked, closed_at, i.updated_at@)
}

pub open spec fn unchanged(i: IssueSnapshot) -> StateView {
    projected(i, i.base_status, opt_text(i.assignee), i.manual_blocked, opt_text(i.closed_at))
}

fn copy_opt(o: &Option<String>) -> (r: Option<String>)
    ensures
        opt_text(r) == opt_text(*o),
{
    match o {
        Some(s) => Some(s.clone()),
        None => None,
    }
}

fn state_with(i: &IssueSnapshot, status: BaseStatus, assignee: Option<String>, blocked: Option<bool>, closed_at: Option<String>) -> (r: IssueDryRunState)
    ensures
        state_view(r) == projected(*i, status, opt_text(assignee), blocked, opt_text(closed_at)),
{
    IssueDryRunState {
        id: i.id.clone(),
        title: i.title.clone(),
        base_status: owned(status.as_str()),
        priority: i.priority,
        assignee,
        manual_blocked: blocked,
        closed_at,
        updated_at: i.updated_at.clone(),
    }
}

fn before_of(i: &IssueSnapshot) -> (r: IssueDryRunState)
    ensures
        state_view(r) == unchanged(*i),
{
    state_with(i, i.base_status, copy_opt(&i.assignee), i.manual_blocked, copy_opt(&i.closed_at))
}

/// The result's plain values: id, revision, sequence, before, after,
/// whether it changes anything, and the message.
pub open spec fn result_view(r: DryRunResult) -> (Seq<char>, i64, i64, StateView, StateView, bool, Seq<char>) {
    (r.id@, r.current_revision, r.workspace_sequence, state_view(r.before), state_view(r.after), r.semantic_change, r.message@)
}

pub open spec fn revision_of(i: IssueSnapshot) -> i64 {
    match i.revision {
        Some(n) => n,
        None => 1,
    }
}

/// A dry-run close: a blank reason is refused; an issue not yet closed
/// would close at `now` with its manual block cleared; a closed issue with
/// the same trimmed reason is unchanged; another reason conflicts.
pub open spec fn close_dryrun_spec(i: IssueSnapshot, reason: Seq<char>, now: Seq<char>, seq: i64)
    -> Result<(Seq<char>, i64, i64, StateView, StateView, bool, Seq<char>), (ErrorKind, Seq<char>)> {
    if trim_seq(reason).len() == 0 {
        Err((ErrorKind::Validation, "Close reason cannot be empty"@))
    } else if i.base_status != BaseStatus::Closed {
        Ok((i.id@, revision_of(i), seq, unchanged(i),
            projected(i, BaseStatus::Closed, opt_text(i.assignee), Some(false), Some(now)), true,
            "Would close issue with reason: '"@ + trim_seq(reason) + "'"@))
    } else {
        match i.close_reason {
            Some(e) => if trim_seq(e@) == trim_seq(reason) {
                Ok((i.id@, revision_of(i), seq, unchanged(i), unchanged(i), false, "Issue already closed with same reason (idempotent)"@))
            } else {
                Err((ErrorKind::Conflict, "Issue is already closed with reason: '"@ + e@ + "'. Use update to change the reason."@))
            },
            None => Err((ErrorKind::Conflict, "Issue is already closed with reason: '(unknown)'. Use update to change the reason."@)),
        }
    }
}

pub open spec fn answers(r: Result<DryRunResult, Error>, s: Result<(Seq<char>, i64, i64, StateView, StateView, bool, Seq<char>), (ErrorKind, Seq<char>)>) -> bool {
    match s {
        Ok(v) => r matches Ok(d) && result_view(d) == v,
        Err((k, m)) => r matches Err(e) && e.is(k, m),
    }
}

/// Project a close of the issue at instant `now` (RFC 3339), without
/// writing anything.
pub fn close_issue_dryrun(issue: &IssueSnapshot, reason: &str, now: &str, workspace_sequence: i64) -> (r: Result<DryRunResult, Error>)
    ensures
        answers(r, close_dryrun_spec(*issue, reason@, now@, workspace_sequence)),
{
    let t = trim(reason);
    proof {
        reveal_strlit("");
        assert(t@.len() == 0 ==> t@ =~= ""@);
    }
    if str_eq(t.as_str(), "") {
        return Err(Error::Validation(owned("Close reason cannot be empty")));
    }
    let revision = match issue.revision {
        Some(n) => n,
        None => 1,
    };
    let before = before_of(issue);
    match issue.base_status {
        BaseStatus::Closed => {
            match &issue.close_reason {
                Some(existing) => {
                    let e = trim(existing.as_str());
                    if str_eq(e.as_str(), t.as_str()) {
                        let after = before_of(issue);
                        return Ok(DryRunResult {
                            id: issue.id.clone(),
                            current_revision: revision,
                            workspace_sequence,
                            before,
                            after,
                            semantic_change: false,
                            message: owned("Issue already closed with same reason (idempotent)"),
                        });
                    }
                    Err(Error::Conflict(cat3("Issue is already closed with reason: '", existing.as_str(),
                        "'. Use update to change the reason.")))
                },
                None => Err(Error::Conflict(owned("Issue is already closed with reason: '(unknown)'. Use update to change the reason."))),
            }
        },
        _ => {
            let after = state_with(issue, BaseStatus::Closed, copy_opt(&issue.assignee), Some(false), Some(owned(now)));
            Ok(DryRunResult {
                id: issue.id.clone(),
                current_revision: revision,
                workspace_sequence,
                before,
                after,
                semantic_change: true,
                message: cat3("Would close issue with reason: '", t.as_str(), "'"),
            })
        },
    }
}

/// A dry-run reopen: a closed issue would reopen with no close time and
/// its manual block cleared; an open issue is unchanged; other statuses
/// conflict.
pub open spec fn reopen_dryrun_spec(i: IssueSnapshot, seq: i64)
    -> Result<(Seq<char>, i64, i64, StateView, StateView, bool, Seq<char>), (ErrorKind, Seq<char>)> {
    match i.base_status {
        BaseStatus::Closed => Ok((i.id@, revision_of(i), seq, unchanged(i),
            projected(i, BaseStatus::Open, opt_text(i.assignee), Some(false), None), true, "Would reopen issue to open status"@)),
        BaseStatus::Open => Ok((i.id@, revision_of(i), seq, unchanged(i), unchanged(i), false, "Issue already open (idempotent)"@)),
        _ => Err((ErrorKind::Conflict, "Cannot reopen issue from "@ + i.base_status.spelling()
            + " status (only closed issues can be reopened)"@)),
    }
}

/// Project a reopen of the issue, without writing anything.
pub fn reopen_issue_dryrun(issue: &IssueSnapshot, workspace_sequence: i64) -> (r: Result<DryRunResult, Error>)
    ensures
        answers(r, reopen_dryrun_spec(*issue, workspace_sequence)),
{
    let revision = match issue.revision {
        Some(n) => n,
        None => 1,
    };
    match issue.base_status {
        BaseStatus::Closed => Ok(DryRunResult {
            id: issue.id.clone(),
            current_revision: revision,
            workspace_sequence,
            before: before_of(issue),
            after: state_with(issue, BaseStatus::Open, copy_opt(&issue.assignee), Some(false), None),
            semantic_change: true,
            message: owned("Would reopen issue to open status"),
        }),
        BaseStatus::Open => Ok(DryRunResult {
            id: issue.id.clone(),
            current_revision: revision,
            workspace_sequence,
            before: before_of(issue),
            after: before_of(issue),
            semantic_change: false,
            message: owned("Issue already open (idempotent)"),
        }),
        _ => Err(Error::Conflict(cat3("Cannot reopen issue from ", issue.base_status.as_str(),
            " status (only closed issues can be reopened)"))),
    }
}

/// A dry-run release: an in-progress issue would go back to open and
/// unassigned; an open unassigned issue is unchanged; an open assigned one
/// and other statuses conflict.
pub open spec fn release_dryrun_spec(i: IssueSnapshot, seq: i64)
    -> Result<(Seq<char>, i64, i64, StateView, StateView, bool, Seq<char>), (ErrorKind, Seq<char>)> {
    match i.base_status {
        BaseStatus::InProgress => Ok((i.id@, revision_of(i), seq, unchanged(i),
            projected(i, BaseStatus::Open, None, i.manual_blocked, opt_text(i.closed_at)), true,
            "Would release issue from "@ + i.base_status.spelling() + " to open/unassigned"@)),
        BaseStatus::Open => if i.assignee is None {
            Ok((i.id@, revision_of(i), seq, unchanged(i), unchanged(i), false, "Issue already open and unassigned (idempotent)"@))
        } else {
            Err((ErrorKind::Conflict, "Cannot release open assigned issue (use 'update --clear-assignee' instead)"@))
        },
        _ => Err((ErrorKind::Conflict, "Cannot release issue from "@ + i.base_status.spelling()
            + " status (only in_progress issues can be released)"@)),
    }
}

/// Project a release of the issue, without writing anything.
pub fn release_issue_dryrun(issue: &IssueSnapshot, workspace_sequence: i64) -> (r: Result<DryRunResult, Error>)
    ensures
        answers(r, release_dryrun_spec(*issue, workspace_sequence)),
{
    let revision = match issue.revision {
        Some(n) => n,
        None => 1,
    };
    match issue.base_status {
        BaseStatus::InProgress => Ok(DryRunResult {
            id: issue.id.clone(),
            current_revision: revision,
            workspace_sequence,
            before: before_of(issue),
            after: state_with(issue, BaseStatus::Open, None, issue.manual_blocked, copy_opt(&issue.closed_at)),
            semantic_change: true,
            message: cat3("Would release issue from ", issue.base_status.as_str(), " to open/unassigned"),
        }),
        BaseStatus::Open => {
            if issue.assignee.is_none() {
                Ok(DryRunResult {
                    id: issue.id.clone(),
                    current_revision: revision,
                    workspace_sequence,
                    before: before_of(issue),
                    after: before_of(issue),
                    semantic_change: false,
                    message: owned("Issue already open and unassigned (idempotent)"),
                })
            } else {
                Err(Error::Conflict(owned("Cannot release open assigned issue (use 'update --clear-assignee' instead)")))
            }
        },
        _ => Err(Error::Conflict(cat3("Cannot release issue from ", issue.base_status.as_str(),
            " status (only in_progress issues can be released)"))),
    }
}

/// A dry run never reports a change it says is idempotent: when the
/// projected state equals the current one, the result is not a semantic
/// change, for close, reopen and release alike.
pub proof fn law_dry_run_change_iff_state_moves(i: IssueSnapshot, reason: Seq<char>, now: Seq<char>, seq: i64)
    ensures
        reopen_dryrun_spec(i, seq) matches Ok(v) ==> (v.5 <==> i.base_status == BaseStatus::Closed),
        release_dryrun_spec(i, seq) matches Ok(v) ==> (v.5 <==> i.base_status == BaseStatus::InProgress),
        close_dryrun_spec(i, reason, now, seq) matches Ok(v) ==> (v.5 <==> i.base_status != BaseStatus::Closed),
        reopen_dryrun_spec(i, seq) matches Ok(v) ==> (!v.5 ==> v.3 == v.4),
        release_dryrun_spec(i, seq) matches Ok(v) ==> (!v.5 ==> v.3 == v.4),
        close_dryrun_spec(i, reason, now, seq) matches Ok(v) ==> (!v.5 ==> v.3 == v.4),
{
}

/// A dependency dry run's plain values: blocked, blocker, kind, condition,
/// sequence, whether it changes anything, and the message.
pub open spec fn dep_view(d: DependencyDryRunResult) -> (Seq<char>, Seq<char>, Seq<char>, Option<Seq<char>>, i64, bool, Seq<char>) {
    (d.blocked@, d.blocker@, d.kind@, opt_text(d.condition), d.workspace_sequence, d.semantic_change, d.message@)
}

pub open spec fn opt_str(o: Option<&str>) -> Option<Seq<char>> {
    match o {
        Some(s) => Some(s@),
        None => None,
    }
}

/// The refusals a dependency dry run checks before the condition: an
/// unknown kind (for `dep add`), a missing blocked or blocker issue, and
/// (for `dep add`) a self-edge.
pub open spec fn dep_precheck(
    adding: bool,
    blocked: Seq<char>,
    blocker: Seq<char>,
    kind: Seq<char>,
    blocked_exists: bool,
    blocker_exists: bool,
) -> Option<(ErrorKind, Seq<char>)> {
    if adding && kind != "blocks"@ && kind != "relates_to"@ {
        Some((ErrorKind::Validation, "Invalid dependency kind '"@ + kind + "': must be 'blocks' or 'relates_to'"@))
    } else if !blocked_exists {
        Some((ErrorKind::NotFound, "blocked issue '"@ + blocked + "'"@))
    } else if !blocker_exists {
        Some((ErrorKind::NotFound, "blocker issue '"@ + blocker + "'"@))
    } else if adding && blocked == blocker {
        Some((ErrorKind::Validation, "Cannot create self-edge dependency"@))
    } else {
        None
    }
}

fn dep_refusal(kind: ErrorKind, text: String) -> (r: Error)
    requires
        kind == ErrorKind::Validation || kind == ErrorKind::NotFound,
    ensures
        r.is(kind, text@),
{
    match kind {
        ErrorKind::Validation => Error::Validation(text),
        _ => Error::NotFound(text),
    }
}

/// A dry-run `dep add`: after the prechecks, the condition's outcome
/// (`condition_check`, from parsing and validating it) passes through; a
/// `blocks` edge that would close a cycle conflicts; otherwise it reports
/// whether the same dependency already exists.
pub fn add_dependency_dryrun(
    blocked: &str,
    blocker: &str,
    kind: &str,
    condition: Option<&str>,
    blocked_exists: bool,
    blocker_exists: bool,
    condition_check: Result<(), Error>,
    would_create_cycle: bool,
    dependency_exists: bool,
    workspace_sequence: i64,
) -> (r: Result<DependencyDryRunResult, Error>)
    ensures
        dep_precheck(true, blocked@, blocker@, kind@, blocked_exists, blocker_exists) matches Some((k, m))
            ==> (r matches Err(e) && e.is(k, m)),
        dep_precheck(true, blocked@, blocker@, kind@, blocked_exists, blocker_exists) is None ==> match condition_check {
            Err(c) => r == Err::<DependencyDryRunResult, Error>(c),
            Ok(()) => if kind@ == "blocks"@ && would_create_cycle {
                r matches Err(e) && e.is(ErrorKind::Conflict, "Adding this dependency would create a cycle"@)
            } else {
                r matches Ok(d) && dep_view(d) == (blocked@, blocker@, kind@, opt_str(condition), workspace_sequence, !dependency_exists,
                    if dependency_exists {
                        "Dependency ("@ + blocked@ + ", "@ + blocker@ + ", "@ + kind@ + ") already exists (idempotent)"@
                    } else {
                        "Would add dependency: "@ + blocked@ + " -> "@ + blocker@ + " ("@ + kind@ + ")"@
                    })
            },
        },
{
    proof {
        reveal_strlit("blocks");
        reveal_strlit("relates_to");
    }
    if !str_eq(kind, "blocks") && !str_eq(kind, "relates_to") {
        let m = cat3("Invalid dependency kind '", kind, "': must be 'blocks' or 'relates_to'");
        return Err(dep_refusal(ErrorKind::Validation, m));
    }
    if !blocked_exists {
        return Err(dep_refusal(ErrorKind::NotFound, cat3("blocked issue '", blocked, "'")));
    }
    if !blocker_exists {
        return Err(dep_refusal(ErrorKind::NotFound, cat3("blocker issue '", blocker, "'")));
    }
    if str_eq(blocked, blocker) {
        return Err(dep_refusal(ErrorKind::Validation, owned("Cannot create self-edge dependency")));
    }
    match condition_check {
        Err(c) => {
            return Err(c);
        },
        Ok(()) => {},
    }
    if str_eq(kind, "blocks") && would_create_cycle {
        return Err(Error::Conflict(owned("Adding this dependency would create a cycle")));
    }
    let message = if dependency_exists {
        let mut m = cat3("Dependency (", blocked, ", ");
        push_str(&mut m, blocker);
        push_str(&mut m, ", ");
        push_str(&mut m, kind);
        push_str(&mut m, ") already exists (idempotent)");
        m
    } else {
        let mut m = cat3("Would add dependency: ", blocked, " -> ");
        push_str(&mut m, blocker);
        push_str(&mut m, " (");
        push_str(&mut m, kind);
        push_str(&mut m, ")");
        m
    };
    let cond = match condition {
        Some(c) => Some(owned(c)),
        None => None,
    };
    Ok(DependencyDryRunResult {
        blocked: owned(blocked),
        blocker: owned(blocker),
        kind: owned(kind),
        condition: cond,
        workspace_sequence,
        semantic_change: !dependency_exists,
        message,
    })
}

/// The message of a dry-run `dep remove` for the kinds it would remove.
pub open spec fn remove_message(blocked: Seq<char>, blocker: Seq<char>, kind: Option<Seq<char>>, kinds: Seq<Seq<char>>) -> Seq<char> {
    if kinds.len() == 0 {
        match kind {
            Some(k) => "Dependency ("@ + blocked + ", "@ + blocker + ", "@ + k + ") does not exist (idempotent)"@,
            None => "No dependencies exist between "@ + blocked + " and "@ + blocker + " (idempotent)"@,
        }
    } else {
        "Would remove dependencies: "@ + blocked + " -> "@ + blocker + " ("@ + join_seq(kinds, ", "@) + ")"@
    }
}

/// A dry-run `dep remove`: both issues must exist; `removed_kinds` are the
/// kinds of the matching dependencies (of `kind` only, when given). The
/// result's kind is the one asked for, or `any`.
pub fn remove_dependency_dryrun(
    blocked: &str,
    blocker: &str,
    kind: Option<&str>,
    blocked_exists: bool,
    blocker_exists: bool,
    removed_kinds: &Vec<String>,
    workspace_sequence: i64,
) -> (r: Result<DependencyDryRunResult, Error>)
    ensures
        dep_precheck(false, blocked@, blocker@, Seq::empty(), blocked_exists, blocker_exists) matches Some((k, m))
            ==> (r matches Err(e) && e.is(k, m)),
        dep_precheck(false, blocked@, blocker@, Seq::empty(), blocked_exists, blocker_exists) is None ==> (r matches Ok(d)
            && dep_view(d) == (blocked@, blocker@, match kind { Some(k) => k@, None => "any"@ }, None::<Seq<char>>,
                workspace_sequence, removed_kinds@.len() > 0, remove_message(blocked@, blocker@, opt_str(kind), sv(removed_kinds@)))),
{
    if !blocked_exists {
        return Err(dep_refusal(ErrorKind::NotFound, cat3("blocked issue '", blocked, "'")));
    }
    if !blocker_exists {
        return Err(dep_refusal(ErrorKind::NotFound, cat3("blocker issue '", blocker, "'")));
    }
    let message = if removed_kinds.len() == 0 {
        match kind {
            Some(k) => {
                let mut m = cat3("Dependency (", blocked, ", ");
                push_str(&mut m, blocker);
                push_str(&mut m, ", ");
                push_str(&mut m, k);
                push_str(&mut m, ") does not exist (idempotent)");
                m
            },
            None => {
                let mut m = cat3("No dependencies exist between ", blocked, " and ");
                push_str(&mut m, blocker);
                push_str(&mut m, " (idempotent)");
                m
            },
        }
    } else {
        let mut m = cat3("Would remove dependencies: ", blocked, " -> ");
        push_str(&mut m, blocker);
        push_str(&mut m, " (");
        push_str(&mut m, join(removed_kinds, ", ").as_str());
        push_str(&mut m, ")");
        m
    };
    let k = match kind {
        Some(k) => owned(k),
        None => owned("any"),
    };
    Ok(DependencyDryRunResult {
        blocked: owned(blocked),
        blocker: owned(blocker),
        kind: k,
        condition: None,
        workspace_sequence,
        semantic_change: removed_kinds.len() > 0,
        message,
    })
}

/// A requested status as the caller resolved it: the text, the status
/// type's strict parse of it, and the lifecycle's transition check from
/// the issue's status to the parsed one (consulted only when they differ).
#[derive(Debug)]
pub struct StatusRequest {
    pub text: String,
    pub parsed: Result<BaseStatus, Error>,
    pub transition: Result<(), Error>,
}

pub open spec fn err_view(e: Error) -> (ErrorKind, Seq<char>) {
    (e.kind(), e.text())
}

/// The projected status of an update and the change it reports.
pub open spec fn status_step(i: IssueSnapshot, req: Option<StatusRequest>) -> Result<(BaseStatus, Seq<Seq<char>>), (ErrorKind, Seq<char>)> {
    match req {
        None => Ok((i.base_status, Seq::empty())),
        Some(q) => match q.parsed {
            Err(e) => Err(err_view(e)),
            Ok(st) => if st == i.base_status {
                Ok((i.base_status, Seq::empty()))
            } else {
                match q.transition {
                    Err(e) => Err(err_view(e)),
                    Ok(_) => Ok((st, seq!["status: "@ + i.base_status.spelling() + " -> "@ + q.text@])),
                }
            },
        },
    }
}

/// An assignee as a change reports it: its name, or `none`.
pub open spec fn name_or_none(a: Option<Seq<char>>) -> Seq<char> {
    match a {
        Some(n) => n,
        None => "none"@,
    }
}

/// The projected assignee of an update and the change it reports.
pub open spec fn assignee_step(old: Option<Seq<char>>, assignee: Option<Seq<char>>, clear: bool)
    -> Result<(Option<Seq<char>>, Seq<Seq<char>>), (ErrorKind, Seq<char>)>
{
    if assignee is Some && clear {
        Err((ErrorKind::Validation, "Cannot specify both --assignee and --clear-assignee"@))
    } else {
        match assignee {
            Some(a) => if a.len() == 0 {
                Err((ErrorKind::Validation, "assignee cannot be empty"@))
            } else if old == Some(a) {
                Ok((old, Seq::empty()))
            } else {
                Ok((Some(a), seq!["assignee: "@ + name_or_none(old) + " -> "@ + a]))
            },
            None => if clear && old is Some {
                Ok((None, seq!["assignee: "@ + name_or_none(old) + " -> none"@]))
            } else {
                Ok((old, Seq::empty()))
            },
        }
    }
}

/// The change new notes report; notes over 4 MiB are refused.
pub open spec fn notes_step(old: Option<Seq<char>>, notes: Option<Seq<char>>) -> Result<Seq<Seq<char>>, (ErrorKind, Seq<char>)> {
    match notes {
        None => Ok(Seq::empty()),
        Some(n) => if utf8_len(n) > 4194304 {
            Err((ErrorKind::Validation, "Notes cannot exceed 4 MiB"@))
        } else if old == Some(n) {
            Ok(Seq::empty())
        } else {
            Ok(seq!["notes updated"@])
        },
    }
}

/// A dry-run update: the status, assignee and notes steps in turn (the
/// first refusal wins), then the projected state and the list of changes;
/// no change is the idempotent answer.
pub open spec fn update_dryrun_spec(
    i: IssueSnapshot,
    req: Option<StatusRequest>,
    assignee: Option<Seq<char>>,
    clear: bool,
    notes: Option<Seq<char>>,
    seq: i64,
) -> Result<(Seq<char>, i64, i64, StateView, StateView, bool, Seq<char>), (ErrorKind, Seq<char>)> {
    match status_step(i, req) {
        Err(e) => Err(e),
        Ok((st, c1)) => match assignee_step(opt_text(i.assignee), assignee, clear) {
            Err(e) => Err(e),
            Ok((a, c2)) => match notes_step(opt_text(i.notes), notes) {
                Err(e) => Err(e),
                Ok(c3) => {
                    let changes = c1 + c2 + c3;
                    Ok((i.id@, revision_of(i), seq, unchanged(i),
                        projected(i, st, a, i.manual_blocked, opt_text(i.closed_at)),
                        changes.len() > 0,
                        if changes.len() > 0 {
                            "Would update: "@ + join_seq(changes, ", "@)
                        } else {
                            "No changes would be made (idempotent)"@
                        }))
                },
            },
        },
    }
}

fn push_change(out: &mut Vec<String>, change: String)
    ensures
        sv(final(out)@) == sv(old(out)@).push(change@),
{
    let ghost before = sv(out@);
    out.push(change);
    assert(sv(out@) =~= before.push(change@));
}

/// Project an update of the issue, without writing anything; `status` is
/// the requested status as the caller resolved it.
pub fn update_issue_dryrun(
    issue: &IssueSnapshot,
    status: Option<StatusRequest>,
    assignee: Option<&str>,
    clear_assignee: bool,
    notes: Option<&str>,
    workspace_sequence: i64,
) -> (r: Result<DryRunResult, Error>)
    ensures
        answers(r, update_dryrun_spec(*issue, status, opt_str(assignee), clear_assignee, opt_str(notes), workspace_sequence)),
{
    proof {
        reveal_strlit("");
    }
    let ghost req = status;
    let mut changes: Vec<String> = Vec::new();
    assert(sv(changes@) =~= Seq::<Seq<char>>::empty());
    let mut after_status = issue.base_status;
    match status {
        None => {},
        Some(q) => match q.parsed {
            Err(e) => {
                return Err(e);
            },
            Ok(st) => {
                if st != issue.base_status {
                    if let Err(e) = q.transition {
                        return Err(e);
                    }
                    after_status = st;
                    let t = cat3("status: ", issue.base_status.as_str(), " -> ");
                    push_change(&mut changes, cat(t.as_str(), q.text.as_str()));
                    assert(sv(changes@) =~= seq!["status: "@ + issue.base_status.spelling() + " -> "@ + q.text@]);
                }
            },
        },
    }
    let ghost c1 = sv(changes@);
    assert(status_step(*issue, req) == Ok::<(BaseStatus, Seq<Seq<char>>), (ErrorKind, Seq<char>)>((after_status, c1)));
    if assignee.is_some() && clear_assignee {
        return Err(Error::Validation(owned("Cannot specify both --assignee and --clear-assignee")));
    }
    let ghost old_a = opt_text(issue.assignee);
    let ghost mut c2: Seq<Seq<char>> = Seq::empty();
    let mut after_assignee = copy_opt(&issue.assignee);
    if let Some(a) = assignee {
        if a.is_empty() {
            return Err(Error::Validation(owned("assignee cannot be empty")));
        }
        let same = match &issue.assignee {
            Some(o) => str_eq(o.as_str(), a),
            None => false,
        };
        if !same {
            after_assignee = Some(owned(a));
            let old = match &issue.assignee {
                Some(o) => o.as_str(),
                None => "none",
            };
            let t = cat3("assignee: ", old, " -> ");
            push_change(&mut changes, cat(t.as_str(), a));
            proof {
                c2 = seq!["assignee: "@ + name_or_none(old_a) + " -> "@ + a@];
            }
        }
    } else if clear_assignee && issue.assignee.is_some() {
        after_assignee = None;
        let old = match &issue.assignee {
            Some(o) => o.as_str(),
            None => "none",
        };
        push_change(&mut changes, cat3("assignee: ", old, " -> none"));
        proof {
            c2 = seq!["assignee: "@ + name_or_none(old_a) + " -> none"@];
        }
    }
    assert(sv(changes@) =~= c1 + c2);
    assert(assignee_step(old_a, opt_str(assignee), clear_assignee)
        == Ok::<(Option<Seq<char>>, Seq<Seq<char>>), (ErrorKind, Seq<char>)>((opt_text(after_assignee), c2)));
    let ghost mut c3: Seq<Seq<char>> = Seq::empty();
    if let Some(n) = notes {
        if byte_len(n) > 4194304 {
            return Err(Error::Validation(owned("Notes cannot exceed 4 MiB")));
        }
        let same = match &issue.notes {
            Some(o) => str_eq(o.as_str(), n),
            None => false,
        };
        if !same {
            push_change(&mut changes, owned("notes updated"));
            proof {
                c3 = seq!["notes updated"@];
            }
        }
    }
    assert(sv(changes@) =~= c1 + c2 + c3);
    assert(notes_step(opt_text(issue.notes), opt_str(notes)) == Ok::<Seq<Seq<char>>, (ErrorKind, Seq<char>)>(c3));
    let semantic = changes.len() > 0;
    let message = if semantic {
        cat("Would update: ", join(&changes, ", ").as_str())
    } else {
        owned("No changes would be made (idempotent)")
    };
    let revision = match issue.revision {
        Some(n) => n,
        None => 1,
    };
    Ok(DryRunResult {
        id: issue.id.clone(),
        current_revision: revision,
        workspace_sequence,
        before: before_of(issue),
        after: state_with(issue, after_status, after_assignee, issue.manual_blocked, copy_opt(&issue.closed_at)),
        semantic_change: semantic,
        message,
    })
}

/// An update dry run that reports no change leaves the reported state as
/// it is.
pub proof fn law_idempotent_update_keeps_state(
    i: IssueSnapshot,
    req: Option<StatusRequest>,
    assignee: Option<Seq<char>>,
    clear: bool,
    notes: Option<Seq<char>>,
    seq: i64,
)
    ensures
        update_dryrun_spec(i, req, assignee, clear, notes, seq) matches Ok(v) ==> (!v.5 ==> v.3 == v.4),
{
}

} // verus!

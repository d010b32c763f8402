use bead_rs::error::Error;
use bead_rs::lifecycle::{
    check_revision_precondition, check_update_flags, check_update_values, update_plan, StatusChoice, UpdatePlan,
};
use bead_rs::model::BaseStatus;

const NOW: &str = "2026-08-10T00:00:00Z";

fn choice(text: &str, parsed: BaseStatus, can_transition: bool) -> Option<StatusChoice> {
    Some(StatusChoice { text: text.to_string(), parsed: Ok(parsed), can_transition })
}

fn conflict(r: Result<UpdatePlan, Error>) -> String {
    match r {
        Err(Error::Conflict(m)) => m,
        other => panic!("expected a conflict, got {:?}", other),
    }
}

#[test]
fn a_stale_revision_conflicts() {
    assert!(check_revision_precondition(None, Some(3)).is_ok());
    assert!(check_revision_precondition(Some(3), Some(3)).is_ok());
    assert!(check_revision_precondition(Some(1), None).is_ok());
    match check_revision_precondition(Some(2), Some(3)) {
        Err(e @ Error::Conflict(_)) => {
            assert_eq!(
                e.message(),
                "Revision mismatch: expected 2, found 3. The issue has been modified since you retrieved it."
            );
            assert_eq!(e.exit_code(), 4);
        },
        other => panic!("unexpected: {:?}", other),
    }
}

#[test]
fn update_requests_refuse_contradictory_or_empty_values() {
    assert!(check_update_flags(true, false).is_ok());
    assert!(matches!(check_update_flags(true, true), Err(Error::Validation(_))));
    assert!(check_update_values(Some("alice"), Some("notes")).is_ok());
    match check_update_values(Some(""), None) {
        Err(Error::Validation(m)) => assert_eq!(m, "assignee cannot be empty"),
        other => panic!("unexpected: {:?}", other),
    }
    let long = "n".repeat(4 * 1024 * 1024 + 1);
    match check_update_values(None, Some(&long)) {
        Err(Error::Validation(m)) => assert_eq!(m, "Notes cannot exceed 4 MiB"),
        other => panic!("unexpected: {:?}", other),
    }
}

#[test]
fn a_status_change_writes_status_and_clears_the_block() {
    let plan = update_plan(BaseStatus::Open, false, Some(5), choice("in_progress", BaseStatus::InProgress, true), Some("bob"), false, Some("n"), NOW).unwrap();
    let (sql, params) = plan.statement.unwrap();
    assert_eq!(
        sql,
        "UPDATE issues SET base_status = ?, manual_blocked = 0, assignee = ?, notes = ?, updated_at = ?, revision = revision + 1 WHERE id = ? AND revision = ?"
    );
    assert_eq!(params, vec!["in_progress", "bob", "n", NOW]);
    assert_eq!(plan.expected_revision, 5);
    assert!(plan.updated_event);
    assert!(!plan.assignment_cleared_event);
}

#[test]
fn blocked_is_an_overlay_in_any_case() {
    let plan = update_plan(BaseStatus::InProgress, true, None, choice("BLOCKED", BaseStatus::Open, false), None, false, None, NOW).unwrap();
    let (sql, params) = plan.statement.unwrap();
    assert_eq!(sql, "UPDATE issues SET manual_blocked = 1, updated_at = ?, revision = revision + 1 WHERE id = ? AND revision = ?");
    assert_eq!(params, vec![NOW]);
    assert_eq!(plan.expected_revision, 1);
    assert_eq!(
        conflict(update_plan(BaseStatus::Closed, false, None, choice("Blocked", BaseStatus::Open, true), None, false, None, NOW)),
        "Cannot set manual blocked flag on closed issue"
    );
}

#[test]
fn status_moves_the_update_cannot_make_are_refused() {
    assert_eq!(
        conflict(update_plan(BaseStatus::Open, false, None, choice("closed", BaseStatus::Closed, true), None, false, None, NOW)),
        "Use 'close' command to transition an issue to closed"
    );
    assert_eq!(
        conflict(update_plan(BaseStatus::Open, false, None, choice("deferred", BaseStatus::Deferred, false), None, false, None, NOW)),
        "Invalid status transition from open to deferred"
    );
    assert_eq!(
        conflict(update_plan(BaseStatus::Closed, false, None, choice("open", BaseStatus::Open, true), None, false, None, NOW)),
        "Use 'reopen' command to transition from closed to open"
    );
    let unparsed = Some(StatusChoice {
        text: "bogus".to_string(),
        parsed: Err(Error::Validation("Invalid status: bogus".to_string())),
        can_transition: false,
    });
    assert!(matches!(update_plan(BaseStatus::Open, false, None, unparsed, None, false, None, NOW), Err(Error::Validation(_))));
}

#[test]
fn clearing_an_assignee_depends_on_the_status() {
    let plan = update_plan(BaseStatus::Open, true, Some(2), None, None, true, None, NOW).unwrap();
    let (sql, _) = plan.statement.unwrap();
    assert_eq!(sql, "UPDATE issues SET assignee = NULL, updated_at = ?, revision = revision + 1 WHERE id = ? AND revision = ?");
    assert!(plan.assignment_cleared_event);
    assert!(!plan.updated_event);
    let idle = update_plan(BaseStatus::Open, false, Some(2), None, None, true, None, NOW).unwrap();
    assert!(idle.statement.is_none());
    assert!(!idle.updated_event && !idle.assignment_cleared_event);
    assert_eq!(
        conflict(update_plan(BaseStatus::InProgress, true, None, None, None, true, None, NOW)),
        "Use 'release' command for in-progress issues"
    );
    assert_eq!(
        conflict(update_plan(BaseStatus::Deferred, true, None, None, None, true, None, NOW)),
        "Cannot clear assignee on deferred issue - update status to open first"
    );
    assert_eq!(
        conflict(update_plan(BaseStatus::Closed, true, None, None, None, true, None, NOW)),
        "Cannot modify closed issue - use 'reopen' first"
    );
}

#[test]
fn an_empty_update_writes_nothing() {
    let plan = update_plan(BaseStatus::Deferred, false, Some(9), None, None, false, None, NOW).unwrap();
    assert!(plan.statement.is_none());
    assert_eq!(plan.expected_revision, 9);
    assert!(!plan.updated_event);
}

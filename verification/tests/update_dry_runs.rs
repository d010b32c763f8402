use bead_rs::dryrun::{update_issue_dryrun, IssueSnapshot, StatusRequest};
use bead_rs::error::Error;
use bead_rs::model::BaseStatus;

fn issue(status: BaseStatus, assignee: Option<&str>, notes: Option<&str>) -> IssueSnapshot {
    IssueSnapshot {
        id: "bd-7".to_string(),
        title: "Write docs".to_string(),
        base_status: status,
        priority: 3,
        assignee: assignee.map(|s| s.to_string()),
        manual_blocked: None,
        closed_at: None,
        close_reason: None,
        updated_at: "2026-08-09T12:00:00Z".to_string(),
        revision: Some(4),
        notes: notes.map(|s| s.to_string()),
    }
}

fn to(text: &str, parsed: BaseStatus) -> Option<StatusRequest> {
    Some(StatusRequest { text: text.to_string(), parsed: Ok(parsed), transition: Ok(()) })
}

#[test]
fn an_update_lists_every_change_it_would_make() {
    let i = issue(BaseStatus::Open, None, Some("old"));
    let r = update_issue_dryrun(&i, to("in_progress", BaseStatus::InProgress), Some("alice"), false, Some("new"), 12).unwrap();
    assert!(r.semantic_change);
    assert_eq!(r.message, "Would update: status: open -> in_progress, assignee: none -> alice, notes updated");
    assert_eq!(r.before.base_status, "open");
    assert_eq!(r.after.base_status, "in_progress");
    assert_eq!(r.after.assignee.as_deref(), Some("alice"));
    assert_eq!(r.current_revision, 4);
    assert_eq!(r.workspace_sequence, 12);
}

#[test]
fn an_update_that_changes_nothing_is_idempotent() {
    let i = issue(BaseStatus::Open, Some("alice"), Some("same"));
    let r = update_issue_dryrun(&i, to("open", BaseStatus::Open), Some("alice"), false, Some("same"), 1).unwrap();
    assert!(!r.semantic_change);
    assert_eq!(r.message, "No changes would be made (idempotent)");
    assert_eq!(r.after.assignee, r.before.assignee);
    assert_eq!(r.after.base_status, r.before.base_status);
}

#[test]
fn clearing_an_assignee_reports_none() {
    let i = issue(BaseStatus::Open, Some("bob"), None);
    let r = update_issue_dryrun(&i, None, None, true, None, 1).unwrap();
    assert_eq!(r.message, "Would update: assignee: bob -> none");
    assert_eq!(r.after.assignee, None);
    let unassigned = issue(BaseStatus::Open, None, None);
    assert!(!update_issue_dryrun(&unassigned, None, None, true, None, 1).unwrap().semantic_change);
}

#[test]
fn conflicting_or_empty_requests_are_refused_in_order() {
    let i = issue(BaseStatus::Open, None, None);
    match update_issue_dryrun(&i, None, Some("alice"), true, None, 1) {
        Err(Error::Validation(m)) => assert_eq!(m, "Cannot specify both --assignee and --clear-assignee"),
        other => panic!("unexpected: {:?}", other),
    }
    match update_issue_dryrun(&i, None, Some(""), false, None, 1) {
        Err(Error::Validation(m)) => assert_eq!(m, "assignee cannot be empty"),
        other => panic!("unexpected: {:?}", other),
    }
    let long = "x".repeat(4 * 1024 * 1024 + 1);
    match update_issue_dryrun(&i, None, None, false, Some(&long), 1) {
        Err(Error::Validation(m)) => assert_eq!(m, "Notes cannot exceed 4 MiB"),
        other => panic!("unexpected: {:?}", other),
    }
}

#[test]
fn the_resolved_status_decides_first() {
    let i = issue(BaseStatus::Closed, None, None);
    let unknown = Some(StatusRequest {
        text: "bogus".to_string(),
        parsed: Err(Error::Validation("Invalid status: bogus".to_string())),
        transition: Ok(()),
    });
    match update_issue_dryrun(&i, unknown, Some("alice"), true, None, 1) {
        Err(Error::Validation(m)) => assert_eq!(m, "Invalid status: bogus"),
        other => panic!("unexpected: {:?}", other),
    }
    let refused = Some(StatusRequest {
        text: "in_progress".to_string(),
        parsed: Ok(BaseStatus::InProgress),
        transition: Err(Error::Conflict("transition refused".to_string())),
    });
    assert!(matches!(update_issue_dryrun(&i, refused, None, false, None, 1), Err(Error::Conflict(_))));
    let same = Some(StatusRequest {
        text: "closed".to_string(),
        parsed: Ok(BaseStatus::Closed),
        transition: Err(Error::Conflict("not consulted".to_string())),
    });
    assert!(!update_issue_dryrun(&i, same, None, false, None, 1).unwrap().semantic_change);
}

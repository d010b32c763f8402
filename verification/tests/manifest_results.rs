use bead_rs::issues::CreateOutcome;
use bead_rs::manifest::{change_outcome_word, create_outcome_word, diff_snapshots, state_change, StateSnapshot};

fn snapshot(status: &str, assignee: Option<&str>, revision: i64, labels: &[&str], notes: Option<&str>) -> StateSnapshot {
    StateSnapshot {
        base_status: status.to_string(),
        assignee: assignee.map(|s| s.to_string()),
        manual_blocked: None,
        close_reason: None,
        revision,
        labels: labels.iter().map(|s| s.to_string()).collect(),
        notes: notes.map(|s| s.to_string()),
    }
}

#[test]
fn identical_snapshots_have_no_delta() {
    let s = snapshot("open", None, 3, &["a"], Some("n"));
    assert!(diff_snapshots(&s, &s.clone()).is_empty());
}

#[test]
fn a_close_reports_status_reason_and_revision() {
    let before = snapshot("in_progress", Some("alice"), 3, &["a"], None);
    let mut after = snapshot("closed", Some("alice"), 4, &["a"], None);
    after.close_reason = Some("done".to_string());
    assert_eq!(diff_snapshots(&before, &after), vec!["base_status", "close_reason", "revision"]);
}

#[test]
fn every_field_is_reported_in_order_and_notes_only_as_changed() {
    let before = snapshot("open", None, 1, &["a"], Some("old"));
    let mut after = snapshot("in_progress", Some("bob"), 2, &["a", "b"], Some("new"));
    after.manual_blocked = Some(false);
    after.close_reason = Some("x".to_string());
    assert_eq!(
        diff_snapshots(&before, &after),
        vec!["base_status", "assignee", "manual_blocked", "close_reason", "revision", "labels", "notes_changed"]
    );
}

#[test]
fn a_revision_bump_is_the_semantic_change() {
    assert_eq!(state_change("update", Some(3), 4), (true, "updated".to_string()));
    assert_eq!(state_change("close", Some(3), 4), (true, "closed".to_string()));
    assert_eq!(state_change("update", Some(3), 3), (false, "no-op".to_string()));
    assert_eq!(state_change("close", Some(5), 5), (false, "no-op".to_string()));
    assert_eq!(state_change("update", None, 1), (true, "updated".to_string()));
    assert_eq!(state_change("label_add", Some(1), 2), (true, "label_add".to_string()));
}

#[test]
fn operation_outcomes_name_what_happened() {
    assert_eq!(create_outcome_word(CreateOutcome::Created), ("created", true));
    assert_eq!(create_outcome_word(CreateOutcome::Existing { closed: false }), ("existing", false));
    assert_eq!(create_outcome_word(CreateOutcome::Existing { closed: true }), ("existing_closed", false));
    assert_eq!(change_outcome_word(true, true), "added");
    assert_eq!(change_outcome_word(false, true), "removed");
    assert_eq!(change_outcome_word(true, false), "no-op");
    assert_eq!(change_outcome_word(false, false), "no-op");
}

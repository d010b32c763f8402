use bead_rs::redaction::{
    hash_target_values, locate_check, maintenance_lock_step, rescan_check, sanitized_record, FindingLocation, LockAttempt,
    LockStep, RecordValue, RedactionError,
};

fn location(table: &str, start: usize, end: usize, identity: Vec<RecordValue>) -> FindingLocation {
    FindingLocation {
        table: table.to_string(),
        field: "description".to_string(),
        identity_values: identity,
        start,
        end,
    }
}

fn conflict_text(r: Result<(), RedactionError>) -> String {
    match r {
        Err(RedactionError::Conflict(m)) => m,
        other => panic!("expected a conflict, got {:?}", other),
    }
}

#[test]
fn the_located_finding_must_match_the_preview() {
    let id = vec![RecordValue::Text("bd-1".to_string())];
    let preview = location("issues", 4, 12, id.clone());
    assert!(locate_check(Some(&preview), Some(&location("issues", 4, 12, id.clone()))).is_ok());
    assert_eq!(
        conflict_text(locate_check(Some(&preview), Some(&location("issues", 4, 13, id.clone())))),
        "finding selector changed before the redaction transaction"
    );
    assert_eq!(
        conflict_text(locate_check(Some(&preview), Some(&location("comments", 4, 12, id.clone())))),
        "finding selector changed before the redaction transaction"
    );
    assert_eq!(
        conflict_text(locate_check(
            Some(&preview),
            Some(&location("issues", 4, 12, vec![RecordValue::Text("bd-2".to_string())]))
        )),
        "finding selector changed before the redaction transaction"
    );
    assert_eq!(
        conflict_text(locate_check(Some(&preview), None)),
        "finding changed before the redaction transaction"
    );
}

#[test]
fn without_a_preview_only_a_missing_finding_is_refused() {
    let here = location("issues", 0, 3, vec![RecordValue::Integer(7)]);
    assert!(locate_check(None, Some(&here)).is_ok());
    match locate_check(None, None) {
        Err(RedactionError::NotFound(m)) => assert_eq!(m, "no current live finding matches that fingerprint"),
        other => panic!("unexpected: {:?}", other),
    }
}

#[test]
fn identity_values_compare_as_the_store_compares_them() {
    let zero = location("t", 0, 1, vec![RecordValue::Real(0.0f64.to_bits())]);
    let negative_zero = location("t", 0, 1, vec![RecordValue::Real((-0.0f64).to_bits())]);
    assert!(locate_check(Some(&zero), Some(&negative_zero)).is_ok());
    let nan = location("t", 0, 1, vec![RecordValue::Real(f64::NAN.to_bits())]);
    assert!(locate_check(Some(&nan), Some(&nan.clone())).is_err());
    let blob = location("t", 0, 1, vec![RecordValue::Blob(vec![1, 2]), RecordValue::Null]);
    assert!(locate_check(Some(&blob), Some(&blob.clone())).is_ok());
    let other_blob = location("t", 0, 1, vec![RecordValue::Blob(vec![1, 3]), RecordValue::Null]);
    assert!(locate_check(Some(&blob), Some(&other_blob)).is_err());
    let integer = location("t", 0, 1, vec![RecordValue::Integer(1)]);
    let text = location("t", 0, 1, vec![RecordValue::Text("1".to_string())]);
    assert!(locate_check(Some(&integer), Some(&text)).is_err());
}

#[test]
fn the_rescan_must_find_the_same_range_and_rule() {
    assert!(rescan_check(Some((4, 12, "aws-key")), 4, 12, "aws-key").is_ok());
    assert_eq!(
        conflict_text(rescan_check(Some((4, 11, "aws-key")), 4, 12, "aws-key")),
        "finding selector changed before the redaction transaction"
    );
    assert_eq!(
        conflict_text(rescan_check(Some((4, 12, "gh-token")), 4, 12, "aws-key")),
        "finding selector changed before the redaction transaction"
    );
    assert_eq!(
        conflict_text(rescan_check(None, 4, 12, "aws-key")),
        "finding changed before the redaction transaction"
    );
}

fn text(s: &str) -> RecordValue {
    RecordValue::Text(s.to_string())
}

fn issue_columns() -> Vec<String> {
    ["id", "description", "revision"].iter().map(|s| s.to_string()).collect()
}

fn integrity_text(r: Result<Vec<RecordValue>, RedactionError>) -> String {
    match r {
        Err(RedactionError::Integrity(m)) => m,
        other => panic!("expected an integrity failure, got {:?}", other),
    }
}

#[test]
fn the_sanitized_issue_record_replaces_the_field_and_advances_the_revision() {
    let columns = issue_columns();
    let values = vec![text("bd-1"), text("key=abc123"), RecordValue::Integer(3)];
    let out = sanitized_record(&columns, &values, "description", "key=[REDACTED]", true).unwrap();
    assert!(matches!(&out[0], RecordValue::Text(t) if t == "bd-1"));
    assert!(matches!(&out[1], RecordValue::Text(t) if t == "key=[REDACTED]"));
    assert!(matches!(&out[2], RecordValue::Integer(4)));
    assert_ne!(hash_target_values("issues", &columns, &values), hash_target_values("issues", &columns, &out));
    let comment = sanitized_record(&columns, &values, "description", "x", false).unwrap();
    assert!(matches!(&comment[2], RecordValue::Integer(3)));
}

#[test]
fn a_sanitized_record_needs_its_field_and_an_integer_revision() {
    let columns = issue_columns();
    let values = vec![text("bd-1"), text("v"), RecordValue::Integer(3)];
    assert_eq!(
        integrity_text(sanitized_record(&columns, &values, "notes", "x", true)),
        "redaction preview target field disappeared"
    );
    let no_revision: Vec<String> = ["id", "description"].iter().map(|s| s.to_string()).collect();
    assert_eq!(
        integrity_text(sanitized_record(&no_revision, &values[..2].to_vec(), "description", "x", true)),
        "issue redaction preview has no revision"
    );
    let bad = vec![text("bd-1"), text("v"), text("3")];
    assert_eq!(
        integrity_text(sanitized_record(&columns, &bad, "description", "x", true)),
        "issue redaction preview has invalid revision"
    );
}

#[test]
fn the_maintenance_lock_waits_only_while_busy_and_in_time() {
    assert!(matches!(maintenance_lock_step(LockAttempt::Acquired, true), LockStep::Held));
    assert!(matches!(maintenance_lock_step(LockAttempt::Busy, false), LockStep::Retry));
    match maintenance_lock_step(LockAttempt::Busy, true) {
        LockStep::Refused(RedactionError::Integrity(m)) => assert_eq!(m, "workspace maintenance lock is busy"),
        other => panic!("unexpected: {:?}", other),
    }
    match maintenance_lock_step(LockAttempt::Failed, false) {
        LockStep::Refused(RedactionError::Integrity(m)) => assert_eq!(m, "could not acquire workspace maintenance lock"),
        other => panic!("unexpected: {:?}", other),
    }
}

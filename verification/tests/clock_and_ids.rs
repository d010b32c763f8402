use bead_rs::doctor::{repair_checks, CheckDetails, DiagnosticCheck, DiagnosticStatus, DoctorDiagnostics};
use bead_rs::error::Error;
use bead_rs::issues::{candidate_id, draw_candidate_id, unique_id_step, IdStep, MAX_ID_ATTEMPTS};
use bead_rs::leases::{lease_claim, lease_claim_at, lease_is_expired, Lease};
use bead_rs::migrate::utc_now;
use bead_rs::rehearsal::diagnostics_result;
use bead_rs::resource_locks::now_string;

fn check(name: &str, status: DiagnosticStatus, message: &str) -> DiagnosticCheck {
    DiagnosticCheck {
        name: name.to_string(),
        status,
        message: message.to_string(),
        scope: Some("store".to_string()),
        details: CheckDetails::Message(message.to_string()),
    }
}

fn lease_expiring(expires_at: &str) -> Lease {
    Lease {
        issue_id: "bd-1".to_string(),
        assignee: "alice".to_string(),
        fencing_token: 3,
        expires_at: expires_at.to_string(),
        renewed_at: None,
        created_at: "2000-01-01T00:00:00Z".to_string(),
    }
}

fn is_rfc3339_utc(t: &str) -> bool {
    let b = t.as_bytes();
    b.len() >= 20 && b[4] == b'-' && b[7] == b'-' && b[10] == b'T' && b[13] == b':' && b[16] == b':' && t.ends_with('Z')
}

// ---- rehearsal diagnostics summary ----

#[test]
fn rehearsal_diagnostics_split_messages_by_status() {
    let d = DoctorDiagnostics {
        checks: vec![
            check("a", DiagnosticStatus::Healthy, "fine"),
            check("b", DiagnosticStatus::Error, "broken one"),
            check("c", DiagnosticStatus::Warning, "odd"),
            check("d", DiagnosticStatus::Error, "broken two"),
            check("e", DiagnosticStatus::Healthy, "fine too"),
        ],
        has_errors: true,
        has_warnings: true,
        scopes_checked: vec!["store".to_string()],
        timestamp: "2026-08-10T00:00:00Z".to_string(),
    };
    let r = diagnostics_result(&d);
    assert_eq!(r.checks_performed, 5);
    assert_eq!(r.errors, vec!["broken one".to_string(), "broken two".to_string()]);
    assert_eq!(r.warnings, vec!["odd".to_string()]);
    assert_eq!(r.ok_count, 2);
    assert_eq!(r.overall_status, "FAILED");
}

#[test]
fn rehearsal_diagnostics_overall_follows_the_run_flags() {
    let warn_only = DoctorDiagnostics {
        checks: vec![check("c", DiagnosticStatus::Warning, "odd")],
        has_errors: false,
        has_warnings: true,
        scopes_checked: vec![],
        timestamp: String::new(),
    };
    assert_eq!(diagnostics_result(&warn_only).overall_status, "WARNING");
    let clean = DoctorDiagnostics {
        checks: vec![],
        has_errors: false,
        has_warnings: false,
        scopes_checked: vec![],
        timestamp: String::new(),
    };
    let r = diagnostics_result(&clean);
    assert_eq!(r.overall_status, "OK");
    assert_eq!(r.checks_performed, 0);
    assert_eq!(r.ok_count, 0);
}

// ---- repairs ----

#[test]
fn repairs_record_each_removed_file_then_the_receipts_dir() {
    let removed = vec!["/w/.beads/a.tmp".to_string(), "/w/.beads/b.tmp".to_string()];
    let r = repair_checks(&removed, Some("/w/.beads/receipts"));
    assert_eq!(r.len(), 3);
    assert_eq!(r[0].name, "removed_temp_file");
    assert_eq!(r[0].message, "Removed temporary file: /w/.beads/a.tmp");
    assert_eq!(r[1].message, "Removed temporary file: /w/.beads/b.tmp");
    assert_eq!(r[2].name, "created_receipts_dir");
    assert_eq!(r[2].message, "Created missing receipts directory: /w/.beads/receipts");
    assert!(r.iter().all(|c| c.status == DiagnosticStatus::Healthy && c.scope.as_deref() == Some("store")));
}

#[test]
fn nothing_to_repair_records_nothing() {
    assert!(repair_checks(&vec![], None).is_empty());
}

// ---- identifiers ----

#[test]
fn candidate_ids_are_prefix_hyphen_and_hex() {
    assert_eq!(candidate_id("bead", &[0xde, 0xad, 0xbe, 0xef]), "bead-deadbeef");
    assert_eq!(candidate_id("bd", &[0, 1, 2, 255]), "bd-000102ff");
}

#[test]
fn drawn_ids_carry_eight_lowercase_hex_digits() {
    let id = draw_candidate_id("bead");
    assert!(id.starts_with("bead-"));
    assert_eq!(id.len(), 13);
    assert!(id[5..].chars().all(|c| c.is_ascii_hexdigit() && !c.is_ascii_uppercase()));
}

#[test]
fn a_taken_id_is_retried_until_the_last_attempt() {
    assert!(matches!(unique_id_step(0, "bead-1".to_string(), false), IdStep::Accept(ref id) if id == "bead-1"));
    assert!(matches!(unique_id_step(0, "bead-1".to_string(), true), IdStep::Retry));
    assert!(matches!(unique_id_step(MAX_ID_ATTEMPTS - 2, "bead-1".to_string(), true), IdStep::Retry));
    match unique_id_step(MAX_ID_ATTEMPTS - 1, "bead-1".to_string(), true) {
        IdStep::GiveUp(Error::Internal(m)) => assert_eq!(m, "Failed to generate unique ID after 5 attempts"),
        other => panic!("unexpected step: {:?}", other),
    }
}

// ---- lease times ----

#[test]
fn a_lease_expires_the_clamped_ttl_after_the_claim() {
    let (lease, written_at) = lease_claim_at("bd-1", "alice", 300, 7, 0);
    assert_eq!(lease.issue_id, "bd-1");
    assert_eq!(lease.assignee, "alice");
    assert_eq!(lease.fencing_token, 7);
    assert_eq!(lease.expires_at, "1970-01-01T00:05:00Z");
    assert_eq!(written_at, "1970-01-01T00:00:00Z");
    let (short, _) = lease_claim_at("bd-1", "alice", 1, 7, 0);
    assert_eq!(short.expires_at, "1970-01-01T00:00:30Z");
    let (long, _) = lease_claim_at("bd-1", "alice", 86_400, 7, 1_000_000_000);
    assert_eq!(long.expires_at, "1970-01-01T01:00:01Z");
}

#[test]
fn a_lease_claimed_now_expires_later_than_it_was_written() {
    let (lease, written_at) = lease_claim("bd-2", "bob", 60, 1);
    assert!(is_rfc3339_utc(&lease.expires_at));
    assert!(is_rfc3339_utc(&written_at));
    assert!(lease.expires_at > written_at);
    assert!(!lease_is_expired(&lease_expiring(&lease.expires_at)));
}

#[test]
fn past_leases_are_expired_and_future_ones_are_not() {
    assert!(lease_is_expired(&lease_expiring("2000-01-01T00:00:00Z")));
    assert!(!lease_is_expired(&lease_expiring("9999-01-01T00:00:00Z")));
}

#[test]
fn clock_stamps_are_rfc3339() {
    assert!(is_rfc3339_utc(&now_string()));
    assert!(is_rfc3339_utc(&utc_now()));
}

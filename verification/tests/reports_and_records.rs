use bead_rs::doctor::{
    CheckDetails, StaleInProgressIssue, StaleInProgressReport, recovery_gate, starvation_recovery_result, plan_checks, run_diagnostics_with_scopes, split_held, starvation_report, visibility_report, BeadProbe,
    CheckKind, CheckOutcome, DiagnosticScope, DiagnosticStatus, InvisibleBead, ReadyFrontierReport,
};
use bead_rs::dryrun::{close_issue_dryrun, release_issue_dryrun, reopen_issue_dryrun, IssueSnapshot};
use bead_rs::error::Error;
use bead_rs::external_refs::{add_appends_event, remove_appends_event, value_fingerprint};
use bead_rs::manifest::{
    default_dep_kind, default_priority, manifest_fields, operation_selector, resolve_target,
    validate_manifest, CloseOp, CreateOp, DepAddOp, LabelOp, ManifestOp, UpdateOp,
};
use bead_rs::migrate::{
    convert_preview_to_receipt, MigrationPreview, RecordCounts, TransformationCounts, MIGRATION_RECEIPT_SCHEMA,
};
use bead_rs::model::BaseStatus;
use bead_rs::policy::{
    validate_workspace_policy, ParamValue, PolicyDiagnosticStatus, RatioBand, WorkspaceConfig,
};
use bead_rs::reconcile::{classify_by_sequence, classify_verdict, reconcile_checkpoint, RelationshipVerdict, SyncRelationship};
use bead_rs::rehearsal::{compare_checkpoints_semantic, CheckpointInfo, IssueDigest};

fn strings(items: &[&str]) -> Vec<String> {
    items.iter().map(|s| s.to_string()).collect()
}

// ---- manifests ----

fn create(local_id: Option<&str>, title: &str) -> ManifestOp {
    ManifestOp::Create(CreateOp {
        local_id: local_id.map(|s| s.to_string()),
        title: title.to_string(),
        description: None,
        priority: default_priority(),
        issue_type: None,
        assignee: None,
        labels: Vec::new(),
        resource_keys: Vec::new(),
        unique_ref: None,
    })
}

fn update(id: &str, notes: Option<&str>) -> ManifestOp {
    ManifestOp::Update(UpdateOp {
        id: id.to_string(),
        status: None,
        assignee: None,
        clear_assignee: false,
        notes: notes.map(|s| s.to_string()),
        if_revision: None,
    })
}

fn close(id: &str, reason: &str) -> ManifestOp {
    ManifestOp::Close(CloseOp { id: id.to_string(), reason: reason.to_string(), if_revision: None })
}

fn label_add(id: &str, label: &str) -> ManifestOp {
    ManifestOp::LabelAdd(LabelOp { id: id.to_string(), label: label.to_string() })
}

fn dep_add(blocked: &str, blocker: &str) -> ManifestOp {
    ManifestOp::DepAdd(DepAddOp { blocked: blocked.to_string(), blocker: blocker.to_string(), kind: default_dep_kind() })
}

#[test]
fn parses_a_minimal_v1_manifest() {
    let manifest = validate_manifest(1, vec![create(Some("a"), "one"), dep_add("$a", "bead-00000000")]).unwrap();
    assert_eq!(manifest.version, 1);
    assert_eq!(manifest.operations.len(), 2);
    assert_eq!(manifest.operations[0].kind(), "create");
    assert_eq!(manifest.operations[1].kind(), "dep_add");
}

#[test]
fn refuses_unknown_version_op_and_fields() {
    let err = validate_manifest(2, Vec::new()).unwrap_err();
    assert_eq!(err.message(), "unsupported manifest_version 2 (this bead-rs understands version 1)");
}

#[test]
fn refuses_forward_and_undefined_references() {
    assert!(validate_manifest(1, vec![close("$a", "r"), create(Some("a"), "t")]).is_err());
    let err = validate_manifest(1, vec![label_add("$nope", "x")]).unwrap_err();
    assert_eq!(
        err.message(),
        "operation 0 (label_add): local reference '$nope' does not name the local_id of an earlier create"
    );
}

#[test]
fn refuses_duplicate_local_ids_and_fieldless_updates() {
    let err = validate_manifest(1, vec![create(Some("a"), "t"), create(Some("a"), "u")]).unwrap_err();
    assert_eq!(err.message(), "operation 1: local_id 'a' is already defined");
    let err = validate_manifest(1, vec![update("bead-x", None)]).unwrap_err();
    assert_eq!(
        err.message(),
        "operation 0: update supplies none of 'status', 'assignee', 'clear_assignee', 'notes'"
    );
}

#[test]
fn accepts_an_empty_manifest() {
    let manifest = validate_manifest(1, Vec::new()).unwrap();
    assert!(manifest.operations.is_empty());
}

#[test]
fn local_references_resolve_to_recorded_ids() {
    let locals = vec![("a".to_string(), "bead-1234".to_string())];
    assert_eq!(resolve_target("$a", &locals).unwrap(), "bead-1234");
    assert_eq!(resolve_target("bead-9", &locals).unwrap(), "bead-9");
    assert!(matches!(resolve_target("$b", &locals), Err(Error::Integrity(_))));
    assert!(validate_manifest(1, vec![create(Some("a"), "t"), update("$a", Some("n")), close("$a", "done")]).is_ok());
    assert_eq!(default_priority(), 2);
    assert_eq!(default_dep_kind(), "blocks");
}

#[test]
fn scanned_fields_and_selectors_name_each_operation() {
    let value = ["AK", "IA", "7M4Q9Z2N8C5R3T6V"].concat();
    let op = ManifestOp::Create(CreateOp {
        local_id: Some("a".to_string()),
        title: "one".to_string(),
        description: Some(value.clone()),
        priority: 2,
        issue_type: None,
        assignee: None,
        labels: strings(&["x", "y"]),
        resource_keys: Vec::new(),
        unique_ref: None,
    });
    let fields = manifest_fields(&op);
    assert_eq!(
        fields,
        vec![
            ("local_id".to_string(), "a".to_string()),
            ("title".to_string(), "one".to_string()),
            ("description".to_string(), value),
            ("labels[]".to_string(), "x".to_string()),
            ("labels[]".to_string(), "y".to_string()),
        ]
    );
    assert_eq!(operation_selector(0), "manifest:operation:0");
    assert_eq!(operation_selector(12), "manifest:operation:12");
    let close_fields = manifest_fields(&close("bead-1", "safe"));
    assert_eq!(close_fields[1], ("close_reason".to_string(), "safe".to_string()));
}

// ---- policy lint ----

fn config(policy: &str, version: &str, params: Vec<(String, ParamValue)>) -> WorkspaceConfig {
    WorkspaceConfig {
        scheduling_policy: policy.to_string(),
        scheduling_policy_version: version.to_string(),
        config_schema_version: "v1".to_string(),
        scheduling_params: params,
    }
}

fn ratio(band: RatioBand, text: &str) -> ParamValue {
    ParamValue { integer: None, ratio: Some(band), number_text: text.to_string() }
}

fn integer(n: i64) -> ParamValue {
    ParamValue { integer: Some(n), ratio: None, number_text: n.to_string() }
}

#[test]
fn test_validate_fifo_v1_policy() {
    let result = validate_workspace_policy(&config("fifo-v1", "v1", Vec::new()));
    assert!(result.validation_success);
    assert_eq!(result.status, PolicyDiagnosticStatus::Healthy);
    assert!(!result.findings.is_empty());
}

#[test]
fn test_validate_balanced_v1_policy_invalid_ratio() {
    let params = vec![("retry_lane_ratio".to_string(), ratio(RatioBand::Outside, "2"))];
    let result = validate_workspace_policy(&config("balanced-v1", "v1", params));
    assert!(result.validation_success);
    assert_eq!(result.status, PolicyDiagnosticStatus::Error);
    assert!(!result.findings.is_empty());
    assert_eq!(result.findings[0].message, "retry_lane_ratio 2 is outside valid range [0.0, 1.0]");
}

#[test]
fn test_validate_aging_v1_policy_invalid_promotions() {
    let params = vec![("max_promotions".to_string(), integer(15))];
    let result = validate_workspace_policy(&config("aging-v1", "v1", params));
    assert!(result.validation_success);
    assert_eq!(result.status, PolicyDiagnosticStatus::Error);
}

#[test]
fn test_validate_unknown_version() {
    let result = validate_workspace_policy(&config("fifo-v1", "v99", Vec::new()));
    assert!(!result.validation_success);
    assert_eq!(result.status, PolicyDiagnosticStatus::UnknownVersion);
}

#[test]
fn test_diagnostic_summary_counts() {
    let params = vec![
        ("retry_lane_ratio".to_string(), ratio(RatioBand::High, "0.6")),
        ("max_promotions".to_string(), integer(5)),
    ];
    let result = validate_workspace_policy(&config("balanced-v1", "v1", params));
    assert!(result.validation_success);
    assert_eq!(result.summary.total_findings, result.findings.len() as i64);
}

// ---- dry runs ----

fn snapshot(status: BaseStatus, assignee: Option<&str>, close_reason: Option<&str>) -> IssueSnapshot {
    IssueSnapshot {
        id: "test-123".to_string(),
        title: "Test Issue".to_string(),
        base_status: status,
        priority: 2,
        assignee: assignee.map(|s| s.to_string()),
        manual_blocked: Some(true),
        closed_at: None,
        close_reason: close_reason.map(|s| s.to_string()),
        updated_at: "2026-08-09T12:00:00Z".to_string(),
        revision: None,
        notes: None,
    }
}

#[test]
fn test_dryrun_result_serialization() {
    let issue = snapshot(BaseStatus::InProgress, Some("alice"), None);
    let result = release_issue_dryrun(&issue, 100).unwrap();
    assert_eq!(result.id, "test-123");
    assert_eq!(result.workspace_sequence, 100);
    assert_eq!(result.current_revision, 1);
    assert!(result.semantic_change);
    assert_eq!(result.before.base_status, "in_progress");
    assert_eq!(result.after.base_status, "open");
    assert_eq!(result.after.assignee, None);
}

#[test]
fn dry_run_close_previews_without_writing() {
    let open = snapshot(BaseStatus::Open, None, None);
    let result = close_issue_dryrun(&open, "  fixed ", "2026-08-10T00:00:00Z", 7).unwrap();
    assert!(result.semantic_change);
    assert_eq!(result.message, "Would close issue with reason: 'fixed'");
    assert_eq!(result.after.base_status, "closed");
    assert_eq!(result.after.closed_at.as_deref(), Some("2026-08-10T00:00:00Z"));
    assert_eq!(result.before.base_status, "open");
    assert_eq!(
        close_issue_dryrun(&open, "   ", "now", 7).unwrap_err().message(),
        "Close reason cannot be empty"
    );
    let closed = snapshot(BaseStatus::Closed, None, Some("fixed"));
    let same = close_issue_dryrun(&closed, "fixed", "now", 7).unwrap();
    assert!(!same.semantic_change);
    assert_eq!(same.message, "Issue already closed with same reason (idempotent)");
    assert_eq!(
        close_issue_dryrun(&closed, "other", "now", 7).unwrap_err().message(),
        "Issue is already closed with reason: 'fixed'. Use update to change the reason."
    );
}

#[test]
fn dry_run_reopen_and_release_follow_the_lifecycle() {
    let closed = snapshot(BaseStatus::Closed, Some("bob"), Some("done"));
    let reopened = reopen_issue_dryrun(&closed, 3).unwrap();
    assert!(reopened.semantic_change);
    assert_eq!(reopened.after.base_status, "open");
    let open = snapshot(BaseStatus::Open, None, None);
    assert!(!reopen_issue_dryrun(&open, 3).unwrap().semantic_change);
    assert!(reopen_issue_dryrun(&snapshot(BaseStatus::InProgress, None, None), 3).is_err());
    assert!(!release_issue_dryrun(&open, 3).unwrap().semantic_change);
    assert!(release_issue_dryrun(&snapshot(BaseStatus::Deferred, None, None), 3).is_err());
}

// ---- reconciliation ----

#[test]
fn sequences_decide_all_but_the_covered_ahead_case() {
    assert_eq!(classify_by_sequence(false, Some(3), 5).unwrap().relationship, SyncRelationship::Absent);
    assert_eq!(classify_by_sequence(true, Some(3), 5).unwrap().relationship, SyncRelationship::Behind);
    assert_eq!(classify_by_sequence(true, Some(5), 5).unwrap().relationship, SyncRelationship::Aligned);
    assert!(classify_by_sequence(true, Some(6), 5).is_none());
    let damaged = classify_by_sequence(true, None, 5).unwrap();
    assert_eq!(damaged.relationship, SyncRelationship::CoveredAheadIntegrityFailure);
    assert_eq!(
        damaged.failed_qualifier.as_deref(),
        Some("verified pointer: current.json does not declare an integer snapshot_sequence")
    );
    assert_eq!(SyncRelationship::RemoteAdvanced.as_str(), "remote-advanced");
}

#[test]
fn reconcile_proceeds_only_when_remote_advanced() {
    assert!(reconcile_checkpoint(&RelationshipVerdict::of(SyncRelationship::RemoteAdvanced)).is_ok());
    assert_eq!(
        reconcile_checkpoint(&RelationshipVerdict::of(SyncRelationship::Behind)).unwrap_err().message(),
        "sync reconcile refused: the live store is ahead of the checkpoint (relationship `behind`) - run `bead sync flush-only` first"
    );
    assert_eq!(
        reconcile_checkpoint(&RelationshipVerdict::of(SyncRelationship::Aligned)).unwrap_err().message(),
        "sync reconcile refused: there is nothing to reconcile (relationship `aligned`)"
    );
    let failing = RelationshipVerdict::failing("origin mismatch".to_string());
    let err = reconcile_checkpoint(&failing).unwrap_err();
    assert!(matches!(err, Error::Integrity(_)));
    assert!(err.message().contains("origin mismatch"));
}

// ---- recovery rehearsal ----

fn info(issues: usize, events: i64) -> CheckpointInfo {
    CheckpointInfo {
        path: "/tmp/cp".to_string(),
        issue_count: issues,
        event_count: events,
        receipt_count: 0,
        hash: "h".to_string(),
        size_bytes: 10,
    }
}

fn digest(id: &str, title: &str, priority: i64, status: BaseStatus) -> IssueDigest {
    IssueDigest { id: id.to_string(), title: title.to_string(), priority, base_status: status }
}

#[test]
fn rehearsal_comparison_lists_every_difference() {
    let original = Some(vec![
        digest("a", "A", 1, BaseStatus::Open),
        digest("b", "B", 2, BaseStatus::Open),
    ]);
    let rehearsal = Some(vec![
        digest("a", "A2", 3, BaseStatus::Closed),
        digest("c", "C", 2, BaseStatus::Open),
    ]);
    let cmp = compare_checkpoints_semantic(&info(2, 5), &info(2, 6), &original, &rehearsal);
    assert!(cmp.issue_count_matches);
    assert!(!cmp.event_count_matches);
    assert!(!cmp.overall_equivalence);
    let kinds: Vec<&str> = cmp.differences.iter().map(|d| d.difference_type.as_str()).collect();
    assert_eq!(
        kinds,
        vec![
            "event_count_mismatch",
            "title_mismatch",
            "priority_mismatch",
            "status_mismatch",
            "missing_in_rehearsal",
            "unexpected_in_rehearsal"
        ]
    );
    assert_eq!(cmp.differences[3].description, "Open vs Closed");

    let same = compare_checkpoints_semantic(&info(2, 5), &info(2, 5), &original, &original.clone());
    assert!(same.overall_equivalence);
    assert!(same.differences.is_empty());
}

// ---- external references ----

#[test]
fn reference_events_carry_a_fingerprint_not_the_value() {
    let fingerprint = value_fingerprint("12345");
    assert_eq!(fingerprint, "5994471abb01112afcc18159f6cc74b4f511b99806da59b3caf5a9c173cacfc5");
    assert_ne!(fingerprint, "12345");
    assert_eq!(value_fingerprint(""), "e3b0c44298fc1c149afbf4c8996fb92427ae41e4649b934ca495991b7852b855");
    assert!(add_appends_event(None, "12345"));
    assert!(!add_appends_event(Some("12345"), "12345"));
    assert!(add_appends_event(Some("12345"), "67890"));
    assert!(remove_appends_event(1));
    assert!(!remove_appends_event(0));
}

// ---- migration records ----

#[test]
fn test_migration_preview() {
    let preview = MigrationPreview {
        schema_ref: MIGRATION_RECEIPT_SCHEMA.to_string(),
        tool_version: "0.1.0".to_string(),
        timestamp: "2026-08-10T00:00:00Z".to_string(),
        source_profile: "native-v1".to_string(),
        target_profile: "needle-v1".to_string(),
        input_sha256: "abc123".to_string(),
        record_counts: RecordCounts {
            total_issues: 10,
            input_issues: 10,
            output_issues: 0,
            total_lines: 10,
            blank_lines: 0,
            malformed_lines: 0,
        },
        transformation_counts: TransformationCounts {
            transformed_issues: 10,
            preserved_issues: 0,
            total_transformations: 10,
            loss_entries: 0,
        },
        warnings: vec![],
        dry_run: true,
        prospective: true,
        successful: true,
    };
    assert!(preview.dry_run);
    assert!(preview.prospective);
    let receipt = convert_preview_to_receipt(preview);
    assert!(receipt.dry_run);
    assert_eq!(receipt.input_sha256, "abc123");
    assert_eq!(receipt.record_counts.total_issues, 10);
}

// ---- doctor ----

#[test]
fn scopes_parse_case_insensitively() {
    assert_eq!(DiagnosticScope::from_str("Store"), Some(DiagnosticScope::Store));
    assert_eq!(DiagnosticScope::from_str("ALL"), Some(DiagnosticScope::All));
    assert_eq!(DiagnosticScope::from_str("nope"), None);
    assert_eq!(
        DiagnosticScope::all_scopes(),
        vec!["store", "backup", "schema", "dependencies", "comments", "attempts", "all"]
    );
}

#[test]
fn every_listed_scope_name_selects_a_different_scope() {
    let selected: Vec<Option<DiagnosticScope>> =
        DiagnosticScope::all_scopes().into_iter().map(DiagnosticScope::from_str).collect();
    assert!(selected.iter().all(|s| s.is_some()));
    for i in 0..selected.len() {
        for j in (i + 1)..selected.len() {
            assert_ne!(selected[i], selected[j]);
        }
    }
    assert_eq!(DiagnosticScope::from_str("DePeNdEnCiEs"), DiagnosticScope::from_str("dependencies"));
    assert_eq!(DiagnosticScope::from_str("STORE"), Some(DiagnosticScope::Store));
}

#[test]
fn plan_runs_covered_scopes_then_temporary_files() {
    let (names, kinds) = plan_checks(&vec![DiagnosticScope::Schema, DiagnosticScope::Backup]);
    assert_eq!(names, strings(&["backup", "schema"]));
    assert_eq!(
        kinds,
        vec![
            CheckKind::CheckpointFreshness,
            CheckKind::BackupGenerations,
            CheckKind::SchemaValidity,
            CheckKind::TemporaryFiles
        ]
    );
    let (all_names, all_kinds) = plan_checks(&vec![DiagnosticScope::All]);
    assert_eq!(all_names.len(), 6);
    assert_eq!(all_kinds.len(), 13);
}

#[test]
fn diagnostics_report_each_check_and_the_worst_status() {
    let scopes = vec![DiagnosticScope::Backup];
    let outcomes = vec![
        CheckOutcome::Message(Ok("fresh".to_string())),
        CheckOutcome::Message(Err(Error::Validation("two generations missing".to_string()))),
        CheckOutcome::Message(Ok("no temporary files".to_string())),
    ];
    let report = run_diagnostics_with_scopes(&scopes, &outcomes, "stale-code", "t0".to_string());
    assert_eq!(report.checks.len(), 3);
    assert_eq!(report.checks[0].status, DiagnosticStatus::Healthy);
    assert_eq!(report.checks[1].status, DiagnosticStatus::Warning);
    assert_eq!(report.checks[1].name, "backup_generations");
    assert_eq!(report.checks[1].message, "Backup generations warning: two generations missing");
    assert!(report.has_warnings);
    assert!(!report.has_errors);
    assert_eq!(report.scopes_checked, strings(&["backup"]));
    assert_eq!(report.timestamp, "t0");
}

#[test]
fn diagnostics_carry_structured_details() {
    let scopes = vec![DiagnosticScope::Store, DiagnosticScope::Backup, DiagnosticScope::Dependencies];
    let stale = StaleInProgressReport {
        config_version: 1,
        max_age_seconds: 60,
        stale_issues: vec![StaleInProgressIssue {
            id: "bd-1".to_string(),
            last_event_at: "2026-01-01T00:00:00Z".to_string(),
            age_seconds: 90,
            remedy: "bead release bd-1".to_string(),
        }],
    };
    let frontier = ReadyFrontierReport::from_reason_codes(
        strings(&["bd-2"]),
        Vec::new(),
        strings(&["held"]),
        strings(&["bd-3"]),
        1,
    );
    let outcomes = vec![
        CheckOutcome::Message(Ok("config ok".to_string())),
        CheckOutcome::Message(Err(Error::Integrity("corrupt".to_string()))),
        CheckOutcome::Stale(Ok(stale)),
        CheckOutcome::Message(Err(Error::Conflict("diverged".to_string()))),
        CheckOutcome::Message(Err(Error::Workspace("remote-advanced: covered 9 > live 4".to_string()))),
        CheckOutcome::Message(Err(Error::Validation("old".to_string()))),
        CheckOutcome::Message(Ok("acyclic".to_string())),
        CheckOutcome::Frontier(Ok(frontier)),
        CheckOutcome::Message(Ok("no temporary files".to_string())),
    ];
    let report = run_diagnostics_with_scopes(&scopes, &outcomes, "stale-code", "t0".to_string());
    let d: Vec<&CheckDetails> = report.checks.iter().map(|c| &c.details).collect();
    assert!(matches!(d[0], CheckDetails::Message(m) if m == "config ok"));
    assert!(matches!(d[1], CheckDetails::Failure(m) if m == "corrupt"));
    match d[2] {
        CheckDetails::Stale { config_version, max_age_seconds, stale_issues, reason_codes } => {
            assert_eq!(*config_version, 1);
            assert_eq!(*max_age_seconds, 60);
            assert_eq!(stale_issues.len(), 1);
            assert_eq!(stale_issues[0].id, "bd-1");
            assert_eq!(reason_codes, &strings(&["stale-code"]));
        }
        other => panic!("unexpected {other:?}"),
    }
    assert!(matches!(d[3], CheckDetails::Diverged(m) if m == "diverged"));
    assert!(matches!(d[4], CheckDetails::RemoteAdvanced(m) if m.starts_with("remote-advanced")));
    assert!(matches!(d[5], CheckDetails::Warning(m) if m == "old"));
    match d[7] {
        CheckDetails::Frontier { held_count, held_ids, reason_codes, remedy, explained, .. } => {
            assert_eq!(*held_count, 1);
            assert_eq!(held_ids, &strings(&["bd-2"]));
            assert_eq!(reason_codes, &strings(&["held"]));
            assert_eq!(remedy.as_deref(), Some("bead update <id> --clear-assignee"));
            assert!(*explained);
        }
        other => panic!("unexpected {other:?}"),
    }
    assert!(matches!(d[8], CheckDetails::ManualBlocked { count: 1, ids } if ids == &strings(&["bd-3"])));
    assert!(matches!(d[9], CheckDetails::Message(_)));
}

#[test]
fn a_failed_stale_check_names_its_reason_code() {
    let scopes = vec![DiagnosticScope::Store];
    let outcomes = vec![
        CheckOutcome::Message(Ok("ok".to_string())),
        CheckOutcome::Message(Ok("ok".to_string())),
        CheckOutcome::Stale(Err(Error::Internal("query failed".to_string()))),
        CheckOutcome::Message(Ok("ok".to_string())),
        CheckOutcome::Message(Ok("ok".to_string())),
    ];
    let report = run_diagnostics_with_scopes(&scopes, &outcomes, "stale-code", "t0".to_string());
    match &report.checks[2].details {
        CheckDetails::StaleFailure { error, reason_codes } => {
            assert_eq!(error, "query failed");
            assert_eq!(reason_codes, &strings(&["stale-code"]));
        }
        other => panic!("unexpected {other:?}"),
    }
    assert_eq!(report.checks[2].status, DiagnosticStatus::Error);
}

#[test]
fn held_assignments_split_by_label() {
    let held = vec![
        ("a".to_string(), None),
        ("b".to_string(), Some("ops,parked".to_string())),
        ("c".to_string(), Some("intentionally-held".to_string())),
        ("d".to_string(), Some("urgent".to_string())),
    ];
    let (abandoned, intentional) = split_held(&held);
    assert_eq!(abandoned, strings(&["a", "d"]));
    assert_eq!(intentional, strings(&["b", "c"]));
    let report = ReadyFrontierReport::from_reason_codes(abandoned, intentional, strings(&["assigned"]), Vec::new(), 0);
    assert!(report.has_held_issues);
    assert_eq!(report.held_count, 2);
    assert_eq!(report.remedy.as_deref(), Some("bead update <id> --clear-assignee"));
}

fn probe(id: &str, assignee: Option<&str>, blocked: bool, blockers: &[&str]) -> BeadProbe {
    BeadProbe {
        id: id.to_string(),
        title: format!("title {id}"),
        priority: 2,
        assignee: assignee.map(|s| s.to_string()),
        manual_blocked: Some(blocked),
        blocker_count: blockers.len() as i64,
        blocker_ids: strings(blockers),
        conflict_count: 0,
        conflict_ids: Vec::new(),
    }
}

#[test]
fn starvation_report_names_why_each_bead_is_excluded() {
    let beads = vec![
        probe("free", None, false, &[]),
        probe("taken", Some("alice"), false, &[]),
        probe("stuck", None, true, &["x"]),
    ];
    let report = starvation_report("t1".to_string(), &beads);
    assert_eq!(report.open_bead_count, 3);
    assert_eq!(report.ready_bead_count, 1);
    assert!(!report.has_starvation);
    let ids: Vec<&str> = report.excluded_beads.iter().map(|b| b.id.as_str()).collect();
    assert_eq!(ids, vec!["taken", "stuck"]);
    assert_eq!(report.excluded_beads[1].blocking_dependencies, strings(&["x"]));
    let starved = starvation_report("t2".to_string(), &vec![probe("taken", Some("bob"), false, &[])]);
    assert!(starved.has_starvation);
    assert_eq!(starved.ready_bead_count, 0);
    assert!(!starvation_report("t3".to_string(), &Vec::new()).has_starvation);
}

#[test]
fn visibility_report_flags_a_discrepancy() {
    let none = visibility_report("t".to_string(), 2, 2, Vec::new());
    assert!(!none.has_discrepancy);
    assert!(none.discrepancy_details.is_none());
    let hidden = InvisibleBead {
        id: "b".to_string(),
        title: "B".to_string(),
        priority: 1,
        assignee: None,
        manual_blocked: true,
        has_blockers: false,
        has_resource_conflicts: false,
    };
    let report = visibility_report("t".to_string(), 2, 1, vec![hidden]);
    assert!(report.has_discrepancy);
    assert_eq!(report.discrepancy_details.unwrap().open_not_ready.len(), 1);
}

#[test]
fn covered_ahead_is_remote_advanced_only_when_every_qualifier_holds() {
    let all_hold: Vec<Option<String>> = vec![None, None, None, None, None];
    let v = classify_verdict(true, Some(9), 4, &all_hold);
    assert_eq!(v.relationship, SyncRelationship::RemoteAdvanced);
    assert_eq!(v.failed_qualifier, None);

    let second_and_third_fail = vec![
        None,
        Some("valid staged stream: bad line".to_string()),
        Some("same origin: mismatch".to_string()),
    ];
    let v = classify_verdict(true, Some(9), 4, &second_and_third_fail);
    assert_eq!(v.relationship, SyncRelationship::CoveredAheadIntegrityFailure);
    assert_eq!(v.failed_qualifier, Some("valid staged stream: bad line".to_string()));

    let v = classify_verdict(true, Some(3), 4, &second_and_third_fail);
    assert_eq!(v.relationship, SyncRelationship::Behind);
    let v = classify_verdict(true, Some(4), 4, &second_and_third_fail);
    assert_eq!(v.relationship, SyncRelationship::Aligned);
    let v = classify_verdict(false, None, 4, &all_hold);
    assert_eq!(v.relationship, SyncRelationship::Absent);
    let v = classify_verdict(true, None, 4, &all_hold);
    assert_eq!(v.relationship, SyncRelationship::CoveredAheadIntegrityFailure);
    assert!(v.failed_qualifier.unwrap().contains("snapshot_sequence"));
}

#[test]
fn recovery_stops_on_a_failed_integrity_check_and_verifies_a_covering_checkpoint() {
    match recovery_gate(Some("page 3 is corrupt"), 5, 5) {
        Err(Error::Integrity(m)) => {
            assert_eq!(m, "Cannot proceed with recovery: database integrity check failed: page 3 is corrupt")
        }
        other => panic!("expected the integrity refusal, got {:?}", other),
    }
    assert!(matches!(recovery_gate(None, 7, 7), Ok(true)));
    assert!(matches!(recovery_gate(None, 8, 7), Ok(true)));
    assert!(matches!(recovery_gate(None, 6, 7), Ok(false)));
}

#[test]
fn recovery_records_one_repair_per_kind_found() {
    let assigned = strings(&["bd-1", "bd-2"]);
    let stale: Vec<String> = Vec::new();
    let ts = "2026-01-01T00:00:00Z".to_string();
    let r = starvation_recovery_result(ts.clone(), true, &assigned, &stale, 3600, &ts, true, false);
    assert_eq!(r.total_repairs, 1);
    assert_eq!(r.repairs_performed[0].repair_type, "clear_stale_assignees");
    assert_eq!(
        r.repairs_performed[0].description,
        "Cleared stale assignees from 2 assigned-but-open beads using lifecycle service"
    );
    assert_eq!(r.repairs_performed[0].affected_beads, assigned);
    assert!(r.integrity_checks_passed);
    assert!(!r.checkpoint_verified);
    let r = starvation_recovery_result(ts.clone(), false, &Vec::new(), &strings(&["bd-9"]), 60, &ts, true, true);
    assert_eq!(r.repairs_performed[0].repair_type, "recommend_release_stale_claims");
    assert_eq!(
        r.repairs_performed[0].description,
        "Recommendation: release 1 stale in-progress beads (no activity for >60 seconds)"
    );
}

use bead_rs::dependency_cycles::{dependency_graph_answer, dependency_graph_check, detect_dependency_cycles};
use bead_rs::doctor::{ready_frontier_report, StaleInProgressReport};
use bead_rs::doctor_checks::{
    attempt_outcomes_answer, attempt_tier_answer, backup_generations_answer, checkpoint_freshness_answer,
    claim_epoch_leased, comments_integrity_answer, database_integrity_answer, export_age_at,
    forensic_checkpoint_answer, legacy_checkpoint_answer, malformed_evidence_count, schema_validity_answer,
    stale_in_progress_at, stale_in_progress_config, temporary_files_answer, uuid_divergence_answer,
    workspace_config_answer, ClaimDetail, KeySlot, PointerFacts, StaleClaimRow, StaleConfigFacts,
    StaleInProgressConfig, DEFAULT_STALE_IN_PROGRESS_MAX_AGE_SECONDS,
};
use bead_rs::dryrun::{add_dependency_dryrun, remove_dependency_dryrun};
use bead_rs::error::Error;
use bead_rs::issues::{
    exclusion_lines, exclusion_reasons, existing_create_outcome, fallback_log_entry, starvation_fallback,
    validate_create_request, CreateOutcome,
};
use bead_rs::model::BaseStatus;
use bead_rs::reconcile::{RelationshipVerdict, SyncRelationship};

fn strings(items: &[&str]) -> Vec<String> {
    items.iter().map(|s| s.to_string()).collect()
}

fn deps(edges: &[(&str, &str)]) -> Vec<(String, String)> {
    edges.iter().map(|(a, b)| (a.to_string(), b.to_string())).collect()
}

#[test]
fn acyclic_graph_reports_no_cycle_in_any_walk_order() {
    let graph = deps(&[("a", "b"), ("b", "c"), ("a", "c"), ("d", "c")]);
    for order in [
        strings(&["a", "b", "c", "d"]),
        strings(&["d", "c", "b", "a"]),
        strings(&["c", "a", "d", "b"]),
    ] {
        assert!(detect_dependency_cycles(&graph, &order).is_empty());
    }
}

#[test]
fn cycle_is_reported_as_its_closing_edge() {
    let graph = deps(&[("a", "b"), ("b", "c"), ("c", "a")]);
    let cycles = detect_dependency_cycles(&graph, &strings(&["a", "b", "c"]));
    assert_eq!(cycles, vec![strings(&["a", "c"])]);
    let cycles = detect_dependency_cycles(&graph, &strings(&["b", "a", "c"]));
    assert_eq!(cycles, vec![strings(&["b", "a"])]);
}

#[test]
fn self_edge_is_a_cycle_of_one() {
    let graph = deps(&[("x", "x")]);
    assert_eq!(detect_dependency_cycles(&graph, &strings(&["x"])), vec![strings(&["x", "x"])]);
}

#[test]
fn dependency_graph_check_refuses_self_edges_then_cycles() {
    let clean = deps(&[("a", "b")]);
    assert_eq!(
        dependency_graph_check(0, &clean, &strings(&["a", "b"]), 1, 1).unwrap(),
        "Dependency graph OK: 1 dependencies, 1 blocked issues, no cycles"
    );
    let err = dependency_graph_check(2, &clean, &strings(&["a", "b"]), 1, 1).unwrap_err();
    assert_eq!(err.message(), "Found 2 self-edge dependencies");
    let cyclic = deps(&[("a", "b"), ("b", "a")]);
    let err = dependency_graph_check(0, &cyclic, &strings(&["a", "b"]), 2, 2).unwrap_err();
    assert!(matches!(err, Error::Integrity(_)));
    assert_eq!(err.message(), "Found 1 dependency cycles: a -> b");
    let two = vec![strings(&["a", "b"]), strings(&["c", "d"])];
    assert_eq!(
        dependency_graph_answer(0, &two, 0, 0).unwrap_err().message(),
        "Found 2 dependency cycles: a -> b; c -> d"
    );
}

#[test]
fn listed_checks_name_every_positive_count() {
    assert_eq!(schema_validity_answer(0, 0, 0, 0, 0, 12).unwrap(), "Schema validity OK: 12 issues validated");
    assert_eq!(
        schema_validity_answer(1, 0, 2, 0, 3, 12).unwrap_err().message(),
        "Schema validity issues: Found 1 issues with invalid titles; Found 2 issues with inconsistent closed status metadata; Found 3 orphaned comments referencing non-existent issues"
    );
    assert_eq!(comments_integrity_answer(0, 0, 0, 4).unwrap(), "Comments integrity OK: 4 comments validated");
    assert_eq!(
        comments_integrity_answer(0, 1, 0, 4).unwrap_err().message(),
        "Comments integrity issues: Found 1 comments with empty body"
    );
    assert_eq!(
        attempt_outcomes_answer(false, 9, 9, 9, 9, 9, 9).unwrap(),
        "Attempt outcomes table not present (legacy workspace)"
    );
    assert_eq!(
        attempt_outcomes_answer(true, 0, 0, 2, 0, 0, 7).unwrap_err().message(),
        "Attempt outcomes integrity issues: Found 2 attempt outcomes with invalid receipt_id format (should start with 'ao-')"
    );
    assert_eq!(attempt_outcomes_answer(true, 0, 0, 0, 0, 0, 7).unwrap(), "Attempt outcomes integrity OK: 7 outcomes validated");
}

#[test]
fn store_checks_follow_sqlite_and_the_file_layout() {
    assert_eq!(database_integrity_answer(Some("ok"), "ok").unwrap(), "Database integrity check passed");
    assert_eq!(
        database_integrity_answer(Some("ok"), "issues").unwrap_err().message(),
        "Foreign key constraint violations: issues"
    );
    assert_eq!(
        database_integrity_answer(Some("row 3 missing"), "ok").unwrap_err().message(),
        "Database integrity check failed: row 3 missing"
    );
    assert_eq!(database_integrity_answer(None, "ok").unwrap_err().message(), "Integrity check returned no result");
    assert_eq!(
        workspace_config_answer(true, true, true, true, "u-1", "bd").unwrap(),
        "Workspace config valid: UUID=u-1, prefix=bd"
    );
    let err = workspace_config_answer(true, false, false, true, "u", "p").unwrap_err();
    assert!(matches!(err, Error::Workspace(_)));
    assert_eq!(err.message(), "beads.db not found");
    assert_eq!(temporary_files_answer(0).unwrap(), "No orphaned temporary files found");
    assert_eq!(
        temporary_files_answer(3).unwrap_err().message(),
        "Found 3 temporary file(s) that can be cleaned up with --repair"
    );
    assert_eq!(uuid_divergence_answer(2, 10, 5).unwrap(), "Workspace is a fork (2 fork receipts)");
    assert_eq!(uuid_divergence_answer(0, 0, 5).unwrap(), "No UUID divergence detected");
    assert!(uuid_divergence_answer(0, 10, 5).unwrap_err().message().starts_with("Workspace has 5 events from a different store UUID"));
}

#[test]
fn tier_check_lists_five_examples_and_counts_the_rest() {
    assert_eq!(
        attempt_tier_answer(false, &Vec::new(), 0).unwrap(),
        "Attempt tier consistency not applicable (legacy workspace)"
    );
    assert_eq!(attempt_tier_answer(true, &Vec::new(), 3).unwrap(), "Attempt tier consistency OK: 3 issues validated");
    let bad: Vec<(String, i64, i64)> = (0..7).map(|i| (format!("b{i}"), 2, 0)).collect();
    let err = attempt_tier_answer(true, &bad, 9).unwrap_err();
    assert!(matches!(err, Error::Workspace(_)));
    assert_eq!(
        err.message(),
        "Found 7 issues with inconsistent attempt_tier vs consecutive_failures: b0 (failures=2, tier=0), b1 (failures=2, tier=0), b2 (failures=2, tier=0), b3 (failures=2, tier=0), b4 (failures=2, tier=0) (and 2 more). This may indicate manual tier adjustments or legacy data. To reset: bead update <id> --reset-attempt-tier"
    );
}

fn pointer(generation: &str, sequence: i64, root: &str, hash: &str) -> PointerFacts {
    PointerFacts {
        generation_id: Some(generation.to_string()),
        snapshot_sequence: Some(sequence),
        root_path: Some(root.to_string()),
        root_sha256: Some(hash.to_string()),
        total_record_count: Some(42),
    }
}

#[test]
fn forensic_checkpoint_checks_in_order() {
    let aligned = RelationshipVerdict::of(SyncRelationship::Aligned);
    let p = pointer("gen-7", 5, "objects/root.jsonl", "0123456789abcdef");
    assert_eq!(
        forensic_checkpoint_answer(&aligned, &p, 5, "gen-7", 5, true, Some("0123456789abcdef")).unwrap(),
        "Forensic checkpoint valid: gen=gen-7, covered=5, records=42, hash=01234567"
    );
    assert_eq!(
        forensic_checkpoint_answer(&aligned, &p, 5, "gen-6", 5, true, None).unwrap_err().message(),
        "Generation ID mismatch: database=gen-6, pointer=gen-7"
    );
    assert_eq!(
        forensic_checkpoint_answer(&aligned, &p, 4, "", 5, true, None).unwrap_err().message(),
        "Sequence mismatch: pointer=5, database=4"
    );
    let dirty = forensic_checkpoint_answer(&aligned, &p, 5, "", 9, true, None).unwrap_err();
    assert!(matches!(dirty, Error::Workspace(_)));
    assert_eq!(dirty.message(), "Checkpoint is dirty: covered=5, current=9");
    assert_eq!(
        forensic_checkpoint_answer(&aligned, &p, 5, "", 5, false, None).unwrap_err().message(),
        "Root object file missing: objects/root.jsonl"
    );
    assert_eq!(
        forensic_checkpoint_answer(&aligned, &p, 5, "", 5, true, Some("ffff")).unwrap_err().message(),
        "Root hash mismatch: pointer=0123456789abcdef, actual=ffff"
    );
    let remote = RelationshipVerdict::of(SyncRelationship::RemoteAdvanced);
    let err = forensic_checkpoint_answer(&remote, &p, 3, "", 3, true, None).unwrap_err();
    assert!(err.message().starts_with("remote-advanced: pulled checkpoint (covered 5) is ahead of the live store (live 3); run `bead sync reconcile"));
    let failing = RelationshipVerdict::failing("same origin: mismatch".to_string());
    assert_eq!(
        forensic_checkpoint_answer(&failing, &p, 3, "", 3, true, None).unwrap_err().message(),
        "covered-ahead integrity failure: same origin: mismatch"
    );
}

#[test]
fn legacy_checkpoint_checks_and_freshness_note() {
    assert_eq!(legacy_checkpoint_answer(false, None, 0, 8, "", None).unwrap(), "No checkpoint file found (8 events)");
    assert!(legacy_checkpoint_answer(true, None, 3, 8, "", None).is_err());
    assert_eq!(
        legacy_checkpoint_answer(true, Some("not json\n{}"), 8, 8, "", None).unwrap_err().message(),
        "issues.jsonl contains invalid JSON"
    );
    assert_eq!(
        legacy_checkpoint_answer(true, Some("  {\"id\": 1}  \n"), 8, 8, "abcdef0123", Some("abcdef0123")).unwrap(),
        "Checkpoint state clean: covered=8, hash=abcdef01"
    );
    assert_eq!(
        legacy_checkpoint_answer(true, Some(""), 8, 8, "", None).unwrap(),
        "Checkpoint state clean: covered=8, no hash"
    );
    assert_eq!(
        legacy_checkpoint_answer(true, Some("{}"), 8, 8, "aa", Some("bb")).unwrap_err().message(),
        "Checkpoint hash mismatch: stored=aa, actual=bb"
    );
    assert_eq!(checkpoint_freshness_answer(Ok("x".to_string()), true, Some(7200)).unwrap(), "x (7200 seconds old)");
    assert_eq!(checkpoint_freshness_answer(Ok("x".to_string()), false, Some(7200)).unwrap(), "x (2 hours old, stale)");
    assert_eq!(checkpoint_freshness_answer(Ok("x".to_string()), false, Some(60)).unwrap(), "x (60 seconds old)");
    assert_eq!(checkpoint_freshness_answer(Ok("x".to_string()), false, None).unwrap(), "x (age unknown)");
    assert!(checkpoint_freshness_answer(Err(Error::Integrity("bad".to_string())), true, Some(1)).is_err());
    let noon = (1_767_268_800i64, 0u32);
    assert_eq!(export_age_at(Some("2026-01-01T11:00:00Z"), noon), Some(3600));
    assert_eq!(export_age_at(Some("garbage"), noon), None);
    assert_eq!(export_age_at(None, noon), None);
}

#[test]
fn backup_generations_count_pointers_and_objects() {
    assert_eq!(backup_generations_answer(false, None, None, None).unwrap(), "No checkpoint directory found");
    assert_eq!(
        backup_generations_answer(true, Some("g2".to_string()), Some("g1".to_string()), Some(4)).unwrap(),
        "Sharded backup: 2 generations (latest: g2, previous: g1), 4 objects"
    );
    assert_eq!(
        backup_generations_answer(true, Some("g2".to_string()), None, Some(0)).unwrap(),
        "Backup generations: 1 (latest: g2, previous: none)"
    );
}

#[test]
fn evidence_lists_need_one_colon_per_reference() {
    let rows = strings(&[
        r#"["github:123", "ci:run-9"]"#,
        r#"["no-colon"]"#,
        r#"["a:b:c"]"#,
        "not json",
        "[]",
        r#"[1, 2]"#,
    ]);
    assert_eq!(malformed_evidence_count(&rows), 4);
}

#[test]
fn stale_config_defaults_and_refusals() {
    let facts = |doctor, section, version, age| StaleConfigFacts {
        doctor,
        stale_in_progress: section,
        version,
        max_age_seconds: age,
    };
    let c = stale_in_progress_config(Ok(facts(KeySlot::Absent, KeySlot::Absent, None, None))).unwrap();
    assert_eq!((c.version, c.max_age_seconds), (1, DEFAULT_STALE_IN_PROGRESS_MAX_AGE_SECONDS));
    let c = stale_in_progress_config(Ok(facts(KeySlot::Object, KeySlot::Object, Some(1), Some(600)))).unwrap();
    assert_eq!(c.max_age_seconds, 600);
    let err = stale_in_progress_config(Ok(facts(KeySlot::NotObject, KeySlot::Absent, None, None))).unwrap_err();
    assert_eq!(err.message(), ".beads/config.json doctor must be an object");
    let err = stale_in_progress_config(Ok(facts(KeySlot::Object, KeySlot::Object, Some(2), Some(600)))).unwrap_err();
    assert_eq!(err.message(), "Unsupported doctor.stale_in_progress version 2 (supported: 1)");
    let err = stale_in_progress_config(Ok(facts(KeySlot::Object, KeySlot::Object, Some(1), Some(0)))).unwrap_err();
    assert_eq!(
        err.message(),
        ".beads/config.json doctor.stale_in_progress.max_age_seconds must be between 1 and i64::MAX"
    );
    let err = stale_in_progress_config(Err("expected value at line 1".to_string())).unwrap_err();
    assert_eq!(
        err.message(),
        "Invalid .beads/config.json while loading doctor.stale_in_progress: expected value at line 1"
    );
    let d = StaleInProgressConfig::default();
    assert_eq!(d.max_age_seconds, 86400);
}

fn claim_row(id: &str, at: &str, claim: Option<i64>, detail: Option<ClaimDetail>, exit: Option<i64>, lease: bool) -> StaleClaimRow {
    StaleClaimRow {
        id: id.to_string(),
        last_event_at: at.to_string(),
        last_claim_sequence: claim,
        last_claim_detail: detail,
        last_exit_sequence: exit,
        has_lease_row: lease,
    }
}

#[test]
fn claim_epoch_lease_question() {
    let plain = ClaimDetail::Parsed { with_lease: None, action: Some("claim".to_string()), new_fencing_token: false };
    assert!(!claim_epoch_leased(&claim_row("a", "t", None, None, None, true)));
    assert!(!claim_epoch_leased(&claim_row("a", "t", Some(3), None, Some(4), true)));
    assert!(claim_epoch_leased(&claim_row("a", "t", Some(3), None, Some(2), true)));
    assert!(claim_epoch_leased(&claim_row("a", "t", Some(3), Some(ClaimDetail::Unparsable), None, false)));
    assert!(!claim_epoch_leased(&claim_row("a", "t", Some(3), Some(plain), None, false)));
    let fenced = ClaimDetail::Parsed { with_lease: None, action: Some("claim_with_fencing_token".to_string()), new_fencing_token: false };
    assert!(claim_epoch_leased(&claim_row("a", "t", Some(3), Some(fenced), None, false)));
    let flagged = ClaimDetail::Parsed { with_lease: Some(false), action: None, new_fencing_token: true };
    assert!(!claim_epoch_leased(&claim_row("a", "t", Some(3), Some(flagged), None, true)));
}

#[test]
fn stale_claims_are_strictly_older_than_the_interval() {
    let noon = (1_767_268_800i64, 0u32);
    let config = StaleInProgressConfig { version: 1, max_age_seconds: 3600 };
    let rows = vec![
        claim_row("old", "2026-01-01T10:00:00Z", Some(1), None, None, false),
        claim_row("edge", "2026-01-01T11:00:00Z", Some(1), None, None, false),
        claim_row("leased", "2026-01-01T00:00:00Z", Some(1), None, None, true),
    ];
    let report: StaleInProgressReport = stale_in_progress_at(&config, &rows, noon).ok().unwrap();
    assert_eq!(report.max_age_seconds, 3600);
    assert_eq!(report.stale_issues.len(), 1);
    assert_eq!(report.stale_issues[0].id, "old");
    assert_eq!(report.stale_issues[0].age_seconds, 7200);
    assert_eq!(report.stale_issues[0].remedy, "bead release old");
    let bad = vec![claim_row("x", "yesterday", Some(1), None, None, false)];
    let err = stale_in_progress_at(&config, &bad, noon).err().unwrap();
    assert!(err.message().starts_with("Invalid latest event timestamp for in-progress issue x: "));
}

#[test]
fn ready_frontier_report_splits_and_codes() {
    let empty = ready_frontier_report(&Vec::new(), Vec::new(), "HELD", "PARKED");
    assert!(!empty.has_held_issues);
    assert!(empty.remedy.is_none());
    let held = vec![("a".to_string(), None), ("b".to_string(), Some("parked".to_string()))];
    let report = ready_frontier_report(&held, strings(&["m"]), "HELD", "PARKED");
    assert_eq!(report.held_ids, strings(&["a"]));
    assert_eq!(report.intentionally_held_ids, strings(&["b"]));
    assert_eq!(report.reason_codes, strings(&["HELD", "PARKED"]));
    assert_eq!(report.manual_blocked_count, 1);
    let only_blocked = ready_frontier_report(&Vec::new(), strings(&["m"]), "HELD", "PARKED");
    assert!(only_blocked.reason_codes.is_empty());
    assert!(only_blocked.remedy.is_some());
}

#[test]
fn dependency_dry_runs() {
    let ok = add_dependency_dryrun("a", "b", "blocks", None, true, true, Ok(()), false, false, 9).unwrap();
    assert!(ok.semantic_change);
    assert_eq!(ok.message, "Would add dependency: a -> b (blocks)");
    let again = add_dependency_dryrun("a", "b", "blocks", Some("{}"), true, true, Ok(()), false, true, 9).unwrap();
    assert!(!again.semantic_change);
    assert_eq!(again.message, "Dependency (a, b, blocks) already exists (idempotent)");
    assert_eq!(again.condition.as_deref(), Some("{}"));
    assert_eq!(
        add_dependency_dryrun("a", "b", "mentions", None, true, true, Ok(()), false, false, 9).unwrap_err().message(),
        "Invalid dependency kind 'mentions': must be 'blocks' or 'relates_to'"
    );
    assert_eq!(
        add_dependency_dryrun("a", "b", "blocks", None, false, true, Ok(()), false, false, 9).unwrap_err().message(),
        "blocked issue 'a'"
    );
    assert_eq!(
        add_dependency_dryrun("a", "a", "blocks", None, true, true, Ok(()), false, false, 9).unwrap_err().message(),
        "Cannot create self-edge dependency"
    );
    assert!(matches!(
        add_dependency_dryrun("a", "b", "blocks", None, true, true, Ok(()), true, false, 9),
        Err(Error::Conflict(_))
    ));
    assert!(add_dependency_dryrun("a", "b", "relates_to", None, true, true, Ok(()), true, false, 9).is_ok());
    let bad_condition = Error::Validation("bad condition".to_string());
    assert_eq!(
        add_dependency_dryrun("a", "b", "blocks", Some("x"), true, true, Err(bad_condition), false, false, 9)
            .unwrap_err()
            .message(),
        "bad condition"
    );
    let removed = remove_dependency_dryrun("a", "b", None, true, true, &strings(&["blocks", "relates_to"]), 4).unwrap();
    assert_eq!(removed.kind, "any");
    assert_eq!(removed.message, "Would remove dependencies: a -> b (blocks, relates_to)");
    let none = remove_dependency_dryrun("a", "b", Some("blocks"), true, true, &Vec::new(), 4).unwrap();
    assert!(!none.semantic_change);
    assert_eq!(none.message, "Dependency (a, b, blocks) does not exist (idempotent)");
    assert!(remove_dependency_dryrun("a", "b", None, true, false, &Vec::new(), 4).is_err());
}

#[test]
fn exclusion_reasons_and_lines() {
    let reasons = exclusion_reasons(Some("alice"), Some(true), 7, &strings(&["x", "y"]), 2);
    assert_eq!(
        reasons,
        strings(&[
            "has assignee: alice",
            "manually blocked",
            "blocked by 7+ unclosed issues (including: x, y)",
            "resource conflicts with 2 other issue(s)",
        ])
    );
    assert_eq!(exclusion_reasons(None, None, 1, &strings(&["x"]), 0), strings(&["blocked by 1 unclosed issue(s): x"]));
    assert_eq!(exclusion_lines("b-1", "Fix", &Vec::new()), strings(&["  \u{2713} b-1 [Fix] - READY"]));
    assert_eq!(
        exclusion_lines("b-1", "Fix", &strings(&["manually blocked"])),
        strings(&["  \u{2717} b-1 [Fix] - EXCLUDED:", "      - manually blocked"])
    );
}

#[test]
fn create_requests_and_bound_references() {
    assert!(validate_create_request("Title", 2, None, None, None).is_ok());
    assert_eq!(validate_create_request("", 2, None, None, None).unwrap_err().message(), "Title cannot be empty");
    assert_eq!(
        validate_create_request(&"t".repeat(4097), 2, None, None, None).unwrap_err().message(),
        "Title cannot exceed 4,096 bytes"
    );
    assert_eq!(
        validate_create_request("T", 5, None, None, None).unwrap_err().message(),
        "Priority must be between 0 and 4"
    );
    assert_eq!(validate_create_request("T", 0, Some(""), None, None).unwrap_err().message(), "assignee cannot be empty");
    assert_eq!(validate_create_request("T", 0, None, None, Some("")).unwrap_err().message(), "issue_type cannot be empty");
    assert_eq!(
        existing_create_outcome("b-1", Some(BaseStatus::Closed)).unwrap(),
        CreateOutcome::Existing { closed: true }
    );
    assert_eq!(
        existing_create_outcome("b-1", None).unwrap_err().message(),
        "Unique reference binding points to missing issue b-1"
    );
    assert_eq!(starvation_fallback(0, &strings(&["a"])), None);
    assert_eq!(starvation_fallback(3, &Vec::new()), None);
    assert_eq!(starvation_fallback(3, &strings(&["a", "b"])), Some(strings(&["a", "b"])));
    assert_eq!(
        fallback_log_entry("2026-01-01T00:00:00Z", &strings(&["a", "b"])),
        "2026-01-01T00:00:00Z | Fallback triggered | Recovered beads: a, b\n"
    );
}

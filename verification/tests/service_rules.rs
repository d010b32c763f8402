use bead_rs::error::Error;
use bead_rs::issues::{list_query, split_unique_ref, UNIQUE_REF_EXTERNAL_KEY};
use bead_rs::leases::{
    clamp_ttl, lease_expired_at, validate_claim_epoch, validate_epoch_lease, validate_renewal, Lease,
    DEFAULT_LEASE_TTL, MAX_LEASE_TTL, MIN_LEASE_TTL,
};
use bead_rs::lifecycle::{
    close_decision, ensure_revision_row_affected, expected_revision, release_decision, reopen_decision,
    Transition,
};
use bead_rs::model::{parse_base_status, BaseStatus};
use bead_rs::query::{
    build_order_clause, build_select, build_where_clause, delete_view_outcome, validate_operator_value,
    validate_query, view_id_for, Query, QueryField, QueryOperator, QueryPredicate, QuerySort, QueryValue,
    SortDirection,
};
use bead_rs::redaction::{validate_fingerprint, validate_request, BlockingFinding, RedactionError};
use bead_rs::resource_locks::{normalize_resource_key, normalize_resource_keys, MAX_RESOURCE_KEY_BYTES};
use bead_rs::scheduling::{
    effective_priority_at, rank_by_aging_policy, rank_by_impact_policy, rank_by_rotation_policy,
    rank_candidates_at, tier_for_failures, AttemptTier, GraphMetrics, RankRow, SchedulingPolicy,
};

fn strings(items: &[&str]) -> Vec<String> {
    items.iter().map(|s| s.to_string()).collect()
}

#[test]
fn test_parse_base_status() {
    assert_eq!(parse_base_status("open".to_string()), BaseStatus::Open);
    assert_eq!(parse_base_status("in_progress".to_string()), BaseStatus::InProgress);
    assert_eq!(parse_base_status("deferred".to_string()), BaseStatus::Deferred);
    assert_eq!(parse_base_status("closed".to_string()), BaseStatus::Closed);
}

#[test]
fn test_parse_base_status_in_lifecycle() {
    assert_eq!(parse_base_status("open".to_string()), BaseStatus::Open);
    assert_eq!(parse_base_status("in_progress".to_string()), BaseStatus::InProgress);
    assert_eq!(parse_base_status("deferred".to_string()), BaseStatus::Deferred);
    assert_eq!(parse_base_status("closed".to_string()), BaseStatus::Closed);
}

#[test]
fn unknown_status_text_reads_as_open() {
    assert_eq!(parse_base_status("mystery".to_string()), BaseStatus::Open);
    assert_eq!(parse_base_status(String::new()), BaseStatus::Open);
    assert_eq!(BaseStatus::InProgress.as_str(), "in_progress");
    assert!(BaseStatus::Closed.is_closed());
    assert!(!BaseStatus::Deferred.is_closed());
}

#[test]
fn test_lease_ttl_bounds() {
    assert!(MIN_LEASE_TTL <= DEFAULT_LEASE_TTL);
    assert!(DEFAULT_LEASE_TTL <= MAX_LEASE_TTL);
}

#[test]
fn ttl_is_clamped_into_range() {
    assert_eq!(clamp_ttl(0), MIN_LEASE_TTL);
    assert_eq!(clamp_ttl(29), 30);
    assert_eq!(clamp_ttl(300), 300);
    assert_eq!(clamp_ttl(3601), 3600);
    assert_eq!(clamp_ttl(u64::MAX), MAX_LEASE_TTL);
}

#[test]
fn lease_expiry_compares_timestamps_as_text() {
    let lease = Lease {
        issue_id: "test-1".to_string(),
        assignee: "alice".to_string(),
        fencing_token: 1,
        expires_at: "2024-01-01T00:00:00Z".to_string(),
        renewed_at: None,
        created_at: "2023-12-31T23:59:00Z".to_string(),
    };
    assert!(!lease_expired_at(&lease, "2023-12-31T23:59:30Z"));
    assert!(lease_expired_at(&lease, "2024-01-01T00:00:00Z"));
    assert!(lease_expired_at(&lease, "2024-01-01T00:00:01Z"));
}

#[test]
fn claim_epoch_fence_matches_exactly() {
    assert!(validate_claim_epoch("bead-1", 0, None).is_ok());
    assert!(validate_claim_epoch("bead-1", 3, Some(3)).is_ok());
    let stale = validate_claim_epoch("bead-1", 3, Some(2)).unwrap_err();
    assert!(matches!(stale, Error::LeaseConflict(_)));
    assert_eq!(
        stale.message(),
        "Claim-epoch credential mismatch: issue bead-1 is claimed at claim epoch 3, not 2; a stale credential cannot mutate it"
    );
    let missing = validate_claim_epoch("bead-1", 3, None).unwrap_err();
    assert_eq!(
        missing.message(),
        "Claim-epoch credential required: issue bead-1 is claimed at claim epoch 3; pass --fencing-token 3 (the current epoch is projected by `bead show bead-1 --json`)"
    );
    assert_eq!(missing.exit_code(), 4);
}

#[test]
fn epoch_lease_and_renewal_refusals() {
    assert!(validate_epoch_lease("b", "alice", None, Some(9)).is_ok());
    assert!(validate_epoch_lease("b", "alice", Some((5, false)), Some(5)).is_ok());
    assert!(matches!(
        validate_epoch_lease("b", "alice", Some((5, true)), Some(5)),
        Err(Error::LeaseExpired(_))
    ));
    assert_eq!(
        validate_epoch_lease("b", "alice", Some((5, false)), Some(4)).unwrap_err().message(),
        "Fencing token mismatch: expected 4, got 5"
    );
    assert!(validate_renewal("b", "alice", true, 1).is_ok());
    assert_eq!(
        validate_renewal("b", "alice", false, 1).unwrap_err().message(),
        "No active lease found for issue b and assignee alice"
    );
    assert_eq!(
        validate_renewal("b", "alice", true, 0).unwrap_err().message(),
        "Lease for issue b and assignee alice is no longer active"
    );
}

#[test]
fn lifecycle_decisions_follow_the_status() {
    assert_eq!(release_decision(BaseStatus::InProgress, true).unwrap(), Transition::Apply);
    assert_eq!(release_decision(BaseStatus::Open, false).unwrap(), Transition::Unchanged);
    assert_eq!(
        release_decision(BaseStatus::Open, true).unwrap_err().message(),
        "Cannot release assigned open issue - use 'update --clear-assignee' instead"
    );
    assert_eq!(
        release_decision(BaseStatus::Closed, false).unwrap_err().message(),
        "Cannot release issue in closed status - only in-progress issues can be released"
    );
    let (t, stored) = close_decision(BaseStatus::Open, None, "  done  ").unwrap();
    assert_eq!(t, Transition::Apply);
    assert_eq!(stored, "done");
    let (t, _) = close_decision(BaseStatus::Closed, Some("done "), " done").unwrap();
    assert_eq!(t, Transition::Unchanged);
    assert!(matches!(
        close_decision(BaseStatus::Closed, Some("done"), "other"),
        Err(Error::Conflict(_))
    ));
    assert_eq!(reopen_decision(BaseStatus::Closed).unwrap(), Transition::Apply);
    assert_eq!(reopen_decision(BaseStatus::Open).unwrap(), Transition::Unchanged);
    assert_eq!(
        reopen_decision(BaseStatus::Deferred).unwrap_err().message(),
        "Cannot reopen issue in deferred status - only closed issues can be reopened"
    );
}

#[test]
fn revision_guard_rejects_a_lost_update() {
    assert!(ensure_revision_row_affected(1, 4).is_ok());
    assert_eq!(
        ensure_revision_row_affected(0, 4).unwrap_err().message(),
        "Revision mismatch: expected 4. The issue has been modified since you retrieved it."
    );
    assert_eq!(expected_revision(None), 1);
    assert_eq!(expected_revision(Some(9)), 9);
}

#[test]
fn unique_ref_splits_at_the_first_colon() {
    assert_eq!(UNIQUE_REF_EXTERNAL_KEY, "unique-ref");
    assert_eq!(
        split_unique_ref("github:owner/repo:12").unwrap(),
        ("github".to_string(), "owner/repo:12".to_string())
    );
    assert_eq!(split_unique_ref(":x").unwrap(), (String::new(), "x".to_string()));
    assert_eq!(
        split_unique_ref("no-colon").unwrap_err().message(),
        "unique-ref must use NAMESPACE:KEY form"
    );
}

#[test]
fn listing_binds_filters_in_order() {
    let (sql, params) = list_query(Some("open"), Some("alice"), false, false, 10, "2026-01-01T00:00:00Z").unwrap();
    assert!(sql.contains("AND base_status = ?"), "{sql}");
    assert!(sql.contains("AND assignee = ?"), "{sql}");
    assert_eq!(params[0], "open");
    assert_eq!(params[1], "alice");
    assert!(params.contains(&"10".to_string()), "{params:?}");
    let (ready_sql, ready_params) = list_query(None, None, true, false, 5, "NOW").unwrap();
    assert!(ready_sql.contains("active_lease.expires_at > ?"), "{ready_sql}");
    assert!(ready_params.contains(&"NOW".to_string()), "{ready_params:?}");
}

#[test]
fn listing_refuses_an_unknown_status_filter() {
    match list_query(Some("nope"), None, false, false, 10, "NOW") {
        Err(bead_rs::error::Error::Validation(m)) => assert!(m.contains("nope"), "{m}"),
        other => panic!("expected a validation error, got {:?}", other),
    }
    let (sql, params) = list_query(Some("blocked"), None, false, true, 10, "NOW").unwrap();
    assert!(!sql.contains("AND base_status = ?"), "{sql}");
    assert_eq!(params, vec!["10".to_string()]);
    assert!(list_query(Some("in_progress"), None, false, false, 1, "NOW").is_ok());
}

#[test]
fn test_query_field_validation() {
    assert!(QueryField::Id.is_predicate_valid());
    assert!(QueryField::Title.is_predicate_valid());
    assert!(QueryField::Priority.is_predicate_valid());
    assert!(!QueryField::Description.is_predicate_valid());
}

#[test]
fn test_sort_field_validation() {
    assert!(QueryField::Id.is_sortable());
    assert!(QueryField::Priority.is_sortable());
    assert!(!QueryField::BaseStatus.is_sortable());
}

fn query(version: &str, predicates: Vec<QueryPredicate>, sort: Vec<QuerySort>) -> Query {
    Query { version: version.to_string(), predicates, sort, projection: None, limit: None }
}

#[test]
fn test_parse_simple_query() {
    let q = query(
        "v1",
        vec![QueryPredicate {
            field: QueryField::Priority,
            operator: QueryOperator::GreaterThanOrEqual,
            value: Some(QueryValue::Integer(2)),
        }],
        vec![QuerySort { field: QueryField::Priority, direction: SortDirection::Asc }],
    );
    let q = validate_query(q).unwrap();
    assert_eq!(q.version, "v1");
    assert_eq!(q.predicates.len(), 1);
    assert_eq!(q.sort.len(), 1);
}

#[test]
fn test_parse_invalid_version() {
    let err = validate_query(query("v2", Vec::new(), Vec::new())).unwrap_err();
    assert_eq!(err.message(), "Unsupported query version 'v2'. Only 'v1' is supported.");
}

#[test]
fn query_validation_names_the_first_fault() {
    let bad_predicate = QueryPredicate {
        field: QueryField::Description,
        operator: QueryOperator::Contains,
        value: Some(QueryValue::String("x".to_string())),
    };
    assert_eq!(
        validate_query(query("v1", vec![bad_predicate], Vec::new())).unwrap_err().message(),
        "Field 'Description' cannot be used in predicates"
    );
    let bad_sort = QuerySort { field: QueryField::BaseStatus, direction: SortDirection::Asc };
    assert_eq!(
        validate_query(query("v1", Vec::new(), vec![bad_sort])).unwrap_err().message(),
        "Field 'BaseStatus' cannot be used for sorting"
    );
    assert!(validate_operator_value(&QueryOperator::IsNull, &None).is_ok());
    assert_eq!(
        validate_operator_value(&QueryOperator::IsNull, &Some(QueryValue::Boolean(true))).unwrap_err().message(),
        "NULL operators must not have a value"
    );
    assert_eq!(
        validate_operator_value(&QueryOperator::Equals, &None).unwrap_err().message(),
        "Operator requires a value"
    );
}

#[test]
fn test_build_where_clause() {
    let predicates = vec![
        QueryPredicate {
            field: QueryField::Priority,
            operator: QueryOperator::GreaterThan,
            value: Some(QueryValue::Integer(1)),
        },
        QueryPredicate {
            field: QueryField::BaseStatus,
            operator: QueryOperator::Equals,
            value: Some(QueryValue::String("open".to_string())),
        },
    ];
    let (where_clause, params) = build_where_clause(&predicates);
    assert!(where_clause.contains("priority >"));
    assert!(where_clause.contains("base_status ="));
    assert_eq!(params.len(), 2);
    assert_eq!(where_clause, "priority > ? AND base_status = ?");
    assert_eq!(params, strings(&["1", "open"]));
}

#[test]
fn where_clause_compiles_patterns_and_null_tests() {
    let predicates = vec![
        QueryPredicate {
            field: QueryField::Title,
            operator: QueryOperator::Contains,
            value: Some(QueryValue::String("fix".to_string())),
        },
        QueryPredicate { field: QueryField::Assignee, operator: QueryOperator::IsNull, value: None },
    ];
    let (clause, params) = build_where_clause(&predicates);
    assert_eq!(clause, "title LIKE ? AND assignee IS NULL");
    assert_eq!(params, strings(&["%fix%"]));
    let (empty, none) = build_where_clause(&Vec::new());
    assert_eq!(empty, "1=1");
    assert!(none.is_empty());
}

#[test]
fn test_build_order_clause() {
    let sort = vec![
        QuerySort { field: QueryField::Priority, direction: SortDirection::Desc },
        QuerySort { field: QueryField::CreatedAt, direction: SortDirection::Asc },
    ];
    let order_clause = build_order_clause(&sort);
    assert!(order_clause.contains("priority DESC"));
    assert!(order_clause.contains("created_at ASC"));
    assert_eq!(order_clause, "priority DESC, created_at ASC");
    assert_eq!(build_order_clause(&Vec::new()), "priority ASC, created_at ASC, id ASC");
}

#[test]
fn select_ends_with_the_limit() {
    let mut q = query("v1", Vec::new(), Vec::new());
    q.limit = Some(25);
    let (sql, params) = build_select(&q);
    assert!(sql.contains("WHERE 1=1"));
    assert!(sql.ends_with("LIMIT 25"), "{sql}");
    assert!(params.is_empty());
}

#[test]
fn saved_view_ids_and_deletion() {
    assert_eq!(view_id_for("2026-08-10T12:30:00Z"), "view-20260810T123000Z");
    assert!(delete_view_outcome("mine", 1).is_ok());
    assert_eq!(delete_view_outcome("mine", 0).unwrap_err().message(), "View 'mine' not found");
}

fn shaped_value() -> String {
    ["AK", "IA", "7Q9W2E4R6T8Y1U3I"].concat()
}

#[test]
fn secret_bearing_reason_is_rejected_without_echoing_it() {
    let value = shaped_value();
    let reason = format!("because {value}");
    assert!(reason.contains(&value));
    let finding = BlockingFinding {
        rule_id: "aws-access-key-id".to_string(),
        fingerprint: "f".repeat(64),
    };
    let error = validate_request(&"a".repeat(64), Ok(()), Ok(()), Some(&finding)).unwrap_err();
    let rendered = format!("{error:?}");
    assert!(matches!(error, RedactionError::Usage(_)));
    assert!(!rendered.contains(&value));
    assert!(rendered.contains("rule aws-access-key-id"));
}

#[test]
fn redaction_request_checks_the_fingerprint_first() {
    assert!(validate_request(&"a".repeat(64), Ok(()), Ok(()), None).is_ok());
    assert!(validate_fingerprint(&"0123456789abcdef".repeat(4)).is_ok());
    for bad in ["A".repeat(64), "a".repeat(63), "g".repeat(64)] {
        match validate_request(&bad, Err(RedactionError::Usage("actor".to_string())), Ok(()), None) {
            Err(RedactionError::Usage(m)) => {
                assert_eq!(m, "finding fingerprint must be 64-character lowercase SHA-256 hex")
            }
            other => panic!("unexpected {other:?}"),
        }
    }
}

#[test]
fn redaction_request_checks_actor_then_reason_then_scan() {
    let finding = BlockingFinding { rule_id: "r".to_string(), fingerprint: "f".repeat(64) };
    let actor = Err(RedactionError::Usage("actor must not be empty".to_string()));
    let reason = Err(RedactionError::Usage("reason must not be empty".to_string()));
    match validate_request(&"a".repeat(64), actor, reason.clone(), Some(&finding)) {
        Err(RedactionError::Usage(m)) => assert_eq!(m, "actor must not be empty"),
        other => panic!("unexpected {other:?}"),
    }
    match validate_request(&"a".repeat(64), Ok(()), reason, Some(&finding)) {
        Err(RedactionError::Usage(m)) => assert_eq!(m, "reason must not be empty"),
        other => panic!("unexpected {other:?}"),
    }
}

#[test]
fn normalizes_and_orders_keys() {
    assert_eq!(normalize_resource_keys(&strings(&[" z ", "a"])).unwrap(), strings(&["a", "z"]));
}

#[test]
fn rejects_empty_control_duplicate_and_oversized_keys() {
    assert!(normalize_resource_key("  ").is_err());
    assert!(normalize_resource_key("a\n").is_err());
    assert!(normalize_resource_keys(&strings(&["a", " a "])).is_err());
    assert!(normalize_resource_key(&"x".repeat(MAX_RESOURCE_KEY_BYTES + 1)).is_err());
}

#[test]
fn resource_key_refusals_are_named() {
    assert_eq!(normalize_resource_key("a\tb").unwrap_err().message(), "Resource key cannot contain control characters");
    assert_eq!(normalize_resource_key(" ").unwrap_err().message(), "Resource key cannot be empty");
    assert_eq!(
        normalize_resource_key(&"é".repeat(128)).unwrap_err().message(),
        "Resource key cannot exceed 255 bytes"
    );
    assert_eq!(normalize_resource_key(&"x".repeat(255)).unwrap().len(), 255);
    assert_eq!(
        normalize_resource_keys(&strings(&["b", "a", " b"])).unwrap_err().message(),
        "Resource key declared more than once: b"
    );
    assert_eq!(normalize_resource_key(" Mixed Case ").unwrap(), "Mixed Case");
}

#[test]
fn test_attempt_tier_conversion() {
    assert_eq!(AttemptTier::from_i64(0).unwrap(), AttemptTier::Unproven);
    assert_eq!(AttemptTier::from_i64(1).unwrap(), AttemptTier::Retryable);
    assert_eq!(AttemptTier::from_i64(2).unwrap(), AttemptTier::Struggling);
    assert_eq!(AttemptTier::from_i64(3).unwrap(), AttemptTier::Quarantined);
    assert!(AttemptTier::from_i64(4).is_err());
}

#[test]
fn tiers_round_trip_and_follow_failures() {
    for n in 0..4 {
        assert_eq!(AttemptTier::from_i64(n).unwrap().to_i64(), n);
    }
    assert_eq!(AttemptTier::from_i64(-1).unwrap_err().message(), "Invalid attempt tier: -1");
    assert_eq!(tier_for_failures(0), AttemptTier::Unproven);
    assert_eq!(tier_for_failures(1), AttemptTier::Retryable);
}

#[test]
fn test_scheduling_policy_parsing() {
    let fifo = SchedulingPolicy::from_string("fifo-v1").unwrap();
    assert!(matches!(fifo, SchedulingPolicy::FifoV1));
    let aging = SchedulingPolicy::from_string("aging-v1").unwrap();
    match aging {
        SchedulingPolicy::AgingV1 { aging_interval_seconds, max_promotions } => {
            assert_eq!(aging_interval_seconds, 86400);
            assert_eq!(max_promotions, 2);
        }
        _ => panic!("Expected AgingV1 policy"),
    }
    assert!(SchedulingPolicy::from_string("unknown").is_err());
}

#[test]
fn test_policy_as_str() {
    assert_eq!(SchedulingPolicy::FifoV1.as_str(), "fifo-v1");
    assert_eq!(
        SchedulingPolicy::AgingV1 { aging_interval_seconds: 3600, max_promotions: 1 }.as_str(),
        "aging-v1"
    );
}

const SECOND: i128 = 1_000_000_000;
/// 2026-01-01T00:00:00Z in Unix nanoseconds.
const NEW_YEAR: i128 = 1_767_225_600 * SECOND;

#[test]
fn aging_promotes_by_whole_intervals_up_to_the_cap() {
    let policy = SchedulingPolicy::AgingV1 { aging_interval_seconds: 3600, max_promotions: 2 };
    let ready = Some("2026-01-01T00:00:00Z");
    assert_eq!(effective_priority_at(3, ready, &policy, NEW_YEAR).unwrap(), 3);
    assert_eq!(effective_priority_at(3, ready, &policy, NEW_YEAR + 3599 * SECOND).unwrap(), 3);
    assert_eq!(effective_priority_at(3, ready, &policy, NEW_YEAR + 3600 * SECOND).unwrap(), 2);
    assert_eq!(effective_priority_at(3, ready, &policy, NEW_YEAR + 100 * 3600 * SECOND).unwrap(), 1);
    assert_eq!(effective_priority_at(1, ready, &policy, NEW_YEAR + 100 * 3600 * SECOND).unwrap(), 0);
    assert_eq!(effective_priority_at(9, None, &policy, NEW_YEAR).unwrap(), 4);
    assert_eq!(effective_priority_at(-2, None, &SchedulingPolicy::FifoV1, NEW_YEAR).unwrap(), 0);
    let err = effective_priority_at(3, Some("yesterday"), &policy, NEW_YEAR).unwrap_err();
    assert!(err.message().starts_with("Failed to parse ready_since: "), "{}", err.message());
}

fn row(id: &str, priority: i64, created_at: &str, ready_since: Option<&str>, last: Option<i64>) -> RankRow {
    RankRow {
        id: id.to_string(),
        priority,
        created_at: created_at.to_string(),
        ready_since: ready_since.map(|s| s.to_string()),
        last_claim_sequence: last,
    }
}

fn metrics(unlock: i64, reach: i64) -> GraphMetrics {
    GraphMetrics {
        immediate_unlock_count: unlock,
        downstream_reach: reach,
        critical_path_reduction: 0,
        unlocked_priorities: Vec::new(),
        is_valid: true,
        graph_revision: 1,
    }
}

#[test]
fn fifo_keeps_the_store_order() {
    let rows = vec![
        row("c", 2, "2026-01-02", None, None),
        row("b", 1, "2026-01-03", None, None),
        row("a", 2, "2026-01-02", None, None),
    ];
    let ranked = rank_candidates_at(&rows, &Vec::new(), &SchedulingPolicy::FifoV1, NEW_YEAR).unwrap();
    assert_eq!(ranked, strings(&["c", "b", "a"]));
}

#[test]
fn aging_lifts_a_long_ready_issue_ahead() {
    let policy = SchedulingPolicy::AgingV1 { aging_interval_seconds: 3600, max_promotions: 2 };
    let rows = vec![
        row("fresh", 1, "2026-01-01", Some("2026-01-01T00:00:00Z"), None),
        row("stale", 2, "2026-01-01", Some("2025-12-31T00:00:00Z"), None),
    ];
    let ranked = rank_by_aging_policy(&rows, &policy, NEW_YEAR).unwrap();
    assert_eq!(ranked, strings(&["stale", "fresh"]));
    let bad = vec![row("x", 1, "t", Some("not a time"), None)];
    assert!(rank_by_aging_policy(&bad, &policy, NEW_YEAR).is_err());
}

#[test]
fn rotation_serves_the_least_recently_claimed_first() {
    let rows = vec![
        row("recent", 1, "2026-01-01", None, Some(9)),
        row("never", 1, "2026-01-02", None, None),
        row("older", 1, "2026-01-03", None, Some(2)),
        row("urgent", 0, "2026-01-04", None, Some(50)),
    ];
    assert_eq!(rank_by_rotation_policy(&rows), strings(&["urgent", "older", "recent", "never"]));
}

#[test]
fn impact_orders_by_priority_then_score_ascending() {
    let rows = vec![
        row("big", 1, "2026-01-01", None, None),
        row("small", 1, "2026-01-02", None, None),
        row("urgent", 0, "2026-01-03", None, None),
        row("none", 1, "2026-01-04", None, None),
    ];
    let ranked = rank_by_impact_policy(
        &rows,
        &vec![metrics(5, 1), metrics(1, 1), metrics(9, 9), metrics(7, 0)],
    );
    assert_eq!(ranked, strings(&["urgent", "none", "small", "big"]));
}

#[test]
fn a_zero_aging_interval_is_harmless_without_ready_times() {
    let policy = SchedulingPolicy::AgingV1 { aging_interval_seconds: 0, max_promotions: 2 };
    let none: Vec<RankRow> = Vec::new();
    assert_eq!(rank_candidates_at(&none, &Vec::new(), &policy, NEW_YEAR).unwrap(), Vec::<String>::new());
    let rows = vec![row("b", 2, "2026-01-01T00:00:00Z", None, None), row("a", 1, "2026-01-01T00:00:00Z", None, None)];
    assert_eq!(rank_candidates_at(&rows, &Vec::new(), &policy, NEW_YEAR).unwrap(), vec!["a".to_string(), "b".to_string()]);
}

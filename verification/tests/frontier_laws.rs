use bead_rs::doctor::{starvation_report, BeadProbe};
use bead_rs::issues::exclusion_reasons;
use bead_rs::error::Error;
use bead_rs::resource_locks::{normalize_resource_key, resource_keys_from_items};

fn strings(items: &[&str]) -> Vec<String> {
    items.iter().map(|s| s.to_string()).collect()
}

fn bead(id: &str, assignee: Option<&str>, blocked: Option<bool>, blockers: i64, conflicts: i64) -> BeadProbe {
    BeadProbe {
        id: id.to_string(),
        title: format!("title {}", id),
        priority: 2,
        assignee: assignee.map(|s| s.to_string()),
        manual_blocked: blocked,
        blocker_count: blockers,
        blocker_ids: if blockers > 0 { strings(&["b1"]) } else { vec![] },
        conflict_count: conflicts,
        conflict_ids: if conflicts > 0 { strings(&["c1"]) } else { vec![] },
    }
}

#[test]
fn an_unheld_open_issue_has_no_exclusion_reason() {
    assert!(exclusion_reasons(None, None, 0, &vec![], 0).is_empty());
    assert!(exclusion_reasons(None, Some(false), 0, &vec![], 0).is_empty());
}

#[test]
fn each_hold_alone_excludes_an_issue() {
    assert_eq!(exclusion_reasons(Some("alice"), None, 0, &vec![], 0).len(), 1);
    assert_eq!(exclusion_reasons(None, Some(true), 0, &vec![], 0).len(), 1);
    assert_eq!(exclusion_reasons(None, None, 1, &strings(&["b1"]), 0).len(), 1);
    assert_eq!(exclusion_reasons(None, None, 0, &vec![], 1).len(), 1);
}

#[test]
fn starvation_counts_ready_beads_as_the_unheld_ones() {
    let beads = vec![
        bead("a", None, None, 0, 0),
        bead("b", Some("  "), Some(false), 0, 0),
        bead("c", Some("bob"), None, 0, 0),
        bead("d", None, Some(true), 0, 0),
        bead("e", None, None, 2, 0),
        bead("f", None, None, 0, 3),
    ];
    let report = starvation_report("2026-08-10T00:00:00Z".to_string(), &beads);
    assert_eq!(report.open_bead_count, 6);
    assert_eq!(report.ready_bead_count, 2);
    let excluded: Vec<&str> = report.excluded_beads.iter().map(|e| e.id.as_str()).collect();
    assert_eq!(excluded, vec!["c", "d", "e", "f"]);
    assert!(!report.has_starvation);
}

#[test]
fn open_beads_with_none_ready_are_starvation() {
    let beads = vec![bead("c", Some("bob"), None, 0, 0), bead("d", None, Some(true), 0, 0)];
    let report = starvation_report("t".to_string(), &beads);
    assert_eq!(report.ready_bead_count, 0);
    assert!(report.has_starvation);
    let empty = starvation_report("t".to_string(), &vec![]);
    assert!(!empty.has_starvation);
}

#[test]
fn a_normalized_key_normalizes_to_itself() {
    for raw in ["  db:main  ", "queue/high", "\u{2003}café\u{2003}"] {
        let once = normalize_resource_key(raw).unwrap();
        let twice = normalize_resource_key(&once).unwrap();
        assert_eq!(once, twice);
    }
    assert_eq!(normalize_resource_key("  db:main  ").unwrap(), "db:main");
}

#[test]
fn declared_keys_must_be_an_array_of_strings() {
    match resource_keys_from_items(None) {
        Err(Error::Validation(m)) => assert_eq!(m, "resource_keys must be a JSON array of strings"),
        other => panic!("unexpected: {:?}", other),
    }
    let mixed = vec![Some("db".to_string()), None];
    match resource_keys_from_items(Some(&mixed)) {
        Err(Error::Validation(m)) => assert_eq!(m, "resource_keys must contain only strings"),
        other => panic!("unexpected: {:?}", other),
    }
    let keys = vec![Some(" queue ".to_string()), Some("db".to_string())];
    assert_eq!(resource_keys_from_items(Some(&keys)).unwrap(), strings(&["db", "queue"]));
    let repeated = vec![Some("db".to_string()), Some(" db".to_string())];
    match resource_keys_from_items(Some(&repeated)) {
        Err(Error::Validation(m)) => assert_eq!(m, "Resource key declared more than once: db"),
        other => panic!("unexpected: {:?}", other),
    }
    assert!(resource_keys_from_items(Some(&vec![])).unwrap().is_empty());
}

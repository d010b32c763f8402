use bead_rs::git::{
    bucket, commit_readiness, inspect, is_runtime_checkpoint_file, parse_porcelain_z, spawn_failure,
    unavailable, verdict, Buckets, GitReachability, InspectAction, InspectEvent, InspectState,
    StatusEntry,
};

fn entry(x: char, y: char, path: &str) -> StatusEntry {
    (x as u8, y as u8, path.to_string())
}

fn strings(items: &[&str]) -> Vec<String> {
    items.iter().map(|s| s.to_string()).collect()
}

#[test]
fn porcelain_parses_mixed_records() {
    let raw = b" M a\0A  b\0?? c\0R  d\0d-old\0";
    let parsed = parse_porcelain_z(raw);
    assert_eq!(
        parsed,
        vec![
            entry(' ', 'M', "a"),
            entry('A', ' ', "b"),
            entry('?', '?', "c"),
            entry('R', ' ', "d"),
        ]
    );
}

#[test]
fn porcelain_parses_empty_and_unterminated_output() {
    assert!(parse_porcelain_z(b"").is_empty());
    assert!(parse_porcelain_z(b"\0\0").is_empty());
    assert_eq!(parse_porcelain_z(b"?? x"), vec![entry('?', '?', "x")]);
    assert_eq!(parse_porcelain_z(b"??\0M  ok\0").len(), 1);
    assert!(parse_porcelain_z(b"XYno-space\0").is_empty());
}

#[test]
fn buckets_split_untracked_from_ignored() {
    let entries = vec![
        entry('?', '?', ".beads/checkpoint/current.json"),
        entry('?', '?', ".beads/checkpoint/objects/abc.jsonl"),
    ];
    let in_index: Vec<String> = Vec::new();
    let ignored = strings(&[".beads/checkpoint/current.json"]);
    let buckets = bucket(&entries, &in_index, &ignored, &Vec::new());
    assert_eq!(buckets.ignored, strings(&[".beads/checkpoint/current.json"]));
    assert_eq!(buckets.untracked, strings(&[".beads/checkpoint/objects/abc.jsonl"]));
    assert_eq!(verdict(&buckets), "ignored");
}

#[test]
fn invisible_files_are_asked_not_assumed() {
    let invisible = strings(&[".beads/checkpoint/current.json", ".beads/checkpoint/forensic.jsonl"]);
    let ignored = invisible.clone();
    let buckets = bucket(&Vec::new(), &Vec::new(), &ignored, &invisible);
    assert_eq!(buckets.ignored.len(), 2);
    assert!(buckets.committed.is_empty());
    assert_eq!(verdict(&buckets), "ignored");

    let buckets = bucket(&Vec::new(), &Vec::new(), &Vec::new(), &invisible);
    assert_eq!(buckets.untracked.len(), 2);
    assert_eq!(verdict(&buckets), "untracked");
}

#[test]
fn buckets_name_staged_unstaged_and_committed() {
    let entries = vec![
        entry('A', ' ', ".beads/checkpoint/objects/new.jsonl"),
        entry(' ', 'M', ".beads/checkpoint/current.json"),
    ];
    let in_index = strings(&[".beads/checkpoint/current.json", ".beads/checkpoint/forensic.jsonl"]);
    let buckets = bucket(&entries, &in_index, &Vec::new(), &Vec::new());
    assert_eq!(buckets.staged, strings(&[".beads/checkpoint/objects/new.jsonl"]));
    assert_eq!(buckets.unstaged, strings(&[".beads/checkpoint/current.json"]));
    assert_eq!(buckets.committed, strings(&[".beads/checkpoint/forensic.jsonl"]));
    assert_eq!(verdict(&buckets), "staged");
}

#[test]
fn staged_then_modified_lands_in_both_buckets() {
    let entries = vec![entry('M', 'M', ".beads/checkpoint/current.json")];
    let in_index = strings(&[".beads/checkpoint/current.json"]);
    let buckets = bucket(&entries, &in_index, &Vec::new(), &Vec::new());
    assert!(buckets.staged.contains(&".beads/checkpoint/current.json".to_string()));
    assert!(buckets.unstaged.contains(&".beads/checkpoint/current.json".to_string()));
    assert!(buckets.committed.is_empty());
    assert_eq!(verdict(&buckets), "staged");
}

#[test]
fn worktree_deletion_is_unstaged_pending() {
    let entries = vec![entry(' ', 'D', ".beads/checkpoint/current.json")];
    let in_index = strings(&[".beads/checkpoint/current.json"]);
    let buckets = bucket(&entries, &in_index, &Vec::new(), &Vec::new());
    assert!(buckets.unstaged.contains(&".beads/checkpoint/current.json".to_string()));
    assert!(buckets.committed.is_empty());
    assert_eq!(verdict(&buckets), "unstaged");
}

#[test]
fn verdict_ranks_least_progressed_bucket() {
    let mut buckets = Buckets::new();
    buckets.committed.push("a".to_string());
    assert_eq!(verdict(&buckets), "committed");

    buckets.unstaged.push("b".to_string());
    assert_eq!(verdict(&buckets), "unstaged");
    buckets.staged.push("c".to_string());
    assert_eq!(verdict(&buckets), "staged");
    buckets.untracked.push("d".to_string());
    assert_eq!(verdict(&buckets), "untracked");
    buckets.ignored.push("e".to_string());
    assert_eq!(verdict(&buckets), "ignored");
}

#[test]
fn staged_deletion_counts_as_pending() {
    let entries = vec![entry('D', ' ', ".beads/checkpoint/current.json")];
    let in_index = strings(&[".beads/checkpoint/current.json"]);
    let buckets = bucket(&entries, &in_index, &Vec::new(), &Vec::new());
    assert!(buckets.staged.contains(&".beads/checkpoint/current.json".to_string()));
    assert!(buckets.committed.is_empty());
    assert_eq!(verdict(&buckets), "staged");
}

/// Drive the probe through the answers Git and the file walk would give,
/// and return the finished report.
fn probe(status: &[u8], ls_files: &[u8], on_disk: &[&str], ignore_answer: Option<&[u8]>) -> GitReachability {
    let (state, action) = inspect("/ws", InspectState::Start, InspectEvent::Repository(true));
    assert!(matches!(action, InspectAction::RunStatus));
    let (state, action) = inspect("/ws", state, InspectEvent::Output(Ok(status.to_vec())));
    assert!(matches!(action, InspectAction::RunLsFiles));
    let (state, action) = inspect("/ws", state, InspectEvent::Output(Ok(ls_files.to_vec())));
    assert!(matches!(action, InspectAction::ListFiles));
    let (state, action) = inspect("/ws", state, InspectEvent::Files(strings(on_disk)));
    match action {
        InspectAction::Finish(report) => {
            assert!(ignore_answer.is_none(), "check-ignore was skipped");
            report
        }
        InspectAction::CheckIgnore(_) => {
            let answer = ignore_answer.expect("check-ignore was asked");
            let (_, action) = inspect("/ws", state, InspectEvent::Output(Ok(answer.to_vec())));
            match action {
                InspectAction::Finish(report) => report,
                _ => panic!("the probe must finish after check-ignore"),
            }
        }
        _ => panic!("unexpected action after the file walk"),
    }
}

const INDEX_BOTH: &[u8] = b".beads/checkpoint/current.json\0.beads/checkpoint/forensic.jsonl\0";

#[test]
fn repoless_workspace_is_unavailable_without_spawning_git() {
    let (_, action) = inspect("/tmp/ws", InspectState::Start, InspectEvent::Repository(false));
    let report = match action {
        InspectAction::Finish(report) => report,
        _ => panic!("a repo-less workspace must answer at once"),
    };
    assert_eq!(report.status, "unavailable");
    assert!(
        report.unavailable_reason.as_deref().unwrap_or_default().starts_with("no Git repository above"),
        "unexpected reason: {:?}",
        report.unavailable_reason
    );
    assert!(report.committed.is_empty());
    assert!(report.staged.is_empty());
    assert!(report.unstaged.is_empty());
    assert!(report.untracked.is_empty());
    assert!(report.ignored.is_empty());
}

#[test]
fn missing_git_binary_is_unavailable_not_silent() {
    let (state, _) = inspect("/ws", InspectState::Start, InspectEvent::Repository(true));
    let reason = spawn_failure(true, "No such file or directory");
    let (_, action) = inspect("/ws", state, InspectEvent::Output(Err(reason)));
    let report = match action {
        InspectAction::Finish(report) => report,
        _ => panic!("a failed probe must finish"),
    };
    assert_eq!(report.status, "unavailable");
    assert_eq!(report.unavailable_reason.as_deref(), Some("git binary not found on PATH"));
}

#[test]
fn committed_checkpoint_reports_committed() {
    let report = probe(
        b"",
        INDEX_BOTH,
        &[".beads/checkpoint/current.json", ".beads/checkpoint/forensic.jsonl"],
        None,
    );
    assert_eq!(report.status, "committed");
    assert!(report.unavailable_reason.is_none());
    assert_eq!(
        report.committed,
        strings(&[".beads/checkpoint/current.json", ".beads/checkpoint/forensic.jsonl"])
    );
    assert!(report.staged.is_empty());
    assert!(report.unstaged.is_empty());
    assert!(report.untracked.is_empty());
    assert!(report.ignored.is_empty());
}

#[test]
fn staged_files_report_staged() {
    let report = probe(
        b"M  .beads/checkpoint/current.json\0",
        INDEX_BOTH,
        &[".beads/checkpoint/current.json", ".beads/checkpoint/forensic.jsonl"],
        None,
    );
    assert_eq!(report.status, "staged");
    assert_eq!(report.staged, strings(&[".beads/checkpoint/current.json"]));
    assert_eq!(report.committed, strings(&[".beads/checkpoint/forensic.jsonl"]));
    assert!(report.unstaged.is_empty());
    assert!(report.untracked.is_empty());
    assert!(report.ignored.is_empty());
}

#[test]
fn unstaged_files_report_unstaged() {
    let report = probe(
        b" M .beads/checkpoint/forensic.jsonl\0",
        INDEX_BOTH,
        &[".beads/checkpoint/current.json", ".beads/checkpoint/forensic.jsonl"],
        None,
    );
    assert_eq!(report.status, "unstaged");
    assert_eq!(report.unstaged, strings(&[".beads/checkpoint/forensic.jsonl"]));
    assert_eq!(report.committed, strings(&[".beads/checkpoint/current.json"]));
    assert!(report.staged.is_empty());
    assert!(report.untracked.is_empty());
    assert!(report.ignored.is_empty());
}

#[test]
fn untracked_files_report_untracked_by_file_path() {
    let report = probe(
        b"?? .beads/checkpoint/objects/abc.jsonl\0",
        INDEX_BOTH,
        &[
            ".beads/checkpoint/current.json",
            ".beads/checkpoint/forensic.jsonl",
            ".beads/checkpoint/objects/abc.jsonl",
        ],
        None,
    );
    assert_eq!(report.status, "untracked");
    assert_eq!(report.untracked, strings(&[".beads/checkpoint/objects/abc.jsonl"]));
    assert_eq!(report.committed.len(), 2);
    assert!(report.staged.is_empty());
    assert!(report.unstaged.is_empty());
    assert!(report.ignored.is_empty());
}

#[test]
fn ignored_checkpoint_reports_ignored() {
    let report = probe(
        b"",
        b"",
        &[".beads/checkpoint/current.json", ".beads/checkpoint/objects/abc.jsonl"],
        Some(b".beads/checkpoint/current.json\0.beads/checkpoint/objects/abc.jsonl\0"),
    );
    assert_eq!(report.status, "ignored");
    assert_eq!(
        report.ignored,
        strings(&[".beads/checkpoint/current.json", ".beads/checkpoint/objects/abc.jsonl"])
    );
    assert!(report.committed.is_empty());
    assert!(report.staged.is_empty());
    assert!(report.unstaged.is_empty());
    assert!(report.untracked.is_empty());
}

#[test]
fn runtime_lock_file_is_carved_out_of_every_bucket() {
    let report = probe(
        b"",
        INDEX_BOTH,
        &[
            ".beads/checkpoint/current.json",
            ".beads/checkpoint/forensic.jsonl",
            ".beads/checkpoint/publish.lock",
        ],
        None,
    );
    assert_eq!(report.status, "committed");
    assert!(report.staged.is_empty());
    assert!(report.unstaged.is_empty());
    assert!(report.untracked.is_empty());
    assert!(report.ignored.is_empty());
    assert_eq!(report.committed.len(), 2);
}

#[test]
fn runtime_lock_file_shows_nothing_even_when_git_would_classify_it() {
    let report = probe(
        b"?? .beads/checkpoint/publish.lock\0",
        b".beads/checkpoint/current.json\0",
        &[".beads/checkpoint/current.json", ".beads/checkpoint/publish.lock"],
        None,
    );
    assert_eq!(report.status, "committed");
    assert!(report.untracked.is_empty());
}

#[test]
fn runtime_file_predicate_names_only_the_lock() {
    assert!(is_runtime_checkpoint_file(".beads/checkpoint/publish.lock"));
    assert!(is_runtime_checkpoint_file("publish.lock"));
    assert!(!is_runtime_checkpoint_file(".beads/checkpoint/current.json"));
    assert!(!is_runtime_checkpoint_file(".beads/checkpoint/publish.lock.bak"));
}

fn reach(
    committed: &[&str],
    staged: &[&str],
    unstaged: &[&str],
    untracked: &[&str],
    ignored: &[&str],
) -> GitReachability {
    GitReachability {
        status: "committed".to_string(),
        unavailable_reason: None,
        committed: strings(committed),
        staged: strings(staged),
        unstaged: strings(unstaged),
        untracked: strings(untracked),
        ignored: strings(ignored),
    }
}

#[test]
fn gate_case_a_consistent_and_fully_committed_reads_yes() {
    let reach = reach(&[".beads/checkpoint/current.json"], &[], &[], &[], &[]);
    let (ready, reasons) = commit_readiness(true, Vec::new(), Some(&reach));
    assert!(ready);
    assert!(reasons.is_empty());
}

#[test]
fn gate_case_b_anything_uncommitted_is_never_a_bare_yes() {
    let reach = reach(
        &[".beads/checkpoint/current.json"],
        &[],
        &[".beads/checkpoint/forensic.jsonl"],
        &[".beads/checkpoint/objects/abc.jsonl"],
        &[],
    );
    let (ready, reasons) = commit_readiness(true, Vec::new(), Some(&reach));
    assert!(!ready);
    assert_eq!(reasons.len(), 1, "{reasons:?}");
    assert!(
        reasons[0].starts_with("checkpoint not fully committed (Git cannot reach every published file)"),
        "{reasons:?}"
    );
    assert!(reasons[0].contains("unstaged: .beads/checkpoint/forensic.jsonl"), "{reasons:?}");
    assert!(reasons[0].contains("untracked: .beads/checkpoint/objects/abc.jsonl"), "{reasons:?}");
}

#[test]
fn gate_case_b_staged_alone_still_blocks() {
    let reach = reach(&["committed.txt"], &["staged.txt"], &[], &[], &[]);
    let (ready, reasons) = commit_readiness(true, Vec::new(), Some(&reach));
    assert!(!ready);
    assert!(reasons[0].contains("staged: staged.txt"), "{reasons:?}");
}

#[test]
fn gate_case_b_ignored_blocks_the_never_healable_shape() {
    let reach = reach(&[], &[], &[], &[], &[".beads/checkpoint/current.json"]);
    let (ready, reasons) = commit_readiness(true, Vec::new(), Some(&reach));
    assert!(!ready);
    assert!(reasons[0].contains("ignored: .beads/checkpoint/current.json"), "{reasons:?}");
}

#[test]
fn gate_case_c_unavailable_is_explicit_never_a_silent_yes() {
    let reach = unavailable("no Git repository above /tmp/ws".to_string());
    let (ready, reasons) = commit_readiness(true, Vec::new(), Some(&reach));
    assert!(!ready);
    assert_eq!(reasons.len(), 1, "{reasons:?}");
    assert!(
        reasons[0].starts_with("git reachability unavailable: no Git repository above"),
        "{reasons:?}"
    );
}

#[test]
fn gate_none_reachability_passes_the_internals_verdict_through() {
    let (ready, reasons) = commit_readiness(
        false,
        vec!["no checkpoint published (run `bead sync flush-only`)".to_string()],
        None,
    );
    assert!(!ready);
    assert_eq!(
        reasons,
        vec!["no checkpoint published (run `bead sync flush-only`)".to_string()]
    );
}

#[test]
fn gate_fully_committed_leaves_an_internally_not_ready_verdict_alone() {
    let reach = reach(&[".beads/checkpoint/current.json"], &[], &[], &[], &[]);
    let (ready, reasons) = commit_readiness(
        false,
        vec!["root hash mismatch: objects/abc".to_string()],
        Some(&reach),
    );
    assert!(!ready);
    assert_eq!(reasons, vec!["root hash mismatch: objects/abc".to_string()]);
}

#[test]
fn gate_accumulates_behind_existing_internals_reasons() {
    let reach = reach(&[], &[], &[], &[".beads/checkpoint/objects/abc.jsonl"], &[]);
    let (ready, reasons) = commit_readiness(
        false,
        vec!["checkpoint dirty: covered=1, live=2".to_string()],
        Some(&reach),
    );
    assert!(!ready);
    assert_eq!(reasons.len(), 2, "{reasons:?}");
    assert_eq!(reasons[0], "checkpoint dirty: covered=1, live=2");
    assert!(reasons[1].contains("untracked: .beads/checkpoint/objects/abc.jsonl"), "{reasons:?}");
}

#[test]
fn gate_exact_reason_joins_sections_in_bucket_order() {
    let reach = reach(&[], &["s1", "s2"], &["u"], &[], &["i"]);
    let (_, reasons) = commit_readiness(true, Vec::new(), Some(&reach));
    assert_eq!(
        reasons,
        vec![
            "checkpoint not fully committed (Git cannot reach every published file): staged: s1, s2; unstaged: u; ignored: i"
                .to_string()
        ]
    );
}

#[test]
fn a_finished_probe_keeps_its_buckets_apart() {
    let report = probe(
        b" M .beads/checkpoint/forensic.jsonl\0?? .beads/checkpoint/new.jsonl\0",
        INDEX_BOTH,
        &[
            ".beads/checkpoint/current.json",
            ".beads/checkpoint/forensic.jsonl",
            ".beads/checkpoint/new.jsonl",
            ".beads/checkpoint/hidden.jsonl",
        ],
        Some(b".beads/checkpoint/hidden.jsonl\0"),
    );
    assert_eq!(report.status, "ignored");
    assert!(report.unavailable_reason.is_none());
    assert_eq!(report.committed, strings(&[".beads/checkpoint/current.json"]));
    assert_eq!(report.unstaged, strings(&[".beads/checkpoint/forensic.jsonl"]));
    assert_eq!(report.untracked, strings(&[".beads/checkpoint/new.jsonl"]));
    assert_eq!(report.ignored, strings(&[".beads/checkpoint/hidden.jsonl"]));
    for path in &report.committed {
        assert!(!report.staged.contains(path) && !report.unstaged.contains(path));
        assert!(!report.untracked.contains(path) && !report.ignored.contains(path));
    }
    for path in &report.untracked {
        assert!(!report.ignored.contains(path));
    }
}

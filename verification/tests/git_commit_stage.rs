use bead_rs::error::Error;
use bead_rs::git::GitReachability;
use bead_rs::git_commit::{
    assemble_fileset, commit_git_answer, commit_verified_checkpoint, refuse_gates, resolve_message,
    safe_checkpoint_relative_path, CheckpointStatusReport, CommitAction, CommitEvent, CommitState,
    PointerFiles, DEFAULT_COMMIT_MESSAGE,
};
use bead_rs::git_stage::{
    join_path, stage_plan, stage_published_checkpoint, StageAction, StageEvent, StageState,
};

fn strings(items: &[&str]) -> Vec<String> {
    items.iter().map(|s| s.to_string()).collect()
}

#[test]
fn verified_set_spans_both_pointers_the_view_and_the_tombstones() {
    let files = PointerFiles {
        current_referenced: strings(&["current.json", "objects/aaa.jsonl", "objects/bbb.jsonl"]),
        current_deleted: strings(&["objects/gone.jsonl"]),
        previous: Some((
            strings(&["objects/aaa.jsonl", "objects/retained.jsonl"]),
            strings(&["objects/older-gone.jsonl"]),
        )),
        forensic_view: true,
    };
    let verified = assemble_fileset(&files).ok().expect("every path is safe");
    for expected in [
        "current.json",
        "previous.json",
        "objects/aaa.jsonl",
        "objects/bbb.jsonl",
        "objects/retained.jsonl",
        "forensic.jsonl",
    ] {
        assert!(
            verified.present.contains(&expected.to_string()),
            "{} missing from the verified set: {:?}",
            expected,
            verified.present
        );
    }
    for expected in ["objects/gone.jsonl", "objects/older-gone.jsonl"] {
        assert!(
            verified.deleted.contains(&expected.to_string()),
            "{} missing from the tombstone set: {:?}",
            expected,
            verified.deleted
        );
    }
    assert!(
        !verified.present.iter().any(|p| p.contains("publish.lock")),
        "runtime file leaked into the verified set: {:?}",
        verified.present
    );
    let mut sorted = verified.present.clone();
    sorted.sort();
    sorted.dedup();
    assert_eq!(sorted, verified.present);
}

#[test]
fn verified_set_drops_runtime_files_named_by_a_pointer() {
    let files = PointerFiles {
        current_referenced: strings(&["current.json", "publish.lock"]),
        current_deleted: strings(&["publish.lock"]),
        previous: None,
        forensic_view: false,
    };
    let verified = assemble_fileset(&files).ok().expect("every path is safe");
    assert_eq!(verified.present, strings(&["current.json"]));
    assert!(verified.deleted.is_empty());
}

#[test]
fn a_pointer_path_escaping_the_checkpoint_refuses() {
    let files = PointerFiles {
        current_referenced: strings(&["current.json", "objects/aaa.jsonl", "../../../etc/passwd"]),
        current_deleted: Vec::new(),
        previous: None,
        forensic_view: false,
    };
    let err = assemble_fileset(&files).err().expect("an escaping path must refuse the commit");
    assert!(err.message().contains("escapes"), "{}", err.message());
    assert!(err.message().contains("\"../../../etc/passwd\""), "{}", err.message());
    assert_eq!(err.exit_code(), Error::Integrity(String::new()).exit_code());
}

#[test]
fn message_resolution_rejects_empty_and_names_the_generation_by_default() {
    assert!(resolve_message(Some("  "), None).is_err());
    assert_eq!(resolve_message(Some("custom"), None).unwrap(), "custom");
    assert_eq!(
        resolve_message(None, Some("abc123")).unwrap(),
        "chore(beads): checkpoint abc123 [bead-rs]"
    );
    assert_eq!(resolve_message(None, None).unwrap(), DEFAULT_COMMIT_MESSAGE);
}

#[test]
fn safe_paths_reject_traversal_absolute_and_backslash() {
    assert!(safe_checkpoint_relative_path("objects/ab.jsonl"));
    assert!(safe_checkpoint_relative_path("current.json"));
    assert!(!safe_checkpoint_relative_path("../escape"));
    assert!(!safe_checkpoint_relative_path("/absolute"));
    assert!(!safe_checkpoint_relative_path("objects/a\\b.jsonl"));
    assert!(!safe_checkpoint_relative_path("objects//double.jsonl"));
}

fn ready_report() -> CheckpointStatusReport {
    CheckpointStatusReport {
        checkpoint_present: true,
        relationship: "in-sync".to_string(),
        not_ready_reasons: Vec::new(),
        covered_sequence: Some(7),
        live_sequence: 7,
        dirty: false,
        checkpoint_consistent: true,
        git_reachability: Some(GitReachability {
            status: "committed".to_string(),
            unavailable_reason: None,
            committed: strings(&[".beads/checkpoint/current.json"]),
            staged: Vec::new(),
            unstaged: Vec::new(),
            untracked: Vec::new(),
            ignored: Vec::new(),
        }),
        generation_id: Some("gen-1".to_string()),
    }
}

#[test]
fn gates_pass_a_ready_checkpoint_and_name_each_refusal() {
    assert!(refuse_gates(&ready_report()).is_ok());

    let mut absent = ready_report();
    absent.checkpoint_present = false;
    assert_eq!(
        refuse_gates(&absent).unwrap_err().message(),
        "sync commit refused: no checkpoint published - run `bead sync flush-only` first"
    );

    let mut dirty = ready_report();
    dirty.dirty = true;
    dirty.covered_sequence = Some(3);
    dirty.live_sequence = 5;
    assert_eq!(
        refuse_gates(&dirty).unwrap_err().message(),
        "sync commit refused: the checkpoint is dirty (covered 3 < live 5) and committing now would record a stale checkpoint - run `bead sync flush-only` first"
    );

    let mut remote = ready_report();
    remote.relationship = "remote-advanced".to_string();
    remote.dirty = true;
    let err = refuse_gates(&remote).unwrap_err();
    assert!(matches!(err, Error::Conflict(_)));
    assert!(err.message().starts_with("sync commit refused: the checkpoint is remote-advanced (covered 7 > live 7)"));

    let mut ignored = ready_report();
    if let Some(g) = ignored.git_reachability.as_mut() {
        g.ignored = strings(&["a", "b"]);
    }
    let err = refuse_gates(&ignored).unwrap_err();
    assert!(matches!(err, Error::Validation(_)));
    assert!(err.message().contains(": a, b - amend the ignore rule"));

    let mut no_probe = ready_report();
    no_probe.git_reachability = None;
    assert!(refuse_gates(&no_probe).unwrap_err().message().contains("no Git reachability verdict"));
}

#[test]
fn git_answers_carry_output_or_the_trimmed_error() {
    assert_eq!(commit_git_answer("add", Some(0), b"out".to_vec(), b"").unwrap(), b"out".to_vec());
    assert_eq!(
        commit_git_answer("add", Some(1), Vec::new(), b"  fatal: nope \n").unwrap_err().message(),
        "git add failed: fatal: nope"
    );
    assert_eq!(
        commit_git_answer("commit", Some(128), Vec::new(), b"").unwrap_err().message(),
        "git commit failed with exit code 128"
    );
    assert_eq!(
        commit_git_answer("commit", None, Vec::new(), b" ").unwrap_err().message(),
        "git commit failed with exit code -1"
    );
}

#[test]
fn commit_outside_a_repository_refuses() {
    let (_, action) = commit_verified_checkpoint(
        "/ws",
        "/ws/.beads/checkpoint",
        None,
        false,
        CommitState::new(),
        CommitEvent::Repository(false),
    );
    match action {
        CommitAction::Done(Err(e)) => assert!(e.message().contains("no Git repository above /ws")),
        _ => panic!("a repo-less workspace must refuse"),
    }
}

#[test]
fn commit_detached_head_refuses() {
    let (state, action) = commit_verified_checkpoint(
        "/ws",
        "/ws/.beads/checkpoint",
        None,
        false,
        CommitState::new(),
        CommitEvent::Repository(true),
    );
    match &action {
        CommitAction::Git(args) => assert_eq!(args, &strings(&["symbolic-ref", "-q", "--short", "HEAD"])),
        _ => panic!("the branch is asked first"),
    }
    let (_, action) = commit_verified_checkpoint(
        "/ws",
        "/ws/.beads/checkpoint",
        None,
        false,
        state,
        CommitEvent::Git(Ok(b"\n".to_vec())),
    );
    assert!(matches!(action, CommitAction::Done(Err(Error::CliUsage(_)))));
}

#[test]
fn commit_passes_the_gates_before_reading_the_pointers() {
    let root = "/ws";
    let dir = "/ws/.beads/checkpoint";
    let (state, _) =
        commit_verified_checkpoint(root, dir, None, true, CommitState::new(), CommitEvent::Repository(true));
    let (state, action) =
        commit_verified_checkpoint(root, dir, None, true, state, CommitEvent::Git(Ok(b"main\n".to_vec())));
    assert!(matches!(action, CommitAction::ReadStatus));
    assert_eq!(state.branch, "main");
    let mut dirty = ready_report();
    dirty.dirty = true;
    let (_, action) = commit_verified_checkpoint(root, dir, None, true, state, CommitEvent::Status(Ok(dirty)));
    match action {
        CommitAction::Done(Err(e)) => assert!(e.message().contains("the checkpoint is dirty")),
        _ => panic!("a dirty checkpoint must refuse"),
    }
}

#[test]
fn join_path_inserts_one_separator() {
    assert_eq!(join_path("/ws", "a/b"), "/ws/a/b");
    assert_eq!(join_path("/ws/", "a"), "/ws/a");
    assert_eq!(join_path("/ws", "/abs"), "/abs");
}

#[test]
fn plan_maps_candidates_to_workspace_relative_pathspecs() {
    let plan = stage_plan(
        "/ws",
        "/ws/.beads/checkpoint",
        &strings(&["current.json", "objects/ab12.jsonl"]),
        &vec![true, true],
        &Vec::new(),
    )
    .unwrap();
    assert_eq!(
        plan.additions,
        strings(&[".beads/checkpoint/current.json", ".beads/checkpoint/objects/ab12.jsonl"])
    );
    assert!(plan.deletions.is_empty());
}

#[test]
fn plan_carves_runtime_files_out_of_both_inputs() {
    let plan = stage_plan(
        "/ws",
        "/ws/.beads/checkpoint",
        &strings(&["publish.lock", "current.json"]),
        &vec![true, true],
        &strings(&["publish.lock"]),
    )
    .unwrap();
    assert_eq!(plan.additions, strings(&[".beads/checkpoint/current.json"]));
    assert!(plan.deletions.is_empty());
}

#[test]
fn plan_skips_addition_candidates_that_are_not_on_disk() {
    let plan = stage_plan(
        "/ws",
        "/ws/.beads/checkpoint",
        &strings(&["current.json", "objects/gone-before-stage.jsonl"]),
        &vec![true, false],
        &Vec::new(),
    )
    .unwrap();
    assert_eq!(plan.additions, strings(&[".beads/checkpoint/current.json"]));
}

#[test]
fn plan_keeps_deletion_candidates_regardless_of_disk_state() {
    let plan = stage_plan(
        "/ws",
        "/ws/.beads/checkpoint",
        &Vec::new(),
        &Vec::new(),
        &strings(&["objects/tombstoned.jsonl"]),
    )
    .unwrap();
    assert!(plan.additions.is_empty());
    assert_eq!(plan.deletions, strings(&[".beads/checkpoint/objects/tombstoned.jsonl"]));
}

#[test]
fn plan_rejects_a_checkpoint_dir_outside_the_workspace() {
    let err = stage_plan(
        "/ws",
        "/elsewhere/.beads/checkpoint",
        &strings(&["current.json"]),
        &vec![true],
        &Vec::new(),
    )
    .err()
    .expect("a foreign checkpoint dir must be rejected");
    assert!(err.contains("not inside workspace"), "{}", err);
}

#[test]
fn repoless_workspace_is_a_noop_without_spawning_git() {
    let present = strings(&["current.json"]);
    let (_, action) = stage_published_checkpoint(
        "/ws",
        "/ws/.beads/checkpoint",
        &present,
        &Vec::new(),
        StageState::Start,
        StageEvent::Repository(false),
    );
    match action {
        StageAction::Done(Ok(staged)) => assert!(staged.is_empty()),
        _ => panic!("a repo-less workspace stages nothing"),
    }
}

#[test]
fn staging_removal_only_for_tracked_tombstones() {
    let root = "/ws";
    let dir = "/ws/.beads/checkpoint";
    let present = strings(&["current.json", "objects/kept.jsonl"]);
    let deleted = strings(&["objects/tombstoned.jsonl", "objects/never-in_index.jsonl"]);
    let (state, action) =
        stage_published_checkpoint(root, dir, &present, &deleted, StageState::Start, StageEvent::Repository(true));
    assert!(matches!(action, StageAction::CheckFiles));
    let (state, action) =
        stage_published_checkpoint(root, dir, &present, &deleted, state, StageEvent::OnDisk(vec![true, true]));
    match &action {
        StageAction::ListIndexed(asked) => assert_eq!(
            asked,
            &strings(&[
                ".beads/checkpoint/objects/tombstoned.jsonl",
                ".beads/checkpoint/objects/never-in_index.jsonl"
            ])
        ),
        _ => panic!("in_index tombstones are asked for"),
    }
    let (state, action) = stage_published_checkpoint(
        root,
        dir,
        &present,
        &deleted,
        state,
        StageEvent::Git(Ok(b".beads/checkpoint/objects/tombstoned.jsonl\0".to_vec())),
    );
    let specs = match &action {
        StageAction::Add(specs) => specs.clone(),
        _ => panic!("git add follows"),
    };
    assert!(specs.contains(&".beads/checkpoint/objects/tombstoned.jsonl".to_string()), "pathspecs: {:?}", specs);
    assert!(!specs.iter().any(|p| p.contains("never-in_index")), "untracked deletion leaked into the index: {:?}", specs);
    let (_, action) =
        stage_published_checkpoint(root, dir, &present, &deleted, state, StageEvent::Git(Ok(Vec::new())));
    match action {
        StageAction::Done(Ok(staged)) => assert_eq!(staged, specs),
        _ => panic!("staging ends with the pathspecs"),
    }
}

#[test]
fn missing_git_binary_is_an_error_reason_not_a_crash() {
    let present = strings(&["current.json"]);
    let (state, _) = stage_published_checkpoint(
        "/ws",
        "/ws/.beads/checkpoint",
        &present,
        &Vec::new(),
        StageState::Start,
        StageEvent::Repository(true),
    );
    let (state, action) = stage_published_checkpoint(
        "/ws",
        "/ws/.beads/checkpoint",
        &present,
        &Vec::new(),
        state,
        StageEvent::OnDisk(vec![true]),
    );
    assert!(matches!(action, StageAction::Add(_)));
    let (_, action) = stage_published_checkpoint(
        "/ws",
        "/ws/.beads/checkpoint",
        &present,
        &Vec::new(),
        state,
        StageEvent::Git(Err("git binary not found on PATH".to_string())),
    );
    match action {
        StageAction::Done(Err(reason)) => assert!(reason.contains("git"), "a missing binary must be an error reason"),
        _ => panic!("a failed git add must end with its reason"),
    }
}

const ROOT: &str = "/ws";
const DIR: &str = "/ws/.beads/checkpoint";
const TOMBSTONE: &str = ".beads/checkpoint/objects/gone.jsonl";

fn step(dry_run: bool, state: CommitState, event: CommitEvent) -> (CommitState, CommitAction) {
    commit_verified_checkpoint(ROOT, DIR, None, dry_run, state, event)
}

fn expect_git(action: &CommitAction) -> Vec<String> {
    match action {
        CommitAction::Git(args) => args.clone(),
        other => panic!("expected a Git invocation, got {:?}", other),
    }
}

/// Drives one invocation up to the answer of which verified files are on
/// disk: one present object and one tombstone.
fn through_files(dry_run: bool) -> (CommitState, CommitAction) {
    let (state, _) = step(dry_run, CommitState::new(), CommitEvent::Repository(true));
    let (state, _) = step(dry_run, state, CommitEvent::Git(Ok(b"main\n".to_vec())));
    let (state, _) = step(dry_run, state, CommitEvent::Status(Ok(ready_report())));
    let files = PointerFiles {
        current_referenced: strings(&["current.json", "objects/a.jsonl"]),
        current_deleted: strings(&["objects/gone.jsonl"]),
        previous: None,
        forensic_view: false,
    };
    let (state, action) = step(dry_run, state, CommitEvent::Pointers(Ok(files)));
    assert!(matches!(action, CommitAction::CheckFiles(_)));
    step(dry_run, state, CommitEvent::OnDisk(vec![true, true]))
}

fn sorted_pathspec() -> Vec<String> {
    strings(&[".beads/checkpoint/current.json", ".beads/checkpoint/objects/a.jsonl", TOMBSTONE])
}

#[test]
fn dry_run_reports_tracked_tombstones_workspace_relative() {
    let (state, action) = through_files(true);
    assert_eq!(expect_git(&action), strings(&["ls-files", "-z", "--", TOMBSTONE]));
    let (state, action) = step(true, state, CommitEvent::Git(Ok(format!("{}\0", TOMBSTONE).into_bytes())));
    let mut expected = strings(&["status", "--porcelain=v1", "-z", "--"]);
    expected.extend(sorted_pathspec());
    assert_eq!(expect_git(&action), expected);
    let (_, action) = step(true, state, CommitEvent::Git(Ok(b" D .beads/checkpoint/objects/gone.jsonl\0".to_vec())));
    match action {
        CommitAction::Done(Ok(report)) => {
            assert!(report.dry_run);
            assert!(report.committed);
            assert_eq!(report.removed, strings(&[TOMBSTONE]));
            assert_eq!(report.staged, strings(&[".beads/checkpoint/current.json", ".beads/checkpoint/objects/a.jsonl"]));
            assert_eq!(report.commit, None);
        }
        other => panic!("expected a report, got {:?}", other),
    }
}

/// Drives a real commit to the point where the commit is asked for.
fn through_commit_request() -> (CommitState, Vec<u8>) {
    let (state, action) = through_files(false);
    assert_eq!(expect_git(&action), strings(&["ls-files", "-z", "--", TOMBSTONE]));
    let (state, action) = step(false, state, CommitEvent::Git(Ok(format!("{}\0", TOMBSTONE).into_bytes())));
    let mut expected = strings(&["ls-files", "-s", "-z", "--"]);
    expected.extend(sorted_pathspec());
    assert_eq!(expect_git(&action), expected, "the index entries are read before staging");
    let snapshot = b"100644 1111111111111111111111111111111111111111 0\t.beads/checkpoint/current.json\0".to_vec();
    let (state, action) = step(false, state, CommitEvent::Git(Ok(snapshot.clone())));
    match &action {
        CommitAction::Stage(present, deleted) => {
            assert_eq!(present, &strings(&["current.json", "objects/a.jsonl"]));
            assert_eq!(deleted, &strings(&["objects/gone.jsonl"]));
        }
        other => panic!("expected staging, got {:?}", other),
    }
    let (state, action) = step(false, state, CommitEvent::Staged(Ok(sorted_pathspec())));
    let mut expected = strings(&["status", "--porcelain=v1", "-z", "--"]);
    expected.extend(sorted_pathspec());
    assert_eq!(expect_git(&action), expected);
    let (state, action) = step(false, state, CommitEvent::Git(Ok(b"M  .beads/checkpoint/current.json\0".to_vec())));
    let mut expected = strings(&["commit", "-m", "chore(beads): checkpoint gen-1 [bead-rs]", "--"]);
    expected.extend(sorted_pathspec());
    assert_eq!(expect_git(&action), expected);
    (state, snapshot)
}

#[test]
fn a_failed_commit_puts_the_index_back_before_reporting() {
    let (state, snapshot) = through_commit_request();
    let failure = Error::Internal("git commit failed: hook refused".to_string());
    let (state, action) = step(false, state, CommitEvent::Git(Err(failure)));
    match &action {
        CommitAction::GitWithInput(args, input) => {
            assert_eq!(args, &strings(&["update-index", "-z", "--index-info"]));
            let mut expected = Vec::new();
            for p in sorted_pathspec() {
                expected.extend(format!("0 0000000000000000000000000000000000000000\t{}\0", p).into_bytes());
            }
            expected.extend(snapshot);
            assert_eq!(input, &expected);
        }
        other => panic!("expected the index to be restored, got {:?}", other),
    }
    let (_, action) = step(false, state, CommitEvent::Git(Ok(Vec::new())));
    match action {
        CommitAction::Done(Err(e)) => assert_eq!(e.message(), "git commit failed: hook refused"),
        other => panic!("expected the commit failure, got {:?}", other),
    }
}

#[test]
fn a_failed_staging_puts_the_index_back_before_refusing() {
    let (state, _) = through_files(false);
    let (state, _) = step(false, state, CommitEvent::Git(Ok(Vec::new())));
    let (state, _) = step(false, state, CommitEvent::Git(Ok(Vec::new())));
    let (state, action) = step(false, state, CommitEvent::Staged(Err("git add: index.lock exists".to_string())));
    assert!(matches!(action, CommitAction::GitWithInput(_, _)));
    let (_, action) = step(false, state, CommitEvent::Git(Err(Error::Internal("restore failed".to_string()))));
    match action {
        CommitAction::Done(Err(e)) => {
            assert!(matches!(e, Error::Integrity(_)));
            assert!(e.message().contains("staging the verified checkpoint fileset failed: git add: index.lock exists"));
        }
        other => panic!("expected the staging refusal, got {:?}", other),
    }
}

#[test]
fn a_made_commit_succeeds_even_when_its_hash_cannot_be_read() {
    let (state, _) = through_commit_request();
    let (state, action) = step(false, state, CommitEvent::Git(Ok(Vec::new())));
    assert_eq!(expect_git(&action), strings(&["rev-parse", "HEAD"]));
    let (_, action) = step(false, state, CommitEvent::Git(Err(Error::Internal("rev-parse failed".to_string()))));
    match action {
        CommitAction::Done(Ok(report)) => {
            assert!(report.committed);
            assert_eq!(report.commit, None);
            assert_eq!(report.removed, strings(&[TOMBSTONE]));
            assert_eq!(report.staged, strings(&[".beads/checkpoint/current.json", ".beads/checkpoint/objects/a.jsonl"]));
        }
        other => panic!("expected a committed report, got {:?}", other),
    }
}

#[test]
fn a_commit_reports_the_new_hash() {
    let (state, _) = through_commit_request();
    let (state, _) = step(false, state, CommitEvent::Git(Ok(Vec::new())));
    let (_, action) = step(false, state, CommitEvent::Git(Ok(b"abc123\n".to_vec())));
    match action {
        CommitAction::Done(Ok(report)) => assert_eq!(report.commit, Some("abc123".to_string())),
        other => panic!("expected a committed report, got {:?}", other),
    }
}

//! Staging a publication's verified checkpoint fileset into the Git index:
//! the workspace-relative pathspecs it hands to `git add`, and the order of
//! the steps. Probing the disk and running Git happen outside this crate;
//! staging is best-effort and never commits.
use vstd::prelude::*;
use crate::git::{copy_paths, ignore_answer, is_runtime_checkpoint_file, is_runtime_path, stderr_line, stderr_line_of, answer_view};
use crate::text::{cat, cat3, chars_of, i64_text, int_text, owned, push_str, split_seq, str_eq, sv, lossy_text};

verus! {

broadcast use vstd::string::group_string_axioms;

/// `Path::strip_prefix`, as text: `path` relative to `base` when `base` is
/// a leading run of its components.
pub uninterp spec fn path_relative(path: Seq<char>, base: Seq<char>) -> Option<Seq<char>>;

/// `Path::new(path).strip_prefix(base)`, rendered with `to_string_lossy`.
/// Component matching is named by `path_relative`, not spelled out.
#[verifier::external_body]
pub(crate) fn strip_path_prefix(path: &str, base: &str) -> (r: Option<String>)
    ensures
        match r {
            Some(rel) => path_relative(path@, base@) == Some(rel@),
            None => path_relative(path@, base@) is None,
        },
{
    match std::path::Path::new(path).strip_prefix(base) {
        Ok(rel) => Some(rel.to_string_lossy().into_owned()),
        Err(_) => None,
    }
}

/// `Path::join` on Unix: an absolute `rel` replaces `base`; otherwise a
/// separator is put between them unless `base` is empty or ends in one.
pub open spec fn joined(base: Seq<char>, rel: Seq<char>) -> Seq<char> {
    if rel.len() > 0 && rel[0] == '/' {
        rel
    } else if base.len() == 0 || base.last() == '/' {
        base + rel
    } else {
        base + seq!['/'] + rel
    }
}

/// `base.join(rel)` as text.
pub fn join_path(base: &str, rel: &str) -> (r: String)
    ensures
        r@ == joined(base@, rel@),
{
    let b = chars_of(base);
    let c = chars_of(rel);
    if c.len() > 0 && c[0] == '/' {
        return owned(rel);
    }
    let mut out = owned(base);
    if !(b.len() == 0 || b[b.len() - 1] == '/') {
        push_str(&mut out, "/");
        proof {
            reveal_strlit("/");
            assert("/"@ =~= seq!['/']);
        }
    }
    push_str(&mut out, rel);
    out
}

/// The candidates kept, each joined onto `rel`: a candidate stays when it
/// is not runtime metadata and its flag is set.
pub open spec fn kept_joined(rel: Seq<char>, paths: Seq<Seq<char>>, flags: Seq<bool>) -> Seq<Seq<char>>
    decreases paths.len(),
{
    if paths.len() == 0 {
        Seq::empty()
    } else {
        let prev = kept_joined(rel, paths.drop_last(), flags);
        if !is_runtime_path(paths.last()) && flags[paths.len() - 1] {
            prev.push(joined(rel, paths.last()))
        } else {
            prev
        }
    }
}

/// Every flag set, for a list of `n` candidates.
pub open spec fn all_set(n: nat) -> Seq<bool> {
    Seq::new(n, |i: int| true)
}

/// The workspace-root-relative pathspecs one staging attempt uses.
#[derive(Debug, Clone)]
pub struct StagePlan {
    /// Published files on disk, to add.
    pub additions: Vec<String>,
    /// Tombstoned paths, to stage as removals where Git tracks them.
    pub deletions: Vec<String>,
}

/// The refusal when the checkpoint directory is outside the workspace.
pub open spec fn outside_workspace(dir: Seq<char>, root: Seq<char>) -> Seq<char> {
    "checkpoint directory "@ + dir + " is not inside workspace "@ + root
}

fn keep_joined(rel: &str, paths: &Vec<String>, flags: &Vec<bool>) -> (r: Vec<String>)
    requires
        flags@.len() == paths@.len(),
    ensures
        sv(r@) == kept_joined(rel@, sv(paths@), flags@),
{
    let mut out: Vec<String> = Vec::new();
    let mut i: usize = 0;
    while i < paths.len()
        invariant
            i <= paths@.len(),
            flags@.len() == paths@.len(),
            sv(out@) == kept_joined(rel@, sv(paths@.take(i as int)), flags@),
        decreases paths@.len() - i,
    {
        proof {
            assert(sv(paths@.take(i + 1)).drop_last() =~= sv(paths@.take(i as int)));
            assert(sv(paths@.take(i + 1)).last() == paths@[i as int]@);
        }
        if !is_runtime_checkpoint_file(paths[i].as_str()) && flags[i] {
            let p = join_path(rel, paths[i].as_str());
            let ghost before = sv(out@);
            out.push(p);
            assert(sv(out@) =~= before.push(p@));
        }
        i = i + 1;
    }
    assert(paths@.take(paths@.len() as int) =~= paths@);
    out
}

/// Resolve the staging set against the workspace: candidates become
/// pathspecs relative to the workspace root, runtime files are carved out
/// of both lists, and only candidates present on disk are added.
/// `on_disk[i]` tells whether `present[i]` is a file in the checkpoint
/// directory. Deletions are kept whatever the disk holds.
pub fn stage_plan(
    workspace_root: &str,
    checkpoint_dir: &str,
    present: &Vec<String>,
    on_disk: &Vec<bool>,
    deleted: &Vec<String>,
) -> (r: Result<StagePlan, String>)
    requires
        on_disk@.len() == present@.len(),
    ensures
        match path_relative(checkpoint_dir@, workspace_root@) {
            None => r matches Err(m) && m@ == outside_workspace(checkpoint_dir@, workspace_root@),
            Some(rel) => r matches Ok(plan) && sv(plan.additions@) == kept_joined(rel, sv(present@), on_disk@)
                && sv(plan.deletions@) == kept_joined(rel, sv(deleted@), all_set(deleted@.len())),
        },
{
    let rel = match strip_path_prefix(checkpoint_dir, workspace_root) {
        Some(rel) => rel,
        None => {
            let head = cat3("checkpoint directory ", checkpoint_dir, " is not inside workspace ");
            return Err(cat(head.as_str(), workspace_root));
        },
    };
    let additions = keep_joined(rel.as_str(), present, on_disk);
    let mut every: Vec<bool> = Vec::new();
    let mut i: usize = 0;
    while i < deleted.len()
        invariant
            i <= deleted@.len(),
            every@ == all_set(i as nat),
        decreases deleted@.len() - i,
    {
        every.push(true);
        assert(every@ =~= all_set((i + 1) as nat));
        i = i + 1;
    }
    let deletions = keep_joined(rel.as_str(), deleted, &every);
    Ok(StagePlan { additions, deletions })
}

/// What a finished staging Git invocation answers: its output on success,
/// otherwise Git's first error line, or the exit code when Git said
/// nothing (-1 when a signal ended it).
pub open spec fn stage_answer_spec(subcommand: Seq<char>, code: Option<i32>, stdout: Seq<u8>, stderr: Seq<u8>) -> Result<Seq<u8>, Seq<char>> {
    if code == Some(0i32) {
        Ok(stdout)
    } else if stderr_line(stderr).len() == 0 {
        Err("git "@ + subcommand + " failed with exit code "@ + int_text(
            match code {
                Some(c) => c as int,
                None => -1,
            },
        ))
    } else {
        Err("git "@ + subcommand + " failed: "@ + stderr_line(stderr))
    }
}

/// Decide what one staging Git invocation answered.
pub fn stage_git_answer(subcommand: &str, code: Option<i32>, stdout: Vec<u8>, stderr: &[u8]) -> (r: Result<Vec<u8>, String>)
    ensures
        answer_view(r) == stage_answer_spec(subcommand@, code, stdout@, stderr@),
{
    if code == Some(0i32) {
        return Ok(stdout);
    }
    let line = stderr_line_of(stderr);
    proof {
        reveal_strlit("");
        assert(line@.len() == 0 ==> line@ =~= ""@);
    }
    if str_eq(line.as_str(), "") {
        let n: i64 = match code {
            Some(c) => c as i64,
            None => -1,
        };
        let head = cat3("git ", subcommand, " failed with exit code ");
        let t = i64_text(n);
        Err(cat(head.as_str(), t.as_str()))
    } else {
        let head = cat3("git ", subcommand, " failed: ");
        Err(cat(head.as_str(), line.as_str()))
    }
}

/// Where a staging attempt stands between its steps.
#[derive(Debug, Clone)]
pub enum StageState {
    /// Nothing asked yet.
    Start,
    /// Inside a repository; waiting for which candidates are on disk.
    Enclosed,
    /// Waiting for `git ls-files` about the deletions, with the additions.
    Listing(Vec<String>),
    /// Waiting for `git add` of these pathspecs.
    Adding(Vec<String>),
}

/// What the caller observed.
#[derive(Debug)]
pub enum StageEvent {
    /// Whether a `.git` entry exists at or above the workspace root.
    Repository(bool),
    /// For each `present` candidate, whether it is a file on disk.
    OnDisk(Vec<bool>),
    /// The answer of the Git invocation last asked for.
    Git(Result<Vec<u8>, String>),
}

/// What the caller does next.
#[derive(Debug)]
pub enum StageAction {
    /// Report which `present` candidates are files in the checkpoint directory.
    CheckFiles,
    /// `git ls-files -z -- <paths>`.
    ListIndexed(Vec<String>),
    /// `git add -- <pathspecs>`.
    Add(Vec<String>),
    /// The attempt is over: the pathspecs staged, or why staging failed.
    Done(Result<Vec<String>, String>),
}

/// Whether the event is the one the state waits for.
pub open spec fn stage_expects(state: StageState, event: StageEvent, present_len: nat) -> bool {
    match state {
        StageState::Start => event is Repository,
        StageState::Enclosed => event matches StageEvent::OnDisk(f) && f@.len() == present_len,
        _ => event is Git,
    }
}

/// The pathspecs, unless there are none: then the attempt is done.
pub open spec fn add_or_done(specs: Seq<Seq<char>>, next: (StageState, StageAction)) -> bool {
    if specs.len() == 0 {
        next.1 matches StageAction::Done(Ok(v)) && v@.len() == 0
    } else {
        &&& next.1 matches StageAction::Add(a)
        &&& sv(a@) == specs
        &&& next.0 matches StageState::Adding(b)
        &&& sv(b@) == specs
    }
}

pub open spec fn done_with_error(next: (StageState, StageAction), m: Seq<char>) -> bool {
    next.1 matches StageAction::Done(Err(e)) && e@ == m
}

fn next_add(specs: Vec<String>) -> (r: (StageState, StageAction))
    ensures
        add_or_done(sv(specs@), r),
{
    if specs.len() == 0 {
        (StageState::Start, StageAction::Done(Ok(specs)))
    } else {
        let asked = copy_paths(&specs);
        (StageState::Adding(specs), StageAction::Add(asked))
    }
}

/// One step of staging a publication's fileset. Outside any repository it
/// does nothing; a plan failure or a failed Git invocation ends the attempt
/// with its reason; only deletions Git tracks are staged as removals, and
/// an empty set of pathspecs ends without running `git add`.
pub fn stage_published_checkpoint(
    workspace_root: &str,
    checkpoint_dir: &str,
    present: &Vec<String>,
    deleted: &Vec<String>,
    state: StageState,
    event: StageEvent,
) -> (r: (StageState, StageAction))
    requires
        stage_expects(state, event, present@.len()),
    ensures
        state is Start ==> match event {
            StageEvent::Repository(true) => r.0 is Enclosed && r.1 is CheckFiles,
            _ => r.1 matches StageAction::Done(Ok(v)) && v@.len() == 0,
        },
        state is Enclosed ==> match event {
            StageEvent::OnDisk(flags) => match path_relative(checkpoint_dir@, workspace_root@) {
                None => done_with_error(r, outside_workspace(checkpoint_dir@, workspace_root@)),
                Some(rel) => {
                    let adds = kept_joined(rel, sv(present@), flags@);
                    let dels = kept_joined(rel, sv(deleted@), all_set(deleted@.len()));
                    if dels.len() == 0 {
                        add_or_done(adds, r)
                    } else {
                        &&& r.1 matches StageAction::ListIndexed(d)
                        &&& sv(d@) == dels
                        &&& r.0 matches StageState::Listing(a)
                        &&& sv(a@) == adds
                    }
                },
            },
            _ => true,
        },
        state matches StageState::Listing(adds) ==> match event {
            StageEvent::Git(Ok(raw)) => add_or_done(
                sv(adds@) + split_seq(lossy_text(raw@), '\0').filter(|p: Seq<char>| p.len() > 0),
                r,
            ),
            StageEvent::Git(Err(m)) => done_with_error(r, m@),
            _ => true,
        },
        state matches StageState::Adding(specs) ==> match event {
            StageEvent::Git(Ok(_)) => r.1 matches StageAction::Done(Ok(v)) && sv(v@) == sv(specs@),
            StageEvent::Git(Err(m)) => done_with_error(r, m@),
            _ => true,
        },
{
    match state {
        StageState::Start => match event {
            StageEvent::Repository(true) => (StageState::Enclosed, StageAction::CheckFiles),
            _ => (StageState::Start, StageAction::Done(Ok(Vec::new()))),
        },
        StageState::Enclosed => match event {
            StageEvent::OnDisk(flags) => match stage_plan(workspace_root, checkpoint_dir, present, &flags, deleted) {
                Err(m) => (StageState::Start, StageAction::Done(Err(m))),
                Ok(plan) => {
                    if plan.deletions.len() == 0 {
                        next_add(plan.additions)
                    } else {
                        (StageState::Listing(plan.additions), StageAction::ListIndexed(plan.deletions))
                    }
                },
            },
            _ => (StageState::Start, StageAction::Done(Ok(Vec::new()))),
        },
        StageState::Listing(adds) => match event {
            StageEvent::Git(Ok(raw)) => {
                let known = ignore_answer(raw.as_slice());
                let mut specs = adds;
                let ghost a = sv(specs@);
                let mut i: usize = 0;
                while i < known.len()
                    invariant
                        i <= known@.len(),
                        sv(specs@) == a + sv(known@.take(i as int)),
                    decreases known@.len() - i,
                {
                    let ghost before = sv(specs@);
                    specs.push(known[i].clone());
                    assert(sv(specs@) =~= before.push(known@[i as int]@));
                    assert(sv(known@.take(i + 1)) =~= sv(known@.take(i as int)).push(known@[i as int]@));
                    assert(sv(specs@) =~= a + sv(known@.take(i + 1)));
                    i = i + 1;
                }
                assert(known@.take(known@.len() as int) =~= known@);
                next_add(specs)
            },
            StageEvent::Git(Err(m)) => (StageState::Start, StageAction::Done(Err(m))),
            _ => (StageState::Start, StageAction::Done(Ok(Vec::new()))),
        },
        StageState::Adding(specs) => match event {
            StageEvent::Git(Ok(_)) => (StageState::Start, StageAction::Done(Ok(specs))),
            StageEvent::Git(Err(m)) => (StageState::Start, StageAction::Done(Err(m))),
            _ => (StageState::Start, StageAction::Done(Ok(Vec::new()))),
        },
    }
}

} // verus!

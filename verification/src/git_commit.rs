//! The explicit checkpoint commit: the refusals that fire before the index
//! or history is touched, the verified fileset a generation makes
//! authoritative, the commit message, the report, and the order of the Git
//! steps. Running Git, reading pointers and probing the disk happen outside
//! this crate.
use vstd::prelude::*;
use crate::error::{Error, ErrorKind};
use crate::git::{copy_paths, ignore_answer, is_runtime_checkpoint_file, is_runtime_path, spawn_failure_text, GitReachability};
use crate::git_stage::{join_path, joined, path_relative, outside_workspace, strip_path_prefix};
use crate::reconcile::{debug_quoted, debug_text, REMOTE_ADVANCED_REMEDY};
use crate::text::{
    cat, cat3, chars_of, i64_text, int_text, join, join_seq, list_contains, lossy_string, ordered_set, owned, set_insert, sort_strings,
    sorted_le, sorted_strict, split_seq, str_eq, sv, trim, trim_seq, lossy_text};

verus! {

broadcast use vstd::string::group_string_axioms;

/// The commit message used when none is given and the pointer names no
/// generation.
pub const DEFAULT_COMMIT_MESSAGE: &'static str = "chore(beads): sync checkpoint [bead-rs]";

/// What one commit invocation decided and did. `committed` is false for
/// the idempotent short-circuit.
#[derive(Debug, Clone)]
pub struct CommitReport {
    pub dry_run: bool,
    pub committed: bool,
    pub generation_id: Option<String>,
    /// The branch the commit landed on, or would land on.
    pub branch: Option<String>,
    /// The new commit hash, when a commit was created and its hash could
    /// be read back.
    pub commit: Option<String>,
    /// Workspace-relative paths staged as additions or modifications.
    pub staged: Vec<String>,
    /// Workspace-relative paths staged as removals: the tombstones Git
    /// tracks, each the checkpoint directory's workspace-relative path
    /// joined to the tombstoned checkpoint-relative path.
    pub removed: Vec<String>,
}

/// The parts of the checkpoint status report the commit checks read.
#[derive(Debug, Clone)]
pub struct CheckpointStatusReport {
    pub checkpoint_present: bool,
    /// The sync relationship's stable name.
    pub relationship: String,
    pub not_ready_reasons: Vec<String>,
    pub covered_sequence: Option<i64>,
    pub live_sequence: i64,
    pub dirty: bool,
    pub checkpoint_consistent: bool,
    pub git_reachability: Option<GitReachability>,
    pub generation_id: Option<String>,
}

pub open spec fn covered_or_zero(c: Option<i64>) -> int {
    match c {
        Some(n) => n as int,
        None => 0,
    }
}

/// The refusal each check gives, in the order they are tried; `None` when
/// every check passes.
pub open spec fn gate_refusal(r: CheckpointStatusReport) -> Option<(ErrorKind, Seq<char>)> {
    if !r.checkpoint_present {
        Some((ErrorKind::CliUsage, "sync commit refused: no checkpoint published - run `bead sync flush-only` first"@))
    } else if r.relationship@ == "covered-ahead-integrity-failure"@ {
        Some((ErrorKind::Integrity, "sync commit refused: covered-ahead integrity failure - "@ + if r.not_ready_reasons@.len() > 0 {
            r.not_ready_reasons@[0]@
        } else {
            "the checkpoint is ahead of the live store but failed its qualification"@
        }))
    } else if r.relationship@ == "remote-advanced"@ {
        Some((ErrorKind::Conflict, "sync commit refused: the checkpoint is remote-advanced (covered "@
            + int_text(covered_or_zero(r.covered_sequence)) + " > live "@ + int_text(r.live_sequence as int) + ") - "@
            + REMOTE_ADVANCED_REMEDY@))
    } else if r.dirty {
        Some((ErrorKind::CliUsage, "sync commit refused: the checkpoint is dirty (covered "@
            + int_text(covered_or_zero(r.covered_sequence)) + " < live "@ + int_text(r.live_sequence as int)
            + ") and committing now would record a stale checkpoint - run `bead sync flush-only` first"@))
    } else if !r.checkpoint_consistent {
        Some((ErrorKind::CliUsage, "sync commit refused: the checkpoint is not internally consistent - "@
            + join_seq(sv(r.not_ready_reasons@), "; "@)
            + "; run `bead sync flush-only` to republish, or `bead doctor` to inspect"@))
    } else {
        match r.git_reachability {
            None => Some((ErrorKind::CliUsage,
                "sync commit refused: no Git reachability verdict is available for the published checkpoint - run `bead sync status` to inspect"@)),
            Some(g) => match g.unavailable_reason {
                Some(why) => Some((ErrorKind::CliUsage, "sync commit refused: git reachability unavailable: "@ + why@)),
                None => if g.ignored@.len() > 0 {
                    Some((ErrorKind::Validation, "sync commit refused: ignore rules exclude checkpoint files, and files Git ignores can never be committed: "@
                        + join_seq(sv(g.ignored@), ", "@)
                        + " - amend the ignore rule (`.beads/.gitignore` tracks the checkpoint, `*.lock` files stay out)"@))
                } else {
                    None
                },
            },
        }
    }
}

/// The result refuses exactly as `refusal` says, or passes when it is `None`.
pub open spec fn refuses_as(r: Result<(), Error>, refusal: Option<(ErrorKind, Seq<char>)>) -> bool {
    match refusal {
        None => r is Ok,
        Some((k, m)) => r matches Err(e) && e.is(k, m),
    }
}

fn sequence_text(c: Option<i64>) -> (r: String)
    ensures
        r@ == int_text(covered_or_zero(c)),
{
    match c {
        Some(n) => i64_text(n),
        None => i64_text(0),
    }
}

/// The per-check refusals, each naming its remedy. An integrity failure and
/// a remote-advanced checkpoint are diagnosed before the ordinary dirty one.
pub fn refuse_gates(report: &CheckpointStatusReport) -> (r: Result<(), Error>)
    ensures
        refuses_as(r, gate_refusal(*report)),
{
    if !report.checkpoint_present {
        return Err(Error::CliUsage(owned("sync commit refused: no checkpoint published - run `bead sync flush-only` first")));
    }
    if str_eq(report.relationship.as_str(), "covered-ahead-integrity-failure") {
        let head = "sync commit refused: covered-ahead integrity failure - ";
        if report.not_ready_reasons.len() > 0 {
            return Err(Error::Integrity(cat(head, report.not_ready_reasons[0].as_str())));
        }
        return Err(Error::Integrity(cat(head, "the checkpoint is ahead of the live store but failed its qualification")));
    }
    if str_eq(report.relationship.as_str(), "remote-advanced") {
        let c = sequence_text(report.covered_sequence);
        let l = i64_text(report.live_sequence);
        let a = cat3("sync commit refused: the checkpoint is remote-advanced (covered ", c.as_str(), " > live ");
        let b = cat3(a.as_str(), l.as_str(), ") - ");
        return Err(Error::Conflict(cat(b.as_str(), REMOTE_ADVANCED_REMEDY)));
    }
    if report.dirty {
        let c = sequence_text(report.covered_sequence);
        let l = i64_text(report.live_sequence);
        let a = cat3("sync commit refused: the checkpoint is dirty (covered ", c.as_str(), " < live ");
        return Err(Error::CliUsage(cat3(a.as_str(), l.as_str(),
            ") and committing now would record a stale checkpoint - run `bead sync flush-only` first")));
    }
    if !report.checkpoint_consistent {
        let reasons = join(&report.not_ready_reasons, "; ");
        return Err(Error::CliUsage(cat3("sync commit refused: the checkpoint is not internally consistent - ", reasons.as_str(),
            "; run `bead sync flush-only` to republish, or `bead doctor` to inspect")));
    }
    match &report.git_reachability {
        None => Err(Error::CliUsage(owned(
            "sync commit refused: no Git reachability verdict is available for the published checkpoint - run `bead sync status` to inspect",
        ))),
        Some(g) => match &g.unavailable_reason {
            Some(why) => Err(Error::CliUsage(cat("sync commit refused: git reachability unavailable: ", why.as_str()))),
            None => {
                if g.ignored.len() > 0 {
                    let listed = join(&g.ignored, ", ");
                    Err(Error::Validation(cat3(
                        "sync commit refused: ignore rules exclude checkpoint files, and files Git ignores can never be committed: ",
                        listed.as_str(),
                        " - amend the ignore rule (`.beads/.gitignore` tracks the checkpoint, `*.lock` files stay out)",
                    )))
                } else {
                    Ok(())
                }
            },
        },
    }
}

/// Whether a checkpoint-relative path stays inside the checkpoint
/// directory: not absolute, no backslash, no `..` anywhere, and no empty
/// `/`-separated component (so not empty, no leading, trailing or doubled
/// slash).
pub open spec fn safe_relative(p: Seq<char>) -> bool {
    &&& p.len() > 0
    &&& p[0] != '/'
    &&& p.last() != '/'
    &&& forall|i: int| 0 <= i < p.len() ==> #[trigger] p[i] != '\\'
    &&& forall|i: int| 0 <= i < p.len() - 1 ==> !(#[trigger] p[i] == '.' && p[i + 1] == '.')
    &&& forall|i: int| 0 <= i < p.len() - 1 ==> !(#[trigger] p[i] == '/' && p[i + 1] == '/')
}

/// Whether a checkpoint-relative path stays inside the checkpoint directory.
pub fn safe_checkpoint_relative_path(path: &str) -> (r: bool)
    ensures
        r == safe_relative(path@),
{
    let cs = chars_of(path);
    if cs.len() == 0 || cs[0] == '/' || cs[cs.len() - 1] == '/' {
        return false;
    }
    let mut i: usize = 0;
    while i < cs.len()
        invariant
            cs@ == path@,
            cs@.len() > 0,
            i <= cs@.len(),
            forall|k: int| 0 <= k < i ==> #[trigger] cs@[k] != '\\',
            forall|k: int| 0 <= k < i && k + 1 < cs@.len() ==> !(#[trigger] cs@[k] == '.' && cs@[k + 1] == '.'),
            forall|k: int| 0 <= k < i && k + 1 < cs@.len() ==> !(#[trigger] cs@[k] == '/' && cs@[k + 1] == '/'),
        decreases cs@.len() - i,
    {
        let c = cs[i];
        if c == '\\' {
            return false;
        }
        if i + 1 < cs.len() {
            let d = cs[i + 1];
            if (c == '.' && d == '.') || (c == '/' && d == '/') {
                return false;
            }
        }
        i = i + 1;
    }
    true
}

/// What the pointers and the checkpoint directory contribute to the
/// verified fileset.
#[derive(Debug, Clone)]
pub struct PointerFiles {
    /// Every checkpoint-relative file the current pointer references.
    pub current_referenced: Vec<String>,
    /// The current pointer's tombstones.
    pub current_deleted: Vec<String>,
    /// The outgoing pointer's references and tombstones, when it exists.
    pub previous: Option<(Vec<String>, Vec<String>)>,
    /// Whether the compatibility view is a file.
    pub forensic_view: bool,
}

/// The checkpoint-relative fileset the current generation makes
/// authoritative, each an ordered set.
#[derive(Debug, Clone)]
pub struct VerifiedFileset {
    pub present: Vec<String>,
    pub deleted: Vec<String>,
}

pub open spec fn previous_pointer() -> Seq<char> {
    "previous.json"@
}

pub open spec fn forensic_view() -> Seq<char> {
    "forensic.jsonl"@
}

/// Everything either pointer references, the outgoing pointer itself, and
/// the compatibility view, without runtime files.
pub open spec fn present_set(p: PointerFiles) -> Set<Seq<char>> {
    let cur = sv(p.current_referenced@).to_set();
    let with_prev = match p.previous {
        Some((refs, _)) => cur.union(sv(refs@).to_set()).insert(previous_pointer()),
        None => cur,
    };
    let all = if p.forensic_view { with_prev.insert(forensic_view()) } else { with_prev };
    all.filter(|q: Seq<char>| !is_runtime_path(q))
}

/// Every tombstone either pointer declares, without runtime files.
pub open spec fn deleted_set(p: PointerFiles) -> Set<Seq<char>> {
    let cur = sv(p.current_deleted@).to_set();
    let all = match p.previous {
        Some((_, dels)) => cur.union(sv(dels@).to_set()),
        None => cur,
    };
    all.filter(|q: Seq<char>| !is_runtime_path(q))
}

/// The refusal for a path that escapes the checkpoint directory.
pub open spec fn escape_refusal(p: Seq<char>) -> Seq<char> {
    "sync commit refused: the pointer declares the path "@ + debug_text(p)
        + ", which escapes the checkpoint directory - the pointer is damaged; run `bead doctor` to inspect"@
}

/// `p` is the first unsafe path of `paths`.
pub open spec fn first_unsafe(paths: Seq<Seq<char>>, p: Seq<char>) -> bool {
    exists|k: int| 0 <= k < paths.len() && #[trigger] paths[k] == p && !safe_relative(p)
        && forall|j: int| 0 <= j < k ==> safe_relative(#[trigger] paths[j])
}

fn drop_runtime(v: &Vec<String>) -> (r: Vec<String>)
    requires
        sorted_strict(sv(v@)),
    ensures
        sorted_strict(sv(r@)),
        sv(r@).to_set() == sv(v@).to_set().filter(|q: Seq<char>| !is_runtime_path(q)),
{
    let mut out: Vec<String> = Vec::new();
    let mut i: usize = 0;
    while i < v.len()
        invariant
            i <= v@.len(),
            sorted_strict(sv(v@)),
            sorted_strict(sv(out@)),
            forall|k: int, j: int| 0 <= k < out@.len() && i <= j < v@.len() ==> crate::text::seq_lt(#[trigger] sv(out@)[k], #[trigger] sv(v@)[j]),
            sv(out@).to_set() == sv(v@.take(i as int)).to_set().filter(|q: Seq<char>| !is_runtime_path(q)),
        decreases v@.len() - i,
    {
        let ghost before = sv(out@);
        proof {
            crate::text::lemma_push_to_set(sv(v@.take(i as int)), v@[i as int]@);
            assert(sv(v@.take(i + 1)) =~= sv(v@.take(i as int)).push(v@[i as int]@));
        }
        if !is_runtime_checkpoint_file(v[i].as_str()) {
            out.push(v[i].clone());
            proof {
                crate::text::lemma_push_to_set(before, v@[i as int]@);
                assert(sv(out@) =~= before.push(v@[i as int]@));
                assert forall|a: int, b: int| 0 <= a < b < sv(out@).len() implies crate::text::seq_lt(#[trigger] sv(out@)[a], #[trigger] sv(out@)[b]) by {
                    if b == before.len() {
                        assert(crate::text::seq_lt(before[a], sv(v@)[i as int]));
                    } else {
                        assert(before[a] == sv(out@)[a] && before[b] == sv(out@)[b]);
                    }
                }
                assert forall|k: int, j: int| 0 <= k < sv(out@).len() && i + 1 <= j < v@.len() implies crate::text::seq_lt(#[trigger] sv(out@)[k], #[trigger] sv(v@)[j]) by {
                    if k == before.len() {
                        assert(crate::text::seq_lt(sv(v@)[i as int], sv(v@)[j]));
                    } else {
                        assert(sv(out@)[k] == before[k]);
                    }
                }
            }
        }
        assert(sv(out@).to_set() =~= sv(v@.take(i + 1)).to_set().filter(|q: Seq<char>| !is_runtime_path(q)));
        i = i + 1;
    }
    assert(v@.take(v@.len() as int) =~= v@);
    out
}

fn union_into(acc: &mut Vec<String>, more: &Vec<String>)
    requires
        sorted_strict(sv(old(acc)@)),
    ensures
        sorted_strict(sv(final(acc)@)),
        sv(final(acc)@).to_set() == sv(old(acc)@).to_set().union(sv(more@).to_set()),
{
    let ghost start = sv(acc@).to_set();
    let mut i: usize = 0;
    while i < more.len()
        invariant
            i <= more@.len(),
            sorted_strict(sv(acc@)),
            sv(acc@).to_set() == start.union(sv(more@.take(i as int)).to_set()),
        decreases more@.len() - i,
    {
        set_insert(acc, more[i].clone());
        proof {
            crate::text::lemma_push_to_set(sv(more@.take(i as int)), more@[i as int]@);
            assert(sv(more@.take(i + 1)) =~= sv(more@.take(i as int)).push(more@[i as int]@));
        }
        assert(sv(acc@).to_set() =~= start.union(sv(more@.take(i + 1)).to_set()));
        i = i + 1;
    }
    assert(more@.take(more@.len() as int) =~= more@);
}

fn first_unsafe_in(paths: &Vec<String>) -> (r: Option<usize>)
    ensures
        match r {
            Some(k) => k < paths@.len() && !safe_relative(paths@[k as int]@)
                && forall|j: int| 0 <= j < k ==> safe_relative(#[trigger] sv(paths@)[j]),
            None => forall|j: int| 0 <= j < paths@.len() ==> safe_relative(#[trigger] sv(paths@)[j]),
        },
{
    let mut i: usize = 0;
    while i < paths.len()
        invariant
            i <= paths@.len(),
            forall|j: int| 0 <= j < i ==> safe_relative(#[trigger] sv(paths@)[j]),
        decreases paths@.len() - i,
    {
        if !safe_checkpoint_relative_path(paths[i].as_str()) {
            return Some(i);
        }
        i = i + 1;
    }
    None
}

/// Every path of both sets stays inside the checkpoint directory.
pub open spec fn all_safe(files: PointerFiles) -> bool {
    &&& forall|p: Seq<char>| #[trigger] present_set(files).contains(p) ==> safe_relative(p)
    &&& forall|p: Seq<char>| #[trigger] deleted_set(files).contains(p) ==> safe_relative(p)
}

/// The fileset is the assembly of these pointer files.
pub open spec fn assembled(files: PointerFiles, fs: VerifiedFileset) -> bool {
    &&& sorted_strict(sv(fs.present@))
    &&& sorted_strict(sv(fs.deleted@))
    &&& sv(fs.present@).to_set() == present_set(files)
    &&& sv(fs.deleted@).to_set() == deleted_set(files)
}

/// The error refuses the first path, additions first and each list in
/// order, that escapes the checkpoint directory.
pub open spec fn escape_refused(files: PointerFiles, e: Error) -> bool {
    exists|paths: Seq<Seq<char>>, p: Seq<char>| {
        &&& sorted_strict(paths.take(present_set(files).len() as int))
        &&& paths.take(present_set(files).len() as int).to_set() == present_set(files)
        &&& sorted_strict(paths.skip(present_set(files).len() as int))
        &&& paths.skip(present_set(files).len() as int).to_set() == deleted_set(files)
        &&& #[trigger] first_unsafe(paths, p)
        &&& e.is(ErrorKind::Integrity, escape_refusal(p))
    }
}

/// Assemble the verified fileset: references of both pointers, the
/// outgoing pointer itself, the compatibility view, and both pointers'
/// tombstones, as ordered sets without runtime files. A path that would
/// escape the checkpoint directory (the first in order, additions first)
/// refuses the commit.
pub fn assemble_fileset(files: &PointerFiles) -> (r: Result<VerifiedFileset, Error>)
    ensures
        r is Ok <==> all_safe(*files),
        match r {
            Ok(fs) => assembled(*files, fs),
            Err(e) => escape_refused(*files, e),
        },
{
    let mut present = ordered_set(&files.current_referenced);
    let mut deleted = ordered_set(&files.current_deleted);
    match &files.previous {
        Some((refs, dels)) => {
            union_into(&mut present, refs);
            union_into(&mut deleted, dels);
            set_insert(&mut present, owned("previous.json"));
        },
        None => {},
    }
    if files.forensic_view {
        set_insert(&mut present, owned("forensic.jsonl"));
    }
    proof {
        reveal_strlit("previous.json");
        reveal_strlit("forensic.jsonl");
    }
    let present = drop_runtime(&present);
    let deleted = drop_runtime(&deleted);
    proof {
        assert(sv(present@).to_set() =~= present_set(*files));
        assert(sv(deleted@).to_set() =~= deleted_set(*files));
    }
    let ghost paths = sv(present@) + sv(deleted@);
    proof {
        crate::text::lemma_sorted_strict_len(sv(present@));
        assert(paths.take(present_set(*files).len() as int) =~= sv(present@));
        assert(paths.skip(present_set(*files).len() as int) =~= sv(deleted@));
    }
    match first_unsafe_in(&present) {
        Some(k) => {
            let p = &present[k];
            assert(first_unsafe(paths, p@)) by {
                assert(paths[k as int] == p@);
            }
            assert(present_set(*files).contains(p@)) by {
                assert(sv(present@)[k as int] == p@);
            }
            return Err(Error::Integrity(escape_message(p.as_str())));
        },
        None => {},
    }
    match first_unsafe_in(&deleted) {
        Some(k) => {
            let p = &deleted[k];
            assert(first_unsafe(paths, p@)) by {
                let at = present@.len() + k;
                assert(paths[at] == p@);
                assert forall|j: int| 0 <= j < at implies safe_relative(#[trigger] paths[j]) by {
                    if j < present@.len() {
                        assert(paths[j] == sv(present@)[j]);
                    } else {
                        assert(paths[j] == sv(deleted@)[j - present@.len()]);
                    }
                }
            }
            assert(deleted_set(*files).contains(p@)) by {
                assert(sv(deleted@)[k as int] == p@);
            }
            return Err(Error::Integrity(escape_message(p.as_str())));
        },
        None => {},
    }
    assert forall|p: Seq<char>| #[trigger] present_set(*files).contains(p) implies safe_relative(p) by {
        assert(sv(present@).to_set().contains(p));
        let k = choose|k: int| 0 <= k < sv(present@).len() && sv(present@)[k] == p;
    }
    assert forall|p: Seq<char>| #[trigger] deleted_set(*files).contains(p) implies safe_relative(p) by {
        assert(sv(deleted@).to_set().contains(p));
        let k = choose|k: int| 0 <= k < sv(deleted@).len() && sv(deleted@)[k] == p;
    }
    Ok(VerifiedFileset { present, deleted })
}

fn escape_message(p: &str) -> (r: String)
    ensures
        r@ == escape_refusal(p@),
{
    let d = debug_quoted(p);
    cat3("sync commit refused: the pointer declares the path ", d.as_str(),
        ", which escapes the checkpoint directory - the pointer is damaged; run `bead doctor` to inspect")
}

/// The files referenced but missing from disk, in order.
pub open spec fn missing_of(present: Seq<Seq<char>>, on_disk: Seq<bool>) -> Seq<Seq<char>>
    decreases present.len(),
{
    if present.len() == 0 {
        Seq::empty()
    } else {
        let prev = missing_of(present.drop_last(), on_disk);
        if on_disk[present.len() - 1] {
            prev
        } else {
            prev.push(present.last())
        }
    }
}

/// The refusal when referenced files are missing from disk.
pub open spec fn missing_refusal(missing: Seq<Seq<char>>) -> Seq<char> {
    "sync commit refused: the checkpoint references files missing from disk: "@ + join_seq(missing, ", "@)
        + " - the checkpoint is damaged; run `bead sync flush-only` to republish from the live store, or `bead doctor` to inspect"@
}

/// Refuse when a referenced file is missing from disk: committing the
/// pointer would enshrine the damage. `on_disk[i]` tells whether
/// `present[i]` is a file.
pub fn missing_files_refusal(present: &Vec<String>, on_disk: &Vec<bool>) -> (r: Result<(), Error>)
    requires
        on_disk@.len() == present@.len(),
    ensures
        missing_of(sv(present@), on_disk@).len() == 0 ==> r is Ok,
        missing_of(sv(present@), on_disk@).len() > 0 ==> (r matches Err(e)
            && e.is(ErrorKind::Integrity, missing_refusal(missing_of(sv(present@), on_disk@)))),
{
    let mut missing: Vec<String> = Vec::new();
    let mut i: usize = 0;
    while i < present.len()
        invariant
            i <= present@.len(),
            on_disk@.len() == present@.len(),
            sv(missing@) == missing_of(sv(present@.take(i as int)), on_disk@),
        decreases present@.len() - i,
    {
        proof {
            assert(sv(present@.take(i + 1)).drop_last() =~= sv(present@.take(i as int)));
            assert(sv(present@.take(i + 1)).last() == present@[i as int]@);
        }
        if !on_disk[i] {
            let ghost before = sv(missing@);
            missing.push(present[i].clone());
            assert(sv(missing@) =~= before.push(present@[i as int]@));
        }
        i = i + 1;
    }
    assert(present@.take(present@.len() as int) =~= present@);
    if missing.len() == 0 {
        return Ok(());
    }
    let listed = join(&missing, ", ");
    Err(Error::Integrity(cat3("sync commit refused: the checkpoint references files missing from disk: ", listed.as_str(),
        " - the checkpoint is damaged; run `bead sync flush-only` to republish from the live store, or `bead doctor` to inspect")))
}

pub open spec fn opt_str(o: Option<&str>) -> Option<Seq<char>> {
    match o {
        Some(s) => Some(s@),
        None => None,
    }
}

/// The commit message: the given one when it is not blank, a refusal when
/// it is, otherwise the conventional default naming the generation.
pub open spec fn message_for(message: Option<Seq<char>>, generation: Option<Seq<char>>) -> Result<Seq<char>, Seq<char>> {
    match message {
        Some(m) => if trim_seq(m).len() > 0 {
            Ok(m)
        } else {
            Err("sync commit refused: --message cannot be empty"@)
        },
        None => match generation {
            Some(g) => Ok("chore(beads): checkpoint "@ + g + " [bead-rs]"@),
            None => Ok(DEFAULT_COMMIT_MESSAGE@),
        },
    }
}

/// The commit message: `--message` when it is not blank, otherwise the
/// conventional default naming the published generation.
pub fn resolve_message(message: Option<&str>, generation_id: Option<&str>) -> (r: Result<String, Error>)
    ensures
        match message_for(opt_str(message), opt_str(generation_id)) {
            Ok(m) => r matches Ok(s) && s@ == m,
            Err(m) => r matches Err(e) && e.is(ErrorKind::CliUsage, m),
        },
{
    match message {
        Some(m) => {
            let t = trim(m);
            proof {
                reveal_strlit("");
                assert(t@.len() == 0 ==> t@ =~= ""@);
            }
            if !str_eq(t.as_str(), "") {
                Ok(owned(m))
            } else {
                Err(Error::CliUsage(owned("sync commit refused: --message cannot be empty")))
            }
        },
        None => match generation_id {
            Some(g) => Ok(cat3("chore(beads): checkpoint ", g, " [bead-rs]")),
            None => Ok(owned(DEFAULT_COMMIT_MESSAGE)),
        },
    }
}

/// What a finished commit-side Git invocation answers: its output on
/// success, otherwise Git's whole error output trimmed, or the exit code
/// when Git said nothing (-1 when a signal ended it).
pub open spec fn commit_answer_spec(subcommand: Seq<char>, code: Option<i32>, stdout: Seq<u8>, stderr: Seq<u8>) -> Result<Seq<u8>, Seq<char>> {
    if code == Some(0i32) {
        Ok(stdout)
    } else if trim_seq(lossy_text(stderr)).len() == 0 {
        Err("git "@ + subcommand + " failed with exit code "@ + int_text(
            match code {
                Some(c) => c as int,
                None => -1,
            },
        ))
    } else {
        Err("git "@ + subcommand + " failed: "@ + trim_seq(lossy_text(stderr)))
    }
}

/// The answer as the commit sees it: output, or an integrity error.
pub open spec fn answered(r: Result<Vec<u8>, Error>, a: Result<Seq<u8>, Seq<char>>) -> bool {
    match a {
        Ok(o) => r matches Ok(v) && v@ == o,
        Err(m) => r matches Err(e) && e.is(ErrorKind::Integrity, m),
    }
}

/// Decide what one commit-side Git invocation answered.
pub fn commit_git_answer(subcommand: &str, code: Option<i32>, stdout: Vec<u8>, stderr: &[u8]) -> (r: Result<Vec<u8>, Error>)
    ensures
        answered(r, commit_answer_spec(subcommand@, code, stdout@, stderr@)),
{
    if code == Some(0i32) {
        return Ok(stdout);
    }
    let text = lossy_string(stderr);
    let detail = trim(text.as_str());
    proof {
        reveal_strlit("");
        assert(detail@.len() == 0 ==> detail@ =~= ""@);
    }
    if str_eq(detail.as_str(), "") {
        let n: i64 = match code {
            Some(c) => c as i64,
            None => -1,
        };
        let head = cat3("git ", subcommand, " failed with exit code ");
        let t = i64_text(n);
        Err(Error::Integrity(cat(head.as_str(), t.as_str())))
    } else {
        let head = cat3("git ", subcommand, " failed: ");
        Err(Error::Integrity(cat(head.as_str(), detail.as_str())))
    }
}

/// The error when Git could not be started for the commit.
pub fn commit_spawn_failure(not_found: bool, detail: &str) -> (r: Error)
    ensures
        r.is(ErrorKind::Integrity, spawn_failure_text(not_found, detail@)),
{
    Error::Integrity(crate::git::spawn_failure(not_found, detail))
}

/// The branch `git symbolic-ref -q --short HEAD` names; a failure or an
/// empty name is a detached HEAD.
pub open spec fn branch_of(out: Result<Seq<u8>, Seq<char>>) -> Option<Seq<char>> {
    match out {
        Ok(o) => if trim_seq(lossy_text(o)).len() > 0 {
            Some(trim_seq(lossy_text(o)))
        } else {
            None
        },
        Err(_) => None,
    }
}

pub open spec fn outcome_view(r: Result<Vec<u8>, Error>) -> Result<Seq<u8>, Seq<char>> {
    match r {
        Ok(v) => Ok(v@),
        Err(e) => Err(e.text()),
    }
}

fn branch_name(out: &Result<Vec<u8>, Error>) -> (r: Option<String>)
    ensures
        match branch_of(outcome_view(*out)) {
            Some(b) => r matches Some(s) && s@ == b,
            None => r is None,
        },
{
    match out {
        Ok(o) => {
            let text = lossy_string(o.as_slice());
            let name = trim(text.as_str());
            proof {
                reveal_strlit("");
                assert(name@.len() == 0 ==> name@ =~= ""@);
            }
            if str_eq(name.as_str(), "") {
                None
            } else {
                Some(name)
            }
        },
        Err(_) => None,
    }
}

/// Whether `git status --porcelain=v1 -z` printed any record: any
/// character besides the NUL separators.
pub open spec fn pending_in(raw: Seq<u8>) -> bool {
    exists|i: int| 0 <= i < lossy_text(raw).len() && #[trigger] lossy_text(raw)[i] != '\0'
}

fn any_record(raw: &Vec<u8>) -> (r: bool)
    ensures
        r == pending_in(raw@),
{
    let text = lossy_string(raw.as_slice());
    let cs = chars_of(text.as_str());
    let mut i: usize = 0;
    while i < cs.len()
        invariant
            cs@ == lossy_text(raw@),
            i <= cs@.len(),
            forall|k: int| 0 <= k < i ==> cs@[k] == '\0',
        decreases cs@.len() - i,
    {
        if cs[i] != '\0' {
            return true;
        }
        i = i + 1;
    }
    false
}

/// The paths `git ls-files -z` printed.
pub open spec fn listed(raw: Seq<u8>) -> Seq<Seq<char>> {
    split_seq(lossy_text(raw), '\0').filter(|p: Seq<char>| p.len() > 0)
}

/// Which of the tombstones Git tracks, from the `ls-files` answer; an
/// answer that did not come reads as none.
pub open spec fn removed_of(out: Result<Seq<u8>, Seq<char>>) -> Seq<Seq<char>> {
    match out {
        Ok(raw) => listed(raw),
        Err(_) => Seq::empty(),
    }
}

/// The paths of `pathspec` that are not removals, in order.
pub open spec fn additions_of(pathspec: Seq<Seq<char>>, removed: Seq<Seq<char>>) -> Seq<Seq<char>> {
    pathspec.filter(|p: Seq<char>| !removed.contains(p))
}

fn without(pathspec: &Vec<String>, removed: &Vec<String>) -> (r: Vec<String>)
    ensures
        sv(r@) == additions_of(sv(pathspec@), sv(removed@)),
{
    let ghost keep = |p: Seq<char>| !sv(removed@).contains(p);
    let mut out: Vec<String> = Vec::new();
    let mut i: usize = 0;
    while i < pathspec.len()
        invariant
            i <= pathspec@.len(),
            keep == (|p: Seq<char>| !sv(removed@).contains(p)),
            sv(out@) == sv(pathspec@).take(i as int).filter(keep),
        decreases pathspec@.len() - i,
    {
        proof {
            assert(sv(pathspec@).take(i + 1).drop_last() =~= sv(pathspec@).take(i as int));
            reveal_with_fuel(Seq::filter, 1);
        }
        if !list_contains(removed, pathspec[i].as_str()) {
            let ghost before = sv(out@);
            out.push(pathspec[i].clone());
            assert(sv(out@) =~= before.push(pathspec@[i as int]@));
        }
        i = i + 1;
    }
    assert(sv(pathspec@).take(pathspec@.len() as int) =~= sv(pathspec@));
    out
}

/// A report's contents as plain values.
pub open spec fn report_view(r: CommitReport) -> (bool, bool, Option<Seq<char>>, Option<Seq<char>>, Option<Seq<char>>, Seq<Seq<char>>, Seq<Seq<char>>) {
    (r.dry_run, r.committed, crate::git::opt_text(r.generation_id), crate::git::opt_text(r.branch), crate::git::opt_text(r.commit), sv(r.staged@), sv(r.removed@))
}

/// Where a commit invocation stands between its steps.
#[derive(Debug, Clone, Copy, PartialEq, Eq, Structural)]
pub enum CommitPhase {
    /// Nothing asked yet.
    Start,
    /// Waiting for the current branch.
    AwaitBranch,
    /// Waiting for the checkpoint status report.
    AwaitStatus,
    /// Waiting for what the pointers reference and tombstone.
    AwaitPointers,
    /// Waiting for which verified files are on disk.
    AwaitFiles,
    /// Dry run: waiting for which tombstones Git tracks.
    AwaitRemoved,
    /// Dry run: waiting for whether the pathspec differs from HEAD.
    AwaitPending,
    /// Waiting for which tombstones Git tracks, before staging.
    AwaitRemovedBeforeStage,
    /// Waiting for the index entries of the pathspec, before staging.
    AwaitSnapshot,
    /// Waiting for the staging of the verified set.
    AwaitStaging,
    /// Waiting for whether the staged pathspec differs from HEAD.
    AwaitStagedPending,
    /// Waiting for the commit.
    AwaitCommit,
    /// Waiting for the new commit's hash.
    AwaitHash,
    /// Waiting for the index to be put back after a failed write.
    AwaitRestore,
}

/// The phase, and what the earlier steps established.
#[derive(Debug, Clone)]
pub struct CommitState {
    pub phase: CommitPhase,
    pub branch: String,
    pub generation_id: Option<String>,
    pub message: String,
    pub fileset: VerifiedFileset,
    /// The pathspec: the workspace-relative paths of the present verified
    /// files, then, sorted, those together with the tracked tombstones.
    pub pathspec: Vec<String>,
    pub removed: Vec<String>,
    /// The index entries of the pathspec before staging, as `git ls-files
    /// -s -z` lists them.
    pub snapshot: Vec<u8>,
    /// The failure to report once the index is put back.
    pub failure: Option<Error>,
}

impl CommitState {
    /// The state before the first step.
    pub fn new() -> (r: CommitState)
        ensures
            r.phase == CommitPhase::Start,
            r.branch@.len() == 0,
            r.generation_id is None,
            r.message@.len() == 0,
            r.fileset.present@.len() == 0,
            r.fileset.deleted@.len() == 0,
            r.pathspec@.len() == 0,
            r.removed@.len() == 0,
            r.snapshot@.len() == 0,
            r.failure is None,
    {
        CommitState {
            phase: CommitPhase::Start,
            branch: String::new(),
            generation_id: None,
            message: String::new(),
            fileset: VerifiedFileset { present: Vec::new(), deleted: Vec::new() },
            pathspec: Vec::new(),
            removed: Vec::new(),
            snapshot: Vec::new(),
            failure: None,
        }
    }
}

/// What the caller observed.
#[derive(Debug)]
pub enum CommitEvent {
    /// Whether a `.git` entry exists at or above the workspace root.
    Repository(bool),
    /// The answer of the Git invocation last asked for.
    Git(Result<Vec<u8>, Error>),
    /// The checkpoint status report.
    Status(Result<CheckpointStatusReport, Error>),
    /// What the pointers reference and tombstone.
    Pointers(Result<PointerFiles, Error>),
    /// For each verified file, whether it is a file on disk.
    OnDisk(Vec<bool>),
    /// What staging the verified set did.
    Staged(Result<Vec<String>, String>),
}

/// What the caller does next.
#[derive(Debug)]
pub enum CommitAction {
    /// Run Git from the workspace root with these arguments.
    Git(Vec<String>),
    /// Produce the checkpoint status report.
    ReadStatus,
    /// Read both pointers and whether the compatibility view exists.
    ReadPointers,
    /// Report which of these checkpoint-relative files are on disk.
    CheckFiles(Vec<String>),
    /// Stage the verified set: these present and these tombstoned paths.
    Stage(Vec<String>, Vec<String>),
    /// Run Git from the workspace root with these arguments, writing these
    /// bytes to its standard input.
    GitWithInput(Vec<String>, Vec<u8>),
    /// The invocation is over.
    Done(Result<CommitReport, Error>),
}

/// Whether the event is the one the state waits for.
pub open spec fn commit_expects(state: CommitState, event: CommitEvent) -> bool {
    match state.phase {
        CommitPhase::Start => event is Repository,
        CommitPhase::AwaitStatus => event is Status,
        CommitPhase::AwaitPointers => event is Pointers,
        CommitPhase::AwaitFiles => event matches CommitEvent::OnDisk(f) && f@.len() == state.fileset.present@.len(),
        CommitPhase::AwaitStaging => event is Staged,
        CommitPhase::AwaitRestore => event is Git && state.failure is Some,
        _ => event is Git,
    }
}

pub open spec fn refusal_of(r: (CommitState, CommitAction), kind: ErrorKind, m: Seq<char>) -> bool {
    r.1 matches CommitAction::Done(Err(e)) && e.is(kind, m)
}

pub open spec fn passes_on(r: (CommitState, CommitAction), e: Error) -> bool {
    r.1 matches CommitAction::Done(Err(f)) && f == e
}

pub open spec fn runs(r: (CommitState, CommitAction), args: Seq<Seq<char>>, phase: CommitPhase) -> bool {
    &&& r.1 matches CommitAction::Git(a)
    &&& sv(a@) == args
    &&& r.0.phase == phase
}

/// The report the invocation ends with.
pub open spec fn reports(
    r: (CommitState, CommitAction),
    view: (bool, bool, Option<Seq<char>>, Option<Seq<char>>, Option<Seq<char>>, Seq<Seq<char>>, Seq<Seq<char>>),
) -> bool {
    r.1 matches CommitAction::Done(Ok(rep)) && report_view(rep) == view
}

pub open spec fn keeps(a: CommitState, b: CommitState) -> bool {
    &&& a.branch@ == b.branch@
    &&& crate::git::opt_text(a.generation_id) == crate::git::opt_text(b.generation_id)
    &&& sv(a.fileset.present@) == sv(b.fileset.present@)
    &&& sv(a.fileset.deleted@) == sv(b.fileset.deleted@)
}

pub open spec fn status_args(pathspec: Seq<Seq<char>>) -> Seq<Seq<char>> {
    seq!["status"@, "--porcelain=v1"@, "-z"@, "--"@] + pathspec
}

pub open spec fn ls_files_args(paths: Seq<Seq<char>>) -> Seq<Seq<char>> {
    seq!["ls-files"@, "-z"@, "--"@] + paths
}

pub open spec fn commit_args(message: Seq<char>, pathspec: Seq<Seq<char>>) -> Seq<Seq<char>> {
    seq!["commit"@, "-m"@, message, "--"@] + pathspec
}

pub open spec fn branch_args() -> Seq<Seq<char>> {
    seq!["symbolic-ref"@, "-q"@, "--short"@, "HEAD"@]
}

pub open spec fn hash_args() -> Seq<Seq<char>> {
    seq!["rev-parse"@, "HEAD"@]
}

pub open spec fn no_repository(root: Seq<char>) -> Seq<char> {
    "sync commit refused: no Git repository above "@ + root
        + " - the checkpoint handoff needs one; run `git init` or commit by hand"@
}

pub open spec fn detached_head() -> Seq<char> {
    "sync commit refused: HEAD is detached and a commit made here would be reachable from no branch - check out a branch first"@
}

pub open spec fn staging_refusal(reason: Seq<char>) -> Seq<char> {
    "sync commit refused: staging the verified checkpoint fileset failed: "@ + reason
        + " - nothing was committed; resolve the staging failure and re-run"@
}

/// The dry run's next step once the tracked tombstones are known: the
/// sorted pathspec is asked about, unless it is empty.
pub open spec fn dry_run_next(s: CommitState, r: (CommitState, CommitAction), workspace: Seq<Seq<char>>, removed: Seq<Seq<char>>) -> bool {
    let all = workspace + removed;
    if all.len() == 0 {
        reports(r, (true, false, crate::git::opt_text(s.generation_id), Some(s.branch@), None, Seq::empty(), Seq::empty()))
    } else {
        &&& r.1 matches CommitAction::Git(a)
        &&& r.0.phase == CommitPhase::AwaitPending
        &&& keeps(r.0, s)
        &&& sorted_le(sv(r.0.pathspec@))
        &&& sv(r.0.pathspec@).to_multiset() == all.to_multiset()
        &&& sv(a@) == status_args(sv(r.0.pathspec@))
        &&& sv(r.0.removed@) == removed
    }
}

/// The commit's next step once the tracked tombstones are known: the index
/// entries of the sorted pathspec are read before anything is staged,
/// unless the pathspec is empty, in which case there is nothing to commit.
pub open spec fn commit_pathspec_next(
    s: CommitState,
    r: (CommitState, CommitAction),
    workspace: Seq<Seq<char>>,
    removed: Seq<Seq<char>>,
    message: Seq<char>,
) -> bool {
    let all = workspace + removed;
    if all.len() == 0 {
        reports(r, (false, false, crate::git::opt_text(s.generation_id), Some(s.branch@), None, Seq::empty(), Seq::empty()))
    } else {
        &&& r.1 matches CommitAction::Git(a)
        &&& r.0.phase == CommitPhase::AwaitSnapshot
        &&& keeps(r.0, s)
        &&& r.0.message@ == message
        &&& sorted_le(sv(r.0.pathspec@))
        &&& sv(r.0.pathspec@).to_multiset() == all.to_multiset()
        &&& sv(a@) == snapshot_args(sv(r.0.pathspec@))
        &&& sv(r.0.removed@) == removed
    }
}

pub open spec fn snapshot_args(pathspec: Seq<Seq<char>>) -> Seq<Seq<char>> {
    seq!["ls-files"@, "-s"@, "-z"@, "--"@] + pathspec
}

pub open spec fn restore_args() -> Seq<Seq<char>> {
    seq!["update-index"@, "-z"@, "--index-info"@]
}

/// The `--index-info` record that drops a path from the index.
pub open spec fn drop_record(p: Seq<char>) -> Seq<char> {
    "0 0000000000000000000000000000000000000000\t"@ + p
}

/// What puts the index back for the pathspec: every path dropped, then the
/// entries the snapshot recorded, in `ls-files -s -z` form, put back.
pub open spec fn restore_payload(pathspec: Seq<Seq<char>>, snapshot: Seq<u8>) -> Seq<u8> {
    crate::git::ignore_payload_spec(pathspec.map_values(|p: Seq<char>| drop_record(p))) + snapshot
}

/// The step after a failed write: the index is put back from the snapshot
/// before the failure is reported.
pub open spec fn restores(s: CommitState, r: (CommitState, CommitAction)) -> bool {
    &&& r.1 matches CommitAction::GitWithInput(a, input)
    &&& sv(a@) == restore_args()
    &&& input@ == restore_payload(sv(s.pathspec@), s.snapshot@)
    &&& r.0.phase == CommitPhase::AwaitRestore
}

/// Phases in which the index may already differ from what it was when the
/// invocation began, with no restore yet run.
pub open spec fn index_touched(p: CommitPhase) -> bool {
    p == CommitPhase::AwaitStaging || p == CommitPhase::AwaitStagedPending || p == CommitPhase::AwaitCommit
        || p == CommitPhase::AwaitHash
}

fn strs(v: Vec<&str>) -> (r: Vec<String>)
    ensures
        r@.len() == v@.len(),
        forall|i: int| 0 <= i < v@.len() ==> #[trigger] r@[i]@ == v@[i]@,
{
    let mut out: Vec<String> = Vec::new();
    let mut i: usize = 0;
    while i < v.len()
        invariant
            i <= v@.len(),
            out@.len() == i,
            forall|k: int| 0 <= k < i ==> #[trigger] out@[k]@ == v@[k]@,
        decreases v@.len() - i,
    {
        out.push(owned(v[i]));
        i = i + 1;
    }
    out
}

fn args_then(head: Vec<String>, rest: &Vec<String>) -> (r: Vec<String>)
    ensures
        sv(r@) == sv(head@) + sv(rest@),
{
    let mut out = head;
    let ghost start = sv(out@);
    let mut i: usize = 0;
    while i < rest.len()
        invariant
            i <= rest@.len(),
            sv(out@) == start + sv(rest@).take(i as int),
        decreases rest@.len() - i,
    {
        let ghost before = sv(out@);
        out.push(rest[i].clone());
        assert(sv(out@) =~= before.push(rest@[i as int]@));
        assert(sv(rest@).take(i + 1) =~= sv(rest@).take(i as int).push(rest@[i as int]@));
        assert(sv(out@) =~= start + sv(rest@).take(i + 1));
        i = i + 1;
    }
    assert(sv(rest@).take(rest@.len() as int) =~= sv(rest@));
    out
}

fn status_of(pathspec: &Vec<String>) -> (r: Vec<String>)
    ensures
        sv(r@) == status_args(sv(pathspec@)),
{
    let head = strs(vec!["status", "--porcelain=v1", "-z", "--"]);
    proof {
        assert(sv(head@) =~= seq!["status"@, "--porcelain=v1"@, "-z"@, "--"@]);
    }
    args_then(head, pathspec)
}

fn ls_files_of(paths: &Vec<String>) -> (r: Vec<String>)
    ensures
        sv(r@) == ls_files_args(sv(paths@)),
{
    let head = strs(vec!["ls-files", "-z", "--"]);
    proof {
        assert(sv(head@) =~= seq!["ls-files"@, "-z"@, "--"@]);
    }
    args_then(head, paths)
}

fn commit_of(message: &String, pathspec: &Vec<String>) -> (r: Vec<String>)
    ensures
        sv(r@) == commit_args(message@, sv(pathspec@)),
{
    let mut head = strs(vec!["commit", "-m"]);
    head.push(message.clone());
    head.push(owned("--"));
    proof {
        assert(sv(head@) =~= seq!["commit"@, "-m"@, message@, "--"@]);
    }
    args_then(head, pathspec)
}

fn workspace_relative(rel: &str, present: &Vec<String>) -> (r: Vec<String>)
    ensures
        sv(r@) == sv(present@).map_values(|p: Seq<char>| joined(rel@, p)),
{
    let mut out: Vec<String> = Vec::new();
    let mut i: usize = 0;
    while i < present.len()
        invariant
            i <= present@.len(),
            sv(out@) == sv(present@).take(i as int).map_values(|p: Seq<char>| joined(rel@, p)),
        decreases present@.len() - i,
    {
        let p = join_path(rel, present[i].as_str());
        let ghost before = sv(out@);
        out.push(p);
        assert(sv(out@) =~= before.push(p@));
        assert(sv(present@).take(i + 1).map_values(|p: Seq<char>| joined(rel@, p))
            =~= sv(present@).take(i as int).map_values(|p: Seq<char>| joined(rel@, p)).push(joined(rel@, present@[i as int]@)));
        i = i + 1;
    }
    assert(sv(present@).take(present@.len() as int) =~= sv(present@));
    out
}

fn copy_opt(o: &Option<String>) -> (r: Option<String>)
    ensures
        crate::git::opt_text(r) == crate::git::opt_text(*o),
{
    match o {
        Some(t) => Some(t.clone()),
        None => None,
    }
}

fn with_phase(s: CommitState, phase: CommitPhase) -> (r: CommitState)
    ensures
        r.phase == phase,
        keeps(r, s),
        r.message@ == s.message@,
        sv(r.pathspec@) == sv(s.pathspec@),
        sv(r.removed@) == sv(s.removed@),
        r.snapshot@ == s.snapshot@,
{
    CommitState { phase, ..s }
}

fn dry_run_after_removed(s: CommitState, workspace: Vec<String>, removed: Vec<String>) -> (r: (CommitState, CommitAction))
    ensures
        dry_run_next(s, r, sv(workspace@), sv(removed@)),
{
    let mut all = workspace;
    let ghost w = sv(all@);
    let mut i: usize = 0;
    while i < removed.len()
        invariant
            i <= removed@.len(),
            sv(all@) == w + sv(removed@).take(i as int),
        decreases removed@.len() - i,
    {
        let ghost before = sv(all@);
        all.push(removed[i].clone());
        assert(sv(all@) =~= before.push(removed@[i as int]@));
        assert(sv(removed@).take(i + 1) =~= sv(removed@).take(i as int).push(removed@[i as int]@));
        assert(sv(all@) =~= w + sv(removed@).take(i + 1));
        i = i + 1;
    }
    assert(sv(removed@).take(removed@.len() as int) =~= sv(removed@));
    if all.len() == 0 {
        let report = CommitReport {
            dry_run: true,
            committed: false,
            generation_id: copy_opt(&s.generation_id),
            branch: Some(s.branch.clone()),
            commit: None,
            staged: Vec::new(),
            removed: Vec::new(),
        };
        assert(sv(report.staged@) =~= Seq::<Seq<char>>::empty());
        assert(sv(report.removed@) =~= Seq::<Seq<char>>::empty());
        return (s, CommitAction::Done(Ok(report)));
    }
    let pathspec = sort_strings(all);
    let args = status_of(&pathspec);
    let next = CommitState { phase: CommitPhase::AwaitPending, pathspec, removed, ..s };
    (next, CommitAction::Git(args))
}

fn not_committed(s: &CommitState) -> (r: CommitAction)
    ensures
        r matches CommitAction::Done(Ok(rep)) && report_view(rep) == (false, false, crate::git::opt_text(s.generation_id),
            Some(s.branch@), None::<Seq<char>>, Seq::<Seq<char>>::empty(), Seq::<Seq<char>>::empty()),
{
    let report = CommitReport {
        dry_run: false,
        committed: false,
        generation_id: copy_opt(&s.generation_id),
        branch: Some(s.branch.clone()),
        commit: None,
        staged: Vec::new(),
        removed: Vec::new(),
    };
    assert(sv(report.staged@) =~= Seq::<Seq<char>>::empty());
    assert(sv(report.removed@) =~= Seq::<Seq<char>>::empty());
    CommitAction::Done(Ok(report))
}

fn removed_from(out: &Result<Vec<u8>, Error>) -> (r: Vec<String>)
    ensures
        sv(r@) == removed_of(outcome_view(*out)),
{
    match out {
        Ok(raw) => ignore_answer(raw.as_slice()),
        Err(_) => {
            let v: Vec<String> = Vec::new();
            assert(sv(v@) =~= Seq::<Seq<char>>::empty());
            v
        },
    }
}

fn commit_after_removed(s: CommitState, workspace: Vec<String>, removed: Vec<String>) -> (r: (CommitState, CommitAction))
    ensures
        commit_pathspec_next(s, r, sv(workspace@), sv(removed@), s.message@),
{
    let mut all = workspace;
    let ghost w = sv(all@);
    let mut i: usize = 0;
    while i < removed.len()
        invariant
            i <= removed@.len(),
            sv(all@) == w + sv(removed@).take(i as int),
        decreases removed@.len() - i,
    {
        let ghost before = sv(all@);
        all.push(removed[i].clone());
        assert(sv(all@) =~= before.push(removed@[i as int]@));
        assert(sv(removed@).take(i + 1) =~= sv(removed@).take(i as int).push(removed@[i as int]@));
        assert(sv(all@) =~= w + sv(removed@).take(i + 1));
        i = i + 1;
    }
    assert(sv(removed@).take(removed@.len() as int) =~= sv(removed@));
    if all.len() == 0 {
        let a = not_committed(&s);
        return (s, a);
    }
    let pathspec = sort_strings(all);
    let args = snapshot_of(&pathspec);
    let next = CommitState { phase: CommitPhase::AwaitSnapshot, pathspec, removed, ..s };
    (next, CommitAction::Git(args))
}

fn snapshot_of(pathspec: &Vec<String>) -> (r: Vec<String>)
    ensures
        sv(r@) == snapshot_args(sv(pathspec@)),
{
    let head = strs(vec!["ls-files", "-s", "-z", "--"]);
    proof {
        assert(sv(head@) =~= seq!["ls-files"@, "-s"@, "-z"@, "--"@]);
    }
    args_then(head, pathspec)
}

fn restore_input(pathspec: &Vec<String>, snapshot: &Vec<u8>) -> (r: Vec<u8>)
    ensures
        r@ == restore_payload(sv(pathspec@), snapshot@),
{
    let mut records: Vec<String> = Vec::new();
    let mut i: usize = 0;
    while i < pathspec.len()
        invariant
            i <= pathspec@.len(),
            sv(records@) == sv(pathspec@).take(i as int).map_values(|p: Seq<char>| drop_record(p)),
        decreases pathspec@.len() - i,
    {
        let rec = cat("0 0000000000000000000000000000000000000000\t", pathspec[i].as_str());
        let ghost before = sv(records@);
        records.push(rec);
        assert(sv(records@) =~= before.push(drop_record(pathspec@[i as int]@)));
        assert(sv(pathspec@).take(i + 1).map_values(|p: Seq<char>| drop_record(p))
            =~= sv(pathspec@).take(i as int).map_values(|p: Seq<char>| drop_record(p)).push(drop_record(pathspec@[i as int]@)));
        i = i + 1;
    }
    assert(sv(pathspec@).take(pathspec@.len() as int) =~= sv(pathspec@));
    let mut out = crate::git::ignore_payload(&records);
    let ghost head = out@;
    let mut j: usize = 0;
    while j < snapshot.len()
        invariant
            j <= snapshot@.len(),
            out@ == head + snapshot@.take(j as int),
        decreases snapshot@.len() - j,
    {
        out.push(snapshot[j]);
        assert(snapshot@.take(j + 1) =~= snapshot@.take(j as int).push(snapshot@[j as int]));
        j = j + 1;
    }
    assert(snapshot@.take(snapshot@.len() as int) =~= snapshot@);
    out
}

fn restore_step(s: CommitState, failure: Error) -> (r: (CommitState, CommitAction))
    ensures
        restores(s, r),
        r.0.failure == Some(failure),
{
    let input = restore_input(&s.pathspec, &s.snapshot);
    let args = strs(vec!["update-index", "-z", "--index-info"]);
    assert(sv(args@) =~= restore_args());
    (CommitState { phase: CommitPhase::AwaitRestore, failure: Some(failure), ..s }, CommitAction::GitWithInput(args, input))
}

/// One step of committing the published checkpoint's verified fileset, or
/// of reporting what a commit would carry under `dry_run`.
///
/// Every refusal comes before the index or history is touched. Tombstones
/// are asked about, and reported, workspace-relative, as staging names
/// them. The index entries of the pathspec are read before staging; when
/// staging, the check after it, or the commit fails, those entries are put
/// back (`git update-index --index-info`) before the failure is reported,
/// so no error leaves the verified set staged or a commit made. Once the
/// commit exists the invocation succeeds: a hash that cannot be read back
/// is reported as absent. The commit records exactly the pathspec, and a
/// pathspec that already matches HEAD commits nothing.
pub fn commit_verified_checkpoint(
    workspace_root: &str,
    checkpoint_dir: &str,
    message: Option<&str>,
    dry_run: bool,
    state: CommitState,
    event: CommitEvent,
) -> (r: (CommitState, CommitAction))
    requires
        commit_expects(state, event),
    ensures
        state.phase == CommitPhase::Start ==> match event {
            CommitEvent::Repository(true) => runs(r, branch_args(), CommitPhase::AwaitBranch),
            _ => refusal_of(r, ErrorKind::CliUsage, no_repository(workspace_root@)),
        },
        state.phase == CommitPhase::AwaitBranch ==> match event {
            CommitEvent::Git(out) => match branch_of(outcome_view(out)) {
                None => refusal_of(r, ErrorKind::CliUsage, detached_head()),
                Some(b) => r.1 is ReadStatus && r.0.phase == CommitPhase::AwaitStatus && r.0.branch@ == b,
            },
            _ => true,
        },
        state.phase == CommitPhase::AwaitStatus ==> match event {
            CommitEvent::Status(Err(e)) => passes_on(r, e),
            CommitEvent::Status(Ok(rep)) => match gate_refusal(rep) {
                Some((k, m)) => refusal_of(r, k, m),
                None => {
                    &&& r.1 is ReadPointers
                    &&& r.0.phase == CommitPhase::AwaitPointers
                    &&& r.0.branch@ == state.branch@
                    &&& crate::git::opt_text(r.0.generation_id) == crate::git::opt_text(rep.generation_id)
                },
            },
            _ => true,
        },
        state.phase == CommitPhase::AwaitPointers ==> match event {
            CommitEvent::Pointers(Err(e)) => passes_on(r, e),
            CommitEvent::Pointers(Ok(files)) => if all_safe(files) {
                &&& r.1 matches CommitAction::CheckFiles(c)
                &&& sv(c@) == sv(r.0.fileset.present@)
                &&& r.0.phase == CommitPhase::AwaitFiles
                &&& assembled(files, r.0.fileset)
                &&& r.0.branch@ == state.branch@
                &&& crate::git::opt_text(r.0.generation_id) == crate::git::opt_text(state.generation_id)
            } else {
                r.1 matches CommitAction::Done(Err(e)) && escape_refused(files, e)
            },
            _ => true,
        },
        state.phase == CommitPhase::AwaitFiles ==> match event {
            CommitEvent::OnDisk(flags) => {
                let missing = missing_of(sv(state.fileset.present@), flags@);
                if missing.len() > 0 {
                    refusal_of(r, ErrorKind::Integrity, missing_refusal(missing))
                } else {
                    match message_for(opt_str(message), crate::git::opt_text(state.generation_id)) {
                        Err(m) => refusal_of(r, ErrorKind::CliUsage, m),
                        Ok(msg) => match path_relative(checkpoint_dir@, workspace_root@) {
                            None => if dry_run {
                                refusal_of(r, ErrorKind::Integrity, outside_workspace(checkpoint_dir@, workspace_root@))
                            } else {
                                refusal_of(r, ErrorKind::Integrity, staging_refusal(outside_workspace(checkpoint_dir@, workspace_root@)))
                            },
                            Some(rel) => {
                                let ws = sv(state.fileset.present@).map_values(|q: Seq<char>| joined(rel, q));
                                let wd = sv(state.fileset.deleted@).map_values(|q: Seq<char>| joined(rel, q));
                                if dry_run {
                                    if wd.len() == 0 {
                                        dry_run_next(state, r, ws, Seq::empty())
                                    } else {
                                        &&& runs(r, ls_files_args(wd), CommitPhase::AwaitRemoved)
                                        &&& keeps(r.0, state)
                                        &&& sv(r.0.pathspec@) == ws
                                    }
                                } else {
                                    if wd.len() == 0 {
                                        commit_pathspec_next(state, r, ws, Seq::empty(), msg)
                                    } else {
                                        &&& runs(r, ls_files_args(wd), CommitPhase::AwaitRemovedBeforeStage)
                                        &&& keeps(r.0, state)
                                        &&& sv(r.0.pathspec@) == ws
                                        &&& r.0.message@ == msg
                                    }
                                }
                            },
                        },
                    }
                }
            },
            _ => true,
        },
        state.phase == CommitPhase::AwaitRemoved ==> match event {
            CommitEvent::Git(out) => dry_run_next(state, r, sv(state.pathspec@), removed_of(outcome_view(out))),
            _ => true,
        },
        state.phase == CommitPhase::AwaitPending ==> match event {
            CommitEvent::Git(Err(e)) => passes_on(r, e),
            CommitEvent::Git(Ok(raw)) => reports(r, (true, pending_in(raw@), crate::git::opt_text(state.generation_id),
                Some(state.branch@), None, additions_of(sv(state.pathspec@), sv(state.removed@)), sv(state.removed@))),
            _ => true,
        },
        state.phase == CommitPhase::AwaitRemovedBeforeStage ==> match event {
            CommitEvent::Git(out) => commit_pathspec_next(state, r, sv(state.pathspec@), removed_of(outcome_view(out)), state.message@),
            _ => true,
        },
        state.phase == CommitPhase::AwaitSnapshot ==> match event {
            CommitEvent::Git(Err(e)) => passes_on(r, e),
            CommitEvent::Git(Ok(snap)) => {
                &&& r.1 matches CommitAction::Stage(pr, de)
                &&& sv(pr@) == sv(state.fileset.present@)
                &&& sv(de@) == sv(state.fileset.deleted@)
                &&& r.0.phase == CommitPhase::AwaitStaging
                &&& keeps(r.0, state)
                &&& r.0.message@ == state.message@
                &&& sv(r.0.pathspec@) == sv(state.pathspec@)
                &&& sv(r.0.removed@) == sv(state.removed@)
                &&& r.0.snapshot@ == snap@
            },
            _ => true,
        },
        state.phase == CommitPhase::AwaitStaging ==> match event {
            CommitEvent::Staged(Err(reason)) => {
                &&& restores(state, r)
                &&& r.0.failure matches Some(e) && e.is(ErrorKind::Integrity, staging_refusal(reason@))
            },
            CommitEvent::Staged(Ok(specs)) => if specs@.len() == 0 {
                reports(r, (false, false, crate::git::opt_text(state.generation_id), Some(state.branch@), None, Seq::empty(), Seq::empty()))
            } else {
                &&& runs(r, status_args(sv(state.pathspec@)), CommitPhase::AwaitStagedPending)
                &&& keeps(r.0, state)
                &&& r.0.message@ == state.message@
                &&& sv(r.0.pathspec@) == sv(state.pathspec@)
                &&& sv(r.0.removed@) == sv(state.removed@)
                &&& r.0.snapshot@ == state.snapshot@
            },
            _ => true,
        },
        state.phase == CommitPhase::AwaitStagedPending ==> match event {
            CommitEvent::Git(Err(e)) => restores(state, r) && r.0.failure == Some(e),
            CommitEvent::Git(Ok(raw)) => if !pending_in(raw@) {
                reports(r, (false, false, crate::git::opt_text(state.generation_id), Some(state.branch@), None, Seq::empty(), Seq::empty()))
            } else {
                &&& runs(r, commit_args(state.message@, sv(state.pathspec@)), CommitPhase::AwaitCommit)
                &&& keeps(r.0, state)
                &&& sv(r.0.pathspec@) == sv(state.pathspec@)
                &&& sv(r.0.removed@) == sv(state.removed@)
                &&& r.0.snapshot@ == state.snapshot@
            },
            _ => true,
        },
        state.phase == CommitPhase::AwaitCommit ==> match event {
            CommitEvent::Git(Err(e)) => restores(state, r) && r.0.failure == Some(e),
            CommitEvent::Git(Ok(_)) => {
                &&& runs(r, hash_args(), CommitPhase::AwaitHash)
                &&& keeps(r.0, state)
                &&& sv(r.0.pathspec@) == sv(state.pathspec@)
                &&& sv(r.0.removed@) == sv(state.removed@)
            },
            _ => true,
        },
        state.phase == CommitPhase::AwaitHash ==> match event {
            CommitEvent::Git(Err(_)) => reports(r, (false, true, crate::git::opt_text(state.generation_id), Some(state.branch@),
                None, additions_of(sv(state.pathspec@), sv(state.removed@)), sv(state.removed@))),
            CommitEvent::Git(Ok(out)) => reports(r, (false, true, crate::git::opt_text(state.generation_id), Some(state.branch@),
                Some(trim_seq(lossy_text(out@))), additions_of(sv(state.pathspec@), sv(state.removed@)), sv(state.removed@))),
            _ => true,
        },
        state.phase == CommitPhase::AwaitRestore ==> match event {
            CommitEvent::Git(_) => state.failure matches Some(f) && passes_on(r, f),
            _ => true,
        },
        (r.1 matches CommitAction::Done(Err(_))) ==> !index_touched(state.phase),
{
    let phase = state.phase;
    match event {
        CommitEvent::Repository(found) => {
            if found {
                let args = strs(vec!["symbolic-ref", "-q", "--short", "HEAD"]);
                assert(sv(args@) =~= branch_args());
                (with_phase(state, CommitPhase::AwaitBranch), CommitAction::Git(args))
            } else {
                let m = cat3("sync commit refused: no Git repository above ", workspace_root,
                    " - the checkpoint handoff needs one; run `git init` or commit by hand");
                (state, CommitAction::Done(Err(Error::CliUsage(m))))
            }
        },
        CommitEvent::Git(out) => {
            match phase {
                CommitPhase::AwaitBranch => match branch_name(&out) {
                    None => (state, CommitAction::Done(Err(Error::CliUsage(owned(
                        "sync commit refused: HEAD is detached and a commit made here would be reachable from no branch - check out a branch first",
                    ))))),
                    Some(b) => (CommitState { phase: CommitPhase::AwaitStatus, branch: b, ..state }, CommitAction::ReadStatus),
                },
                CommitPhase::AwaitRemoved => {
                    let removed = removed_from(&out);
                    let workspace = copy_paths(&state.pathspec);
                    dry_run_after_removed(state, workspace, removed)
                },
                CommitPhase::AwaitPending => match out {
                    Err(e) => (state, CommitAction::Done(Err(e))),
                    Ok(raw) => {
                        let pending = any_record(&raw);
                        let staged = without(&state.pathspec, &state.removed);
                        let report = CommitReport {
                            dry_run: true,
                            committed: pending,
                            generation_id: copy_opt(&state.generation_id),
                            branch: Some(state.branch.clone()),
                            commit: None,
                            staged,
                            removed: copy_paths(&state.removed),
                        };
                        (state, CommitAction::Done(Ok(report)))
                    },
                },
                CommitPhase::AwaitRemovedBeforeStage => {
                    let removed = removed_from(&out);
                    let workspace = copy_paths(&state.pathspec);
                    commit_after_removed(state, workspace, removed)
                },
                CommitPhase::AwaitSnapshot => match out {
                    Err(e) => (state, CommitAction::Done(Err(e))),
                    Ok(snapshot) => {
                        let present = copy_paths(&state.fileset.present);
                        let deleted = copy_paths(&state.fileset.deleted);
                        (CommitState { phase: CommitPhase::AwaitStaging, snapshot, ..state }, CommitAction::Stage(present, deleted))
                    },
                },
                CommitPhase::AwaitStagedPending => match out {
                    Err(e) => restore_step(state, e),
                    Ok(raw) => {
                        if !any_record(&raw) {
                            let a = not_committed(&state);
                            (state, a)
                        } else {
                            let args = commit_of(&state.message, &state.pathspec);
                            (with_phase(state, CommitPhase::AwaitCommit), CommitAction::Git(args))
                        }
                    },
                },
                CommitPhase::AwaitCommit => match out {
                    Err(e) => restore_step(state, e),
                    Ok(_) => {
                        let args = strs(vec!["rev-parse", "HEAD"]);
                        assert(sv(args@) =~= hash_args());
                        (with_phase(state, CommitPhase::AwaitHash), CommitAction::Git(args))
                    },
                },
                CommitPhase::AwaitRestore => {
                    let failure = match state.failure {
                        Some(f) => f,
                        None => Error::Internal(owned("no failure recorded")),
                    };
                    (CommitState { phase: CommitPhase::AwaitRestore, failure: None, ..state }, CommitAction::Done(Err(failure)))
                },
                _ => {
                    let commit = match out {
                        Err(_) => None,
                        Ok(raw) => {
                            let text = lossy_string(raw.as_slice());
                            Some(trim(text.as_str()))
                        },
                    };
                    let staged = without(&state.pathspec, &state.removed);
                    let report = CommitReport {
                        dry_run: false,
                        committed: true,
                        generation_id: copy_opt(&state.generation_id),
                        branch: Some(state.branch.clone()),
                        commit,
                        staged,
                        removed: copy_paths(&state.removed),
                    };
                    (state, CommitAction::Done(Ok(report)))
                },
            }
        },
        CommitEvent::Status(rep) => match rep {
            Err(e) => (state, CommitAction::Done(Err(e))),
            Ok(report) => match refuse_gates(&report) {
                Err(e) => (state, CommitAction::Done(Err(e))),
                Ok(()) => (CommitState { phase: CommitPhase::AwaitPointers, generation_id: report.generation_id, ..state }, CommitAction::ReadPointers),
            },
        },
        CommitEvent::Pointers(files) => match files {
            Err(e) => (state, CommitAction::Done(Err(e))),
            Ok(files) => match assemble_fileset(&files) {
                Err(e) => (state, CommitAction::Done(Err(e))),
                Ok(fileset) => {
                    let asked = copy_paths(&fileset.present);
                    (CommitState { phase: CommitPhase::AwaitFiles, fileset, ..state }, CommitAction::CheckFiles(asked))
                },
            },
        },
        CommitEvent::OnDisk(flags) => {
            if let Err(e) = missing_files_refusal(&state.fileset.present, &flags) {
                return (state, CommitAction::Done(Err(e)));
            }
            let gen = match &state.generation_id {
                Some(g) => Some(g.as_str()),
                None => None,
            };
            assert(opt_str(gen) == crate::git::opt_text(state.generation_id));
            let msg = match resolve_message(message, gen) {
                Err(e) => {
                    return (state, CommitAction::Done(Err(e)));
                },
                Ok(m) => m,
            };
            let rel = match strip_path_prefix(checkpoint_dir, workspace_root) {
                None => {
                    let head = cat3("checkpoint directory ", checkpoint_dir, " is not inside workspace ");
                    let reason = cat(head.as_str(), workspace_root);
                    if dry_run {
                        return (state, CommitAction::Done(Err(Error::Integrity(reason))));
                    }
                    let m = cat3("sync commit refused: staging the verified checkpoint fileset failed: ", reason.as_str(),
                        " - nothing was committed; resolve the staging failure and re-run");
                    return (state, CommitAction::Done(Err(Error::Integrity(m))));
                },
                Some(rel) => rel,
            };
            let workspace = workspace_relative(rel.as_str(), &state.fileset.present);
            let tombstones = workspace_relative(rel.as_str(), &state.fileset.deleted);
            if dry_run {
                if tombstones.len() == 0 {
                    let none: Vec<String> = Vec::new();
                    assert(sv(none@) =~= Seq::<Seq<char>>::empty());
                    dry_run_after_removed(state, workspace, none)
                } else {
                    let args = ls_files_of(&tombstones);
                    (CommitState { phase: CommitPhase::AwaitRemoved, pathspec: workspace, ..state }, CommitAction::Git(args))
                }
            } else {
                let next = CommitState { message: msg, ..state };
                if tombstones.len() == 0 {
                    let none: Vec<String> = Vec::new();
                    assert(sv(none@) =~= Seq::<Seq<char>>::empty());
                    commit_after_removed(next, workspace, none)
                } else {
                    let args = ls_files_of(&tombstones);
                    (CommitState { phase: CommitPhase::AwaitRemovedBeforeStage, pathspec: workspace, ..next }, CommitAction::Git(args))
                }
            }
        },
        CommitEvent::Staged(staged) => match staged {
            Err(reason) => {
                let m = cat3("sync commit refused: staging the verified checkpoint fileset failed: ", reason.as_str(),
                    " - nothing was committed; resolve the staging failure and re-run");
                restore_step(state, Error::Integrity(m))
            },
            Ok(specs) => {
                if specs.len() == 0 {
                    let a = not_committed(&state);
                    (state, a)
                } else {
                    let args = status_of(&state.pathspec);
                    (with_phase(state, CommitPhase::AwaitStagedPending), CommitAction::Git(args))
                }
            },
        },
    }
}

} // verus!

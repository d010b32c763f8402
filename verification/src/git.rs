//! Read-only Git reachability of the published checkpoint: parsing what
//! `git status`/`ls-files`/`check-ignore` print, sorting paths into the five
//! reachability buckets, the overall answer, and the commit-readiness check.
//! Running Git itself happens outside this crate; these functions decide.
use vstd::prelude::*;
use crate::text::{
    str_eq, cat, cat3, first_line, first_line_of, has_infix, str_contains, trim, trim_seq, chars_of, join, string_of, list_contains, join_seq, lemma_split_seq_nonempty, lossy_string, owned, push_str, set_insert,
    sorted_strict, split_bytes, split_seq, sv, lossy_text};

verus! {

broadcast use vstd::string::group_string_axioms;

/// The checkpoint pathspec every probe is scoped to, relative to the
/// workspace root.
pub const CHECKPOINT_PATHSPEC: &'static str = ".beads/checkpoint";

/// The file name of the one runtime file that lives in the checkpoint
/// directory but is never published state: the publication lock.
pub const PUBLICATION_LOCK_FILE: &'static str = "publish.lock";

/// The components a Unix path names, as `Path::components` yields the
/// normal ones: `/`-separated pieces without empty and `.` pieces.
pub open spec fn path_pieces(p: Seq<char>) -> Seq<Seq<char>> {
    split_seq(p, '/').filter(|c: Seq<char>| c.len() > 0 && c != seq!['.'])
}

/// `Path::file_name`: the last component, unless there is none or it is `..`.
pub open spec fn file_name(p: Seq<char>) -> Option<Seq<char>> {
    let pieces = path_pieces(p);
    if pieces.len() == 0 || pieces.last() == seq!['.', '.'] {
        None
    } else {
        Some(pieces.last())
    }
}

pub open spec fn runtime_name() -> Seq<char> {
    seq!['p', 'u', 'b', 'l', 'i', 's', 'h', '.', 'l', 'o', 'c', 'k']
}

/// Whether a checkpoint path names runtime metadata rather than published
/// state: its file name is the publication lock's.
pub open spec fn is_runtime_path(p: Seq<char>) -> bool {
    file_name(p) == Some(runtime_name())
}

proof fn lemma_split_char_step(s: Seq<char>, i: int)
    requires
        0 <= i < s.len(),
    ensures
        s.take(i + 1).drop_last() == s.take(i),
        s.take(i + 1).last() == s[i],
{
    assert(s.take(i + 1).drop_last() =~= s.take(i));
}

/// Whether a workspace-root-relative checkpoint path is runtime metadata
/// (the publication lock) rather than published checkpoint state.
pub fn is_runtime_checkpoint_file(path: &str) -> (r: bool)
    ensures
        r == is_runtime_path(path@),
{
    let cs = chars_of(path);
    // Walk the pieces, remembering the last one that is neither empty nor `.`.
    let mut last: Vec<char> = Vec::new();
    let mut have_last = false;
    let mut cur: Vec<char> = Vec::new();
    let mut i: usize = 0;
    let ghost keep = |c: Seq<char>| c.len() > 0 && c != seq!['.'];
    while i < cs.len()
        invariant
            i <= cs@.len(),
            cs@ == path@,
            keep == (|c: Seq<char>| c.len() > 0 && c != seq!['.']),
            split_seq(cs@.take(i as int), '/') == split_seq(cs@.take(i as int), '/').drop_last().push(cur@),
            have_last == (split_seq(cs@.take(i as int), '/').drop_last().filter(keep).len() > 0),
            have_last ==> last@ == split_seq(cs@.take(i as int), '/').drop_last().filter(keep).last(),
        decreases cs@.len() - i,
    {
        proof {
            lemma_split_char_step(cs@, i as int);
            lemma_split_seq_nonempty(cs@.take(i as int), '/');
        }
        let c = cs[i];
        let ghost prev = split_seq(cs@.take(i as int), '/');
        if c == '/' {
            let ghost done = prev.drop_last();
            proof {
                assert(split_seq(cs@.take(i + 1), '/') == prev.push(Seq::<char>::empty()));
                assert(split_seq(cs@.take(i + 1), '/').drop_last() =~= prev);
                assert(prev =~= done.push(cur@));
                assert(done.push(cur@).filter(keep) == if keep(cur@) { done.filter(keep).push(cur@) } else { done.filter(keep) }) by {
                    reveal_with_fuel(Seq::filter, 1);
                    assert(done.push(cur@).drop_last() =~= done);
                }
            }
            let is_dot = cur.len() == 1 && cur[0] == '.';
            if cur.len() > 0 && !is_dot {
                proof {
                    assert(cur@ != seq!['.']) by {
                        if cur@.len() == 1 {
                            assert(cur@[0] != '.');
                        }
                    }
                }
                last = cur;
                have_last = true;
            } else {
                proof {
                    if cur@.len() == 1 {
                        assert(cur@ =~= seq!['.']);
                    }
                }
            }
            cur = Vec::new();
        } else {
            cur.push(c);
            proof {
                assert(split_seq(cs@.take(i + 1), '/') =~= prev.update(prev.len() - 1, prev.last().push(c)));
                assert(split_seq(cs@.take(i + 1), '/').drop_last() =~= prev.drop_last());
            }
        }
        i = i + 1;
    }
    proof {
        assert(cs@.take(cs@.len() as int) =~= cs@);
    }
    let ghost pieces = split_seq(path@, '/');
    let ghost done = pieces.drop_last();
    proof {
        lemma_split_seq_nonempty(path@, '/');
        assert(pieces =~= done.push(cur@));
        assert(done.push(cur@).filter(keep) == if keep(cur@) { done.filter(keep).push(cur@) } else { done.filter(keep) }) by {
            reveal_with_fuel(Seq::filter, 1);
            assert(done.push(cur@).drop_last() =~= done);
        }
        assert(path_pieces(path@) == pieces.filter(keep));
    }
    let is_dot = cur.len() == 1 && cur[0] == '.';
    let final_piece: Vec<char>;
    if cur.len() > 0 && !is_dot {
        proof {
            assert(cur@ != seq!['.']) by {
                if cur@.len() == 1 {
                    assert(cur@[0] != '.');
                }
            }
        }
        final_piece = cur;
    } else {
        proof {
            if cur@.len() == 1 {
                assert(cur@ =~= seq!['.']);
            }
        }
        if !have_last {
            return false;
        }
        final_piece = last;
    }
    let target = chars_of(PUBLICATION_LOCK_FILE);
    proof {
        reveal_strlit("publish.lock");
        assert(target@ =~= runtime_name());
    }
    let mut same = final_piece.len() == target.len();
    let mut k: usize = 0;
    while same && k < target.len()
        invariant
            k <= target@.len(),
            same ==> final_piece@.len() == target@.len(),
            same ==> final_piece@.take(k as int) == target@.take(k as int),
            !same ==> final_piece@ != target@,
        decreases target@.len() - k,
    {
        if final_piece[k] != target[k] {
            same = false;
            assert(final_piece@[k as int] != target@[k as int]);
        } else {
            assert(final_piece@.take(k + 1) =~= final_piece@.take(k as int).push(final_piece@[k as int]));
            assert(target@.take(k + 1) =~= target@.take(k as int).push(target@[k as int]));
        }
        k = k + 1;
    }
    proof {
        if same {
            assert(final_piece@ =~= final_piece@.take(k as int));
            assert(target@ =~= target@.take(k as int));
        }
        assert(runtime_name() != seq!['.', '.']);
    }
    same
}


/// One `git status --porcelain=v1 -z` record: index status X, worktree
/// status Y, and the path.
pub type StatusEntry = (u8, u8, String);

pub open spec fn entry_view(e: StatusEntry) -> (u8, u8, Seq<char>) {
    (e.0, e.1, e.2@)
}

pub open spec fn entries_view(v: Seq<StatusEntry>) -> Seq<(u8, u8, Seq<char>)> {
    v.map_values(|e: StatusEntry| entry_view(e))
}

/// A field long enough to be `XY path` with the separating space in place.
pub open spec fn is_record(f: Seq<u8>) -> bool {
    f.len() >= 4 && f[2] == 0x20u8
}

/// A rename or copy record, which carries one extra field: the original path.
pub open spec fn is_rename_or_copy(x: u8, y: u8) -> bool {
    x == 0x52u8 || x == 0x43u8 || y == 0x52u8 || y == 0x43u8
}

/// The records a list of NUL-separated fields holds, in order. Fields that
/// cannot be records are skipped; a rename or copy record consumes the
/// following field (its original path).
pub open spec fn porcelain_entries(fields: Seq<Seq<u8>>) -> Seq<(u8, u8, Seq<char>)>
    decreases fields.len(),
{
    if fields.len() == 0 {
        Seq::empty()
    } else if !is_record(fields[0]) {
        porcelain_entries(fields.drop_first())
    } else {
        let f = fields[0];
        let e = (f[0], f[1], lossy_text(f.skip(3)));
        if is_rename_or_copy(f[0], f[1]) {
            let n: int = if fields.len() >= 2 { 2 } else { 1 };
            seq![e] + porcelain_entries(fields.skip(n))
        } else {
            seq![e] + porcelain_entries(fields.drop_first())
        }
    }
}

/// Parse `git status --porcelain=v1 -z` output into `(X, Y, path)` records.
pub fn parse_porcelain_z(raw: &[u8]) -> (r: Vec<StatusEntry>)
    ensures
        entries_view(r@) == porcelain_entries(split_seq(raw@, 0u8)),
{
    let fields = split_bytes(raw, 0u8);
    let ghost fs = fields@.map_values(|v: Vec<u8>| v@);
    let mut entries: Vec<StatusEntry> = Vec::new();
    let mut idx: usize = 0;
    assert(fs.skip(0) =~= fs);
    assert(entries_view(entries@) =~= Seq::<(u8, u8, Seq<char>)>::empty());
    assert(entries_view(entries@) + porcelain_entries(fs) =~= porcelain_entries(fs));
    while idx < fields.len()
        invariant
            idx <= fields@.len(),
            fs == fields@.map_values(|v: Vec<u8>| v@),
            fs == split_seq(raw@, 0u8),
            entries_view(entries@) + porcelain_entries(fs.skip(idx as int)) == porcelain_entries(fs),
        decreases fields@.len() - idx,
    {
        let field = &fields[idx];
        let ghost rest = fs.skip(idx as int);
        assert(rest[0] == field@);
        assert(rest.drop_first() =~= fs.skip(idx + 1));
        idx = idx + 1;
        if field.len() < 4 || field[2] != 0x20u8 {
            continue;
        }
        let x = field[0];
        let y = field[1];
        let tail = &field.as_slice()[3..field.len()];
        assert(tail@ =~= field@.skip(3));
        let path = lossy_string(tail);
        let ghost before = entries_view(entries@);
        entries.push((x, y, path));
        assert(entries_view(entries@) =~= before + seq![(x, y, path@)]);
        if x == 0x52u8 || x == 0x43u8 || y == 0x52u8 || y == 0x43u8 {
            if idx < fields.len() {
                assert(rest.skip(2) =~= fs.skip(idx + 1));
                idx = idx + 1;
            } else {
                assert(rest.skip(1) =~= fs.skip(idx as int));
            }
        }
        assert(entries_view(entries@) + porcelain_entries(fs.skip(idx as int)) =~= before + porcelain_entries(rest));
    }
    assert(fs.skip(fields@.len() as int) =~= Seq::<Seq<u8>>::empty());
    assert(entries_view(entries@) + porcelain_entries(Seq::<Seq<u8>>::empty()) =~= entries_view(entries@));
    entries
}


/// The paths of the records that satisfy `keep`.
pub open spec fn paths_where(
    es: Seq<(u8, u8, Seq<char>)>,
    keep: spec_fn((u8, u8, Seq<char>)) -> bool,
) -> Set<Seq<char>> {
    Set::new(|p: Seq<char>| exists|i: int| 0 <= i < es.len() && #[trigger] keep(es[i]) && es[i].2 == p)
}

pub proof fn lemma_paths_where_push(
    es: Seq<(u8, u8, Seq<char>)>,
    e: (u8, u8, Seq<char>),
    keep: spec_fn((u8, u8, Seq<char>)) -> bool,
)
    ensures
        paths_where(es.push(e), keep) == if keep(e) {
            paths_where(es, keep).insert(e.2)
        } else {
            paths_where(es, keep)
        },
{
    let a = paths_where(es.push(e), keep);
    let b = if keep(e) { paths_where(es, keep).insert(e.2) } else { paths_where(es, keep) };
    assert forall|p: Seq<char>| a.contains(p) implies b.contains(p) by {
        let i = choose|i: int| 0 <= i < es.push(e).len() && #[trigger] keep(es.push(e)[i]) && es.push(e)[i].2 == p;
        if i < es.len() {
            assert(keep(es[i]) && es[i].2 == p);
        }
    }
    assert forall|p: Seq<char>| b.contains(p) implies a.contains(p) by {
        if keep(e) && p == e.2 {
            assert(keep(es.push(e)[es.len() as int]));
        } else {
            let i = choose|i: int| 0 <= i < es.len() && #[trigger] keep(es[i]) && es[i].2 == p;
            assert(keep(es.push(e)[i]));
        }
    }
    assert(a =~= b);
}

/// `??`: a path Git has never been told about.
pub open spec fn is_unknown(e: (u8, u8, Seq<char>)) -> bool {
    e.0 == 0x3Fu8 && e.1 == 0x3Fu8
}

/// Any record at all.
pub open spec fn any_record(e: (u8, u8, Seq<char>)) -> bool {
    true
}

/// An index-side difference from HEAD: the staged content is not committed.
pub open spec fn index_differs(e: (u8, u8, Seq<char>)) -> bool {
    !is_unknown(e) && e.0 != 0x20u8
}

/// A worktree-side difference: the current content is not even staged.
pub open spec fn worktree_differs(e: (u8, u8, Seq<char>)) -> bool {
    !is_unknown(e) && e.1 != 0x20u8
}

/// The five reachability buckets, each an ordered set of paths.
#[derive(Debug, Clone)]
pub struct Buckets {
    pub committed: Vec<String>,
    pub staged: Vec<String>,
    pub unstaged: Vec<String>,
    pub untracked: Vec<String>,
    pub ignored: Vec<String>,
}

impl Buckets {
    /// Every bucket is an ordered set.
    pub open spec fn wf(&self) -> bool {
        &&& sorted_strict(sv(self.committed@))
        &&& sorted_strict(sv(self.staged@))
        &&& sorted_strict(sv(self.unstaged@))
        &&& sorted_strict(sv(self.untracked@))
        &&& sorted_strict(sv(self.ignored@))
    }

    /// Something is not yet committed.
    pub open spec fn is_pending(&self) -> bool {
        !(self.staged@.len() == 0 && self.unstaged@.len() == 0 && self.untracked@.len() == 0
            && self.ignored@.len() == 0)
    }

    /// Empty buckets.
    pub fn new() -> (r: Buckets)
        ensures
            r.wf(),
            r.committed@.len() == 0,
            r.staged@.len() == 0,
            r.unstaged@.len() == 0,
            r.untracked@.len() == 0,
            r.ignored@.len() == 0,
    {
        Buckets {
            committed: Vec::new(),
            staged: Vec::new(),
            unstaged: Vec::new(),
            untracked: Vec::new(),
            ignored: Vec::new(),
        }
    }

    /// Whether any path still waits for a commit.
    pub fn pending(&self) -> (r: bool)
        ensures
            r == self.is_pending(),
    {
        !(self.staged.len() == 0 && self.unstaged.len() == 0 && self.untracked.len() == 0
            && self.ignored.len() == 0)
    }
}

/// The overall answer: `committed` when nothing is pending, otherwise the
/// pending bucket that made the least progress toward a commit.
pub open spec fn verdict_of(b: Buckets) -> Seq<char> {
    if !b.is_pending() {
        "committed"@
    } else if b.ignored@.len() > 0 {
        "ignored"@
    } else if b.untracked@.len() > 0 {
        "untracked"@
    } else if b.staged@.len() > 0 {
        "staged"@
    } else {
        "unstaged"@
    }
}

/// The overall answer for a set of buckets (see `answer_of`).
pub fn verdict(buckets: &Buckets) -> (r: String)
    ensures
        r@ == verdict_of(*buckets),
{
    if !buckets.pending() {
        return owned("committed");
    }
    if buckets.ignored.len() > 0 {
        owned("ignored")
    } else if buckets.untracked.len() > 0 {
        owned("untracked")
    } else if buckets.staged.len() > 0 {
        owned("staged")
    } else {
        owned("unstaged")
    }
}

/// What `bucket` puts in each bucket, as sets of paths.
pub open spec fn bucket_spec(
    es: Seq<(u8, u8, Seq<char>)>,
    in_index: Set<Seq<char>>,
    ignored: Set<Seq<char>>,
    invisible: Set<Seq<char>>,
    b: Buckets,
) -> bool {
    &&& b.wf()
    &&& sv(b.staged@).to_set() == paths_where(es, |e: (u8, u8, Seq<char>)| index_differs(e))
    &&& sv(b.unstaged@).to_set() == paths_where(es, |e: (u8, u8, Seq<char>)| worktree_differs(e))
    &&& sv(b.committed@).to_set() == in_index.difference(
        paths_where(es, |e: (u8, u8, Seq<char>)| any_record(e)),
    )
    &&& sv(b.ignored@).to_set() == paths_where(es, |e: (u8, u8, Seq<char>)| is_unknown(e)).intersect(
        ignored,
    ).union(invisible.intersect(ignored))
    &&& sv(b.untracked@).to_set() == paths_where(es, |e: (u8, u8, Seq<char>)| is_unknown(e)).difference(
        ignored,
    ).union(invisible.difference(ignored))
}

/// Classify status records into buckets. `in_index` is the index membership
/// (`git ls-files`), `ignored` what `check-ignore` confirmed, and `invisible`
/// the on-disk checkpoint files neither status nor the index mentioned. A
/// in_index path without a status record is committed; `MM` lands in both
/// the staged and the unstaged bucket.
pub fn bucket(
    entries: &Vec<StatusEntry>,
    in_index: &Vec<String>,
    ignored: &Vec<String>,
    invisible: &Vec<String>,
) -> (r: Buckets)
    ensures
        bucket_spec(
            entries_view(entries@),
            sv(in_index@).to_set(),
            sv(ignored@).to_set(),
            sv(invisible@).to_set(),
            r,
        ),
{
    let ghost es = entries_view(entries@);
    let ghost ign = sv(ignored@).to_set();
    let ghost k_any = |e: (u8, u8, Seq<char>)| any_record(e);
    let ghost k_unknown = |e: (u8, u8, Seq<char>)| is_unknown(e);
    let ghost k_staged = |e: (u8, u8, Seq<char>)| index_differs(e);
    let ghost k_unstaged = |e: (u8, u8, Seq<char>)| worktree_differs(e);
    let mut b = Buckets::new();
    let mut entered: Vec<String> = Vec::new();
    let mut i: usize = 0;
    assert(sv(b.staged@).to_set() =~= paths_where(es.take(0), k_staged));
    assert(sv(b.unstaged@).to_set() =~= paths_where(es.take(0), k_unstaged));
    assert(sv(entered@).to_set() =~= paths_where(es.take(0), k_any));
    assert(sv(b.ignored@).to_set() =~= paths_where(es.take(0), k_unknown).intersect(ign));
    assert(sv(b.untracked@).to_set() =~= paths_where(es.take(0), k_unknown).difference(ign));
    while i < entries.len()
        invariant
            i <= entries@.len(),
            es == entries_view(entries@),
            ign == sv(ignored@).to_set(),
            k_any == (|e: (u8, u8, Seq<char>)| any_record(e)),
            k_unknown == (|e: (u8, u8, Seq<char>)| is_unknown(e)),
            k_staged == (|e: (u8, u8, Seq<char>)| index_differs(e)),
            k_unstaged == (|e: (u8, u8, Seq<char>)| worktree_differs(e)),
            b.wf(),
            b.committed@.len() == 0,
            sorted_strict(sv(entered@)),
            sv(entered@).to_set() == paths_where(es.take(i as int), k_any),
            sv(b.staged@).to_set() == paths_where(es.take(i as int), k_staged),
            sv(b.unstaged@).to_set() == paths_where(es.take(i as int), k_unstaged),
            sv(b.ignored@).to_set() == paths_where(es.take(i as int), k_unknown).intersect(ign),
            sv(b.untracked@).to_set() == paths_where(es.take(i as int), k_unknown).difference(ign),
        decreases entries@.len() - i,
    {
        let x = entries[i].0;
        let y = entries[i].1;
        let path = &entries[i].2;
        let ghost e = es[i as int];
        assert(es.take(i + 1) =~= es.take(i as int).push(e));
        proof {
            lemma_paths_where_push(es.take(i as int), e, k_any);
            lemma_paths_where_push(es.take(i as int), e, k_unknown);
            lemma_paths_where_push(es.take(i as int), e, k_staged);
            lemma_paths_where_push(es.take(i as int), e, k_unstaged);
        }
        set_insert(&mut entered, path.clone());
        if x == 0x3Fu8 && y == 0x3Fu8 {
            if list_contains(ignored, path.as_str()) {
                set_insert(&mut b.ignored, path.clone());
                assert(sv(b.ignored@).to_set() =~= paths_where(es.take(i + 1), k_unknown).intersect(ign));
                assert(sv(b.untracked@).to_set() =~= paths_where(es.take(i + 1), k_unknown).difference(ign));
            } else {
                set_insert(&mut b.untracked, path.clone());
                assert(sv(b.ignored@).to_set() =~= paths_where(es.take(i + 1), k_unknown).intersect(ign));
                assert(sv(b.untracked@).to_set() =~= paths_where(es.take(i + 1), k_unknown).difference(ign));
            }
        } else {
            if x != 0x20u8 {
                set_insert(&mut b.staged, path.clone());
            }
            if y != 0x20u8 {
                set_insert(&mut b.unstaged, path.clone());
            }
        }
        i = i + 1;
    }
    assert(es.take(entries@.len() as int) =~= es);
    let ghost entered_set = paths_where(es, k_any);
    let ghost tr = sv(in_index@).to_set();
    let mut j: usize = 0;
    assert(sv(b.committed@).to_set() =~= sv(in_index@.take(0)).to_set().difference(entered_set));
    while j < in_index.len()
        invariant
            j <= in_index@.len(),
            es == entries_view(entries@),
            ign == sv(ignored@).to_set(),
            k_any == (|e: (u8, u8, Seq<char>)| any_record(e)),
            k_unknown == (|e: (u8, u8, Seq<char>)| is_unknown(e)),
            k_staged == (|e: (u8, u8, Seq<char>)| index_differs(e)),
            k_unstaged == (|e: (u8, u8, Seq<char>)| worktree_differs(e)),
            b.wf(),
            sv(entered@).to_set() == entered_set,
            sv(b.committed@).to_set() == sv(in_index@.take(j as int)).to_set().difference(entered_set),
            sv(b.staged@).to_set() == paths_where(es, k_staged),
            sv(b.unstaged@).to_set() == paths_where(es, k_unstaged),
            sv(b.ignored@).to_set() == paths_where(es, k_unknown).intersect(ign),
            sv(b.untracked@).to_set() == paths_where(es, k_unknown).difference(ign),
        decreases in_index@.len() - j,
    {
        let path = &in_index[j];
        let ghost before = sv(in_index@.take(j as int));
        assert(sv(in_index@.take(j + 1)) =~= before.push(path@));
        proof {
            crate::text::lemma_push_to_set(before, path@);
        }
        if !list_contains(&entered, path.as_str()) {
            set_insert(&mut b.committed, path.clone());
            assert(sv(b.committed@).to_set() =~= sv(in_index@.take(j + 1)).to_set().difference(entered_set));
        } else {
            assert(sv(b.committed@).to_set() =~= sv(in_index@.take(j + 1)).to_set().difference(entered_set));
        }
        j = j + 1;
    }
    assert(in_index@.take(in_index@.len() as int) =~= in_index@);
    let ghost inv = sv(invisible@).to_set();
    let mut k: usize = 0;
    assert(sv(invisible@.take(0)).to_set() =~= Set::<Seq<char>>::empty());
    assert(paths_where(es, k_unknown).intersect(ign) =~= paths_where(es, k_unknown).intersect(ign).union(sv(invisible@.take(0)).to_set().intersect(ign)));
    assert(paths_where(es, k_unknown).difference(ign) =~= paths_where(es, k_unknown).difference(ign).union(sv(invisible@.take(0)).to_set().difference(ign)));
    while k < invisible.len()
        invariant
            k <= invisible@.len(),
            tr == sv(in_index@).to_set(),
            es == entries_view(entries@),
            ign == sv(ignored@).to_set(),
            k_any == (|e: (u8, u8, Seq<char>)| any_record(e)),
            k_unknown == (|e: (u8, u8, Seq<char>)| is_unknown(e)),
            k_staged == (|e: (u8, u8, Seq<char>)| index_differs(e)),
            k_unstaged == (|e: (u8, u8, Seq<char>)| worktree_differs(e)),
            b.wf(),
            sv(b.committed@).to_set() == tr.difference(entered_set),
            sv(b.staged@).to_set() == paths_where(es, k_staged),
            sv(b.unstaged@).to_set() == paths_where(es, k_unstaged),
            sv(b.ignored@).to_set() == paths_where(es, k_unknown).intersect(ign).union(
                sv(invisible@.take(k as int)).to_set().intersect(ign),
            ),
            sv(b.untracked@).to_set() == paths_where(es, k_unknown).difference(ign).union(
                sv(invisible@.take(k as int)).to_set().difference(ign),
            ),
        decreases invisible@.len() - k,
    {
        let path = &invisible[k];
        let ghost before = sv(invisible@.take(k as int));
        assert(sv(invisible@.take(k + 1)) =~= before.push(path@));
        proof {
            crate::text::lemma_push_to_set(before, path@);
        }
        if list_contains(ignored, path.as_str()) {
            set_insert(&mut b.ignored, path.clone());
        } else {
            set_insert(&mut b.untracked, path.clone());
        }
        assert(sv(b.ignored@).to_set() =~= paths_where(es, k_unknown).intersect(ign).union(
            sv(invisible@.take(k + 1)).to_set().intersect(ign)));
        assert(sv(b.untracked@).to_set() =~= paths_where(es, k_unknown).difference(ign).union(
            sv(invisible@.take(k + 1)).to_set().difference(ign)));
        k = k + 1;
    }
    assert(invisible@.take(invisible@.len() as int) =~= invisible@);
    b
}


/// How much of the published checkpoint Git can reach. Paths are relative
/// to the workspace root.
#[derive(Debug, Clone)]
pub struct GitReachability {
    /// `committed`, `staged`, `unstaged`, `untracked`, `ignored`, or
    /// `unavailable`.
    pub status: String,
    /// Why Git could not answer; present only for `unavailable`.
    pub unavailable_reason: Option<String>,
    pub committed: Vec<String>,
    pub staged: Vec<String>,
    pub unstaged: Vec<String>,
    pub untracked: Vec<String>,
    pub ignored: Vec<String>,
}

/// The explicit answer when Git could not be asked.
pub fn unavailable(reason: String) -> (r: GitReachability)
    ensures
        r.status@ == "unavailable"@,
        r.unavailable_reason == Some(reason),
        r.committed@.len() == 0,
        r.staged@.len() == 0,
        r.unstaged@.len() == 0,
        r.untracked@.len() == 0,
        r.ignored@.len() == 0,
{
    GitReachability {
        status: owned("unavailable"),
        unavailable_reason: Some(reason),
        committed: Vec::new(),
        staged: Vec::new(),
        unstaged: Vec::new(),
        untracked: Vec::new(),
        ignored: Vec::new(),
    }
}

/// The report for a completed probe: the answer and the buckets as lists.
pub fn reachability_of(buckets: Buckets) -> (r: GitReachability)
    ensures
        r.status@ == verdict_of(buckets),
        r.unavailable_reason is None,
        r.committed@ == buckets.committed@,
        r.staged@ == buckets.staged@,
        r.unstaged@ == buckets.unstaged@,
        r.untracked@ == buckets.untracked@,
        r.ignored@ == buckets.ignored@,
{
    let status = verdict(&buckets);
    GitReachability {
        status,
        unavailable_reason: None,
        committed: buckets.committed,
        staged: buckets.staged,
        unstaged: buckets.unstaged,
        untracked: buckets.untracked,
        ignored: buckets.ignored,
    }
}

/// `name: path, path, ...` for one pending bucket.
pub open spec fn bucket_section(name: Seq<char>, paths: Seq<String>) -> Seq<char> {
    name + ": "@ + join_seq(sv(paths), ", "@)
}

/// One section per non-empty pending bucket, in the order staged,
/// unstaged, untracked, ignored.
pub open spec fn pending_sections(r: GitReachability) -> Seq<Seq<char>> {
    let s0: Seq<Seq<char>> = if r.staged@.len() > 0 {
        seq![bucket_section("staged"@, r.staged@)]
    } else {
        Seq::empty()
    };
    let s1 = if r.unstaged@.len() > 0 {
        s0.push(bucket_section("unstaged"@, r.unstaged@))
    } else {
        s0
    };
    let s2 = if r.untracked@.len() > 0 {
        s1.push(bucket_section("untracked"@, r.untracked@))
    } else {
        s1
    };
    if r.ignored@.len() > 0 {
        s2.push(bucket_section("ignored"@, r.ignored@))
    } else {
        s2
    }
}

fn section(name: &str, paths: &Vec<String>) -> (r: String)
    ensures
        r@ == bucket_section(name@, paths@),
{
    let mut s = owned(name);
    push_str(&mut s, ": ");
    let listed = join(paths, ", ");
    push_str(&mut s, listed.as_str());
    s
}

/// The prefix of the reason the readiness check adds when files are not committed.
pub open spec fn not_committed_prefix() -> Seq<char> {
    "checkpoint not fully committed (Git cannot reach every published file): "@
}

/// What the commit-readiness check answers (see `commit_readiness`).
pub open spec fn readiness_spec(
    ready: bool,
    reasons: Seq<Seq<char>>,
    reach: Option<GitReachability>,
) -> (bool, Seq<Seq<char>>) {
    match reach {
        None => (ready, reasons),
        Some(g) => match g.unavailable_reason {
            Some(why) => (false, reasons.push("git reachability unavailable: "@ + why@)),
            None => if pending_sections(g).len() == 0 {
                (ready, reasons)
            } else {
                (false, reasons.push(not_committed_prefix() + join_seq(pending_sections(g), "; "@)))
            },
        },
    }
}

/// Fold the Git probe into the `ready_to_commit` answer: no probe (no
/// published checkpoint) passes the internal answer through; an
/// unavailable probe is never a silent yes; any pending bucket is never a
/// bare yes and is named with its paths.
pub fn commit_readiness(
    checkpoint_ready: bool,
    checkpoint_reasons: Vec<String>,
    reachability: Option<&GitReachability>,
) -> (r: (bool, Vec<String>))
    ensures
        (r.0, sv(r.1@)) == readiness_spec(
            checkpoint_ready,
            sv(checkpoint_reasons@),
            match reachability {
                Some(g) => Some(*g),
                None => None,
            },
        ),
{
    let mut reasons = checkpoint_reasons;
    let reach = match reachability {
        None => {
            return (checkpoint_ready, reasons);
        },
        Some(g) => g,
    };
    if let Some(why) = &reach.unavailable_reason {
        let line = cat("git reachability unavailable: ", why.as_str());
        let ghost before = sv(reasons@);
        reasons.push(line);
        assert(sv(reasons@) =~= before.push(line@));
        return (false, reasons);
    }
    let mut sections: Vec<String> = Vec::new();
    if reach.staged.len() > 0 {
        sections.push(section("staged", &reach.staged));
    }
    if reach.unstaged.len() > 0 {
        sections.push(section("unstaged", &reach.unstaged));
    }
    if reach.untracked.len() > 0 {
        sections.push(section("untracked", &reach.untracked));
    }
    if reach.ignored.len() > 0 {
        sections.push(section("ignored", &reach.ignored));
    }
    assert(sv(sections@) =~= pending_sections(*reach));
    if sections.len() == 0 {
        return (checkpoint_ready, reasons);
    }
    let detail = join(&sections, "; ");
    let line = cat(
        "checkpoint not fully committed (Git cannot reach every published file): ",
        detail.as_str(),
    );
    let ghost before = sv(reasons@);
    reasons.push(line);
    assert(sv(reasons@) =~= before.push(line@));
    (false, reasons)
}


/// The status records that are checkpoint state: runtime files are carved
/// out wherever Git would classify them.
pub fn probe_entries(status_raw: &[u8]) -> (r: Vec<StatusEntry>)
    ensures
        entries_view(r@) == porcelain_entries(split_seq(status_raw@, 0u8)).filter(
            |e: (u8, u8, Seq<char>)| !is_runtime_path(e.2),
        ),
{
    let all = parse_porcelain_z(status_raw);
    let ghost keep = |e: (u8, u8, Seq<char>)| !is_runtime_path(e.2);
    let mut out: Vec<StatusEntry> = Vec::new();
    let mut i: usize = 0;
    while i < all.len()
        invariant
            i <= all@.len(),
            keep == (|e: (u8, u8, Seq<char>)| !is_runtime_path(e.2)),
            entries_view(out@) == entries_view(all@).take(i as int).filter(keep),
        decreases all@.len() - i,
    {
        let ghost ev = entries_view(all@);
        assert(ev.take(i + 1).drop_last() =~= ev.take(i as int));
        proof {
            reveal_with_fuel(Seq::filter, 1);
        }
        let runtime = is_runtime_checkpoint_file(all[i].2.as_str());
        if !runtime {
            let e = (all[i].0, all[i].1, all[i].2.clone());
            let ghost before = entries_view(out@);
            out.push(e);
            assert(entries_view(out@) =~= before.push(entry_view(e)));
        }
        i = i + 1;
    }
    assert(entries_view(all@).take(all@.len() as int) =~= entries_view(all@));
    out
}

/// The paths `git ls-files -z` names, as an ordered set without runtime files.
pub fn index_paths(ls_files_raw: &[u8]) -> (r: Vec<String>)
    ensures
        sorted_strict(sv(r@)),
        forall|p: Seq<char>| #[trigger] sv(r@).to_set().contains(p) <==> (!is_runtime_path(p) && exists|f: Seq<u8>|
            split_seq(ls_files_raw@, 0u8).contains(f) && f.len() > 0 && lossy_text(f) == p),
{
    let fields = split_bytes(ls_files_raw, 0u8);
    let ghost fs = fields@.map_values(|v: Vec<u8>| v@);
    let mut out: Vec<String> = Vec::new();
    let mut i: usize = 0;
    while i < fields.len()
        invariant
            i <= fields@.len(),
            fs == fields@.map_values(|v: Vec<u8>| v@),
            fs == split_seq(ls_files_raw@, 0u8),
            sorted_strict(sv(out@)),
            forall|p: Seq<char>| #[trigger] sv(out@).to_set().contains(p) <==> (!is_runtime_path(p) && exists|k: int|
                0 <= k < i && fs[k].len() > 0 && lossy_text(fs[k]) == p),
        decreases fields@.len() - i,
    {
        if fields[i].len() > 0 {
            let path = lossy_string(fields[i].as_slice());
            if !is_runtime_checkpoint_file(path.as_str()) {
                let ghost before = sv(out@).to_set();
                set_insert(&mut out, path);
                assert forall|p: Seq<char>| #[trigger] sv(out@).to_set().contains(p) <==> (!is_runtime_path(p) && exists|k: int|
                    0 <= k < i + 1 && fs[k].len() > 0 && lossy_text(fs[k]) == p) by {
                    if sv(out@).to_set().contains(p) && p != path@ {
                        assert(before.contains(p));
                    }
                    if p == path@ {
                        assert(fs[i as int].len() > 0 && lossy_text(fs[i as int]) == p);
                    }
                    if !is_runtime_path(p) && exists|k: int| 0 <= k < i + 1 && fs[k].len() > 0 && lossy_text(fs[k]) == p {
                        let k = choose|k: int| 0 <= k < i + 1 && fs[k].len() > 0 && lossy_text(fs[k]) == p;
                        if k < i {
                            assert(before.contains(p));
                        }
                    }
                }
            } else {
                assert forall|p: Seq<char>| #[trigger] sv(out@).to_set().contains(p) <==> (!is_runtime_path(p) && exists|k: int|
                    0 <= k < i + 1 && fs[k].len() > 0 && lossy_text(fs[k]) == p) by {
                    if !is_runtime_path(p) && exists|k: int| 0 <= k < i + 1 && fs[k].len() > 0 && lossy_text(fs[k]) == p {
                        let k = choose|k: int| 0 <= k < i + 1 && fs[k].len() > 0 && lossy_text(fs[k]) == p;
                        assert(k < i);
                    }
                }
            }
        } else {
            assert forall|p: Seq<char>| #[trigger] sv(out@).to_set().contains(p) <==> (!is_runtime_path(p) && exists|k: int|
                0 <= k < i + 1 && fs[k].len() > 0 && lossy_text(fs[k]) == p) by {
                if !is_runtime_path(p) && exists|k: int| 0 <= k < i + 1 && fs[k].len() > 0 && lossy_text(fs[k]) == p {
                    let k = choose|k: int| 0 <= k < i + 1 && fs[k].len() > 0 && lossy_text(fs[k]) == p;
                    assert(k < i);
                }
            }
        }
        i = i + 1;
    }
    assert forall|p: Seq<char>| #[trigger] sv(out@).to_set().contains(p) <==> (!is_runtime_path(p) && exists|f: Seq<u8>|
        split_seq(ls_files_raw@, 0u8).contains(f) && f.len() > 0 && lossy_text(f) == p) by {
        if sv(out@).to_set().contains(p) {
            let k = choose|k: int| 0 <= k < fs.len() && fs[k].len() > 0 && lossy_text(fs[k]) == p;
            assert(fs.contains(fs[k]));
        }
        if !is_runtime_path(p) && exists|f: Seq<u8>| split_seq(ls_files_raw@, 0u8).contains(f) && f.len() > 0 && lossy_text(f) == p {
            let f = choose|f: Seq<u8>| split_seq(ls_files_raw@, 0u8).contains(f) && f.len() > 0 && lossy_text(f) == p;
            let k = choose|k: int| 0 <= k < fs.len() && fs[k] == f;
            assert(0 <= k < fs.len() && fs[k].len() > 0 && lossy_text(fs[k]) == p);
        }
    }
    out
}

/// The on-disk checkpoint files that neither status nor the index
/// accounted for (runtime files excluded): where an ignored checkpoint hides.
pub fn invisible_paths(
    on_disk: &Vec<String>,
    entries: &Vec<StatusEntry>,
    in_index: &Vec<String>,
) -> (r: Vec<String>)
    ensures
        sv(r@) == sv(on_disk@).filter(
            |p: Seq<char>|
                !is_runtime_path(p) && !paths_where(entries_view(entries@), |e: (u8, u8, Seq<char>)| any_record(e)).contains(p)
                    && !sv(in_index@).contains(p),
        ),
{
    let ghost entered = paths_where(entries_view(entries@), |e: (u8, u8, Seq<char>)| any_record(e));
    let ghost keep = |p: Seq<char>| !is_runtime_path(p) && !entered.contains(p) && !sv(in_index@).contains(p);
    let mut seen: Vec<String> = Vec::new();
    let mut e: usize = 0;
    while e < entries.len()
        invariant
            e <= entries@.len(),
            forall|p: Seq<char>| sv(seen@).contains(p) <==> exists|k: int| 0 <= k < e && (#[trigger] entries@[k]).2@ == p,
        decreases entries@.len() - e,
    {
        let ghost before = sv(seen@);
        seen.push(entries[e].2.clone());
        assert(sv(seen@) =~= before.push(entries@[e as int].2@));
        assert forall|p: Seq<char>| sv(seen@).contains(p) <==> exists|k: int| 0 <= k < e + 1 && (#[trigger] entries@[k]).2@ == p by {
            if sv(seen@).contains(p) {
                let j = choose|j: int| 0 <= j < sv(seen@).len() && sv(seen@)[j] == p;
                if j < before.len() {
                    assert(before.contains(p));
                }
            }
            if exists|k: int| 0 <= k < e + 1 && (#[trigger] entries@[k]).2@ == p {
                let k = choose|k: int| 0 <= k < e + 1 && (#[trigger] entries@[k]).2@ == p;
                if k < e {
                    assert(before.contains(p));
                    let j = choose|j: int| 0 <= j < before.len() && before[j] == p;
                    assert(sv(seen@)[j] == p);
                } else {
                    assert(sv(seen@)[before.len() as int] == p);
                }
            }
        }
        e = e + 1;
    }
    assert forall|p: Seq<char>| sv(seen@).contains(p) <==> entered.contains(p) by {
        let ev = entries_view(entries@);
        let ka = |e: (u8, u8, Seq<char>)| any_record(e);
        assert(entered == paths_where(ev, ka));
        if sv(seen@).contains(p) {
            let k = choose|k: int| 0 <= k < entries@.len() && (#[trigger] entries@[k]).2@ == p;
            assert(ka(ev[k]) && ev[k].2 == p);
        }
        if entered.contains(p) {
            let k = choose|k: int| 0 <= k < ev.len() && #[trigger] ka(ev[k]) && ev[k].2 == p;
            assert(entries@[k].2@ == p);
        }
    }
    let mut out: Vec<String> = Vec::new();
    let mut i: usize = 0;
    while i < on_disk.len()
        invariant
            i <= on_disk@.len(),
            forall|p: Seq<char>| sv(seen@).contains(p) <==> entered.contains(p),
            keep == (|p: Seq<char>| !is_runtime_path(p) && !entered.contains(p) && !sv(in_index@).contains(p)),
            sv(out@) == sv(on_disk@.take(i as int)).filter(keep),
        decreases on_disk@.len() - i,
    {
        let path = &on_disk[i];
        assert(sv(on_disk@.take(i + 1)) =~= sv(on_disk@.take(i as int)).push(path@));
        assert(sv(on_disk@.take(i + 1)).drop_last() =~= sv(on_disk@.take(i as int)));
        proof {
            reveal_with_fuel(Seq::filter, 1);
        }
        let runtime = is_runtime_checkpoint_file(path.as_str());
        let was_seen = list_contains(&seen, path.as_str());
        let indexed = list_contains(in_index, path.as_str());
        if !runtime && !was_seen && !indexed {
            let ghost before = sv(out@);
            out.push(path.clone());
            assert(sv(out@) =~= before.push(path@));
        }
        i = i + 1;
    }
    assert(on_disk@.take(on_disk@.len() as int) =~= on_disk@);
    out
}

/// The paths `git check-ignore --stdin -z` printed.
pub fn ignore_answer(raw: &[u8]) -> (r: Vec<String>)
    ensures
        sv(r@) == split_seq(lossy_text(raw@), '\0').filter(|p: Seq<char>| p.len() > 0),
{
    let text = lossy_string(raw);
    let cs = chars_of(text.as_str());
    let ghost keep = |p: Seq<char>| p.len() > 0;
    let mut out: Vec<String> = Vec::new();
    let mut cur: Vec<char> = Vec::new();
    let mut i: usize = 0;
    while i < cs.len()
        invariant
            i <= cs@.len(),
            cs@ == lossy_text(raw@),
            keep == (|p: Seq<char>| p.len() > 0),
            split_seq(cs@.take(i as int), '\0') == split_seq(cs@.take(i as int), '\0').drop_last().push(cur@),
            sv(out@) == split_seq(cs@.take(i as int), '\0').drop_last().filter(keep),
        decreases cs@.len() - i,
    {
        proof {
            lemma_split_seq_nonempty(cs@.take(i as int), '\0');
            assert(cs@.take(i + 1).drop_last() =~= cs@.take(i as int));
        }
        let ghost prev = split_seq(cs@.take(i as int), '\0');
        let c = cs[i];
        if c == '\0' {
            proof {
                assert(split_seq(cs@.take(i + 1), '\0') == prev.push(Seq::<char>::empty()));
                assert(split_seq(cs@.take(i + 1), '\0').drop_last() =~= prev);
                assert(prev =~= prev.drop_last().push(cur@));
                reveal_with_fuel(Seq::filter, 1);
                assert(prev.drop_last().push(cur@).drop_last() =~= prev.drop_last());
            }
            if cur.len() > 0 {
                let piece = string_of(cur.as_slice());
                let ghost before = sv(out@);
                out.push(piece);
                assert(sv(out@) =~= before.push(cur@));
            }
            cur = Vec::new();
        } else {
            cur.push(c);
            proof {
                assert(split_seq(cs@.take(i + 1), '\0') =~= prev.update(prev.len() - 1, prev.last().push(c)));
                assert(split_seq(cs@.take(i + 1), '\0').drop_last() =~= prev.drop_last());
            }
        }
        i = i + 1;
    }
    proof {
        assert(cs@.take(cs@.len() as int) =~= cs@);
        lemma_split_seq_nonempty(cs@, '\0');
        let pieces = split_seq(cs@, '\0');
        reveal_with_fuel(Seq::filter, 1);
        assert(pieces =~= pieces.drop_last().push(cur@));
        assert(pieces.drop_last().push(cur@).drop_last() =~= pieces.drop_last());
    }
    if cur.len() > 0 {
        let piece = string_of(cur.as_slice());
        let ghost before = sv(out@);
        out.push(piece);
        assert(sv(out@) =~= before.push(cur@));
    }
    out
}


/// The answer reads `committed` exactly when no bucket is pending.
pub proof fn law_verdict_committed_iff_nothing_pending(b: Buckets)
    ensures
        (verdict_of(b) == "committed"@) <==> !b.is_pending(),
{
    reveal_strlit("committed");
    reveal_strlit("ignored");
    reveal_strlit("untracked");
    reveal_strlit("staged");
    reveal_strlit("unstaged");
    if b.is_pending() {
        assert(verdict_of(b) != "committed"@) by {
            let v = verdict_of(b);
            if b.ignored@.len() > 0 {
                assert(v[0] == 'i');
            } else if b.untracked@.len() > 0 {
                assert(v.len() == 9);
            } else if b.staged@.len() > 0 {
                assert(v.len() == 6);
            } else {
                assert(v.len() == 8 && v[0] == 'u');
            }
        }
    }
}

/// The readiness check never turns a answer into yes: a ready answer needs a
/// ready checkpoint and, when Git was asked, an available probe with no
/// pending bucket. The internal reasons are always kept, in front.
pub proof fn law_gate_never_a_silent_yes(
    ready: bool,
    reasons: Seq<Seq<char>>,
    reach: Option<GitReachability>,
)
    ensures
        readiness_spec(ready, reasons, reach).0 ==> ready,
        readiness_spec(ready, reasons, reach).0 && reach is Some ==> (reach->0.unavailable_reason is None
            && reach->0.staged@.len() == 0 && reach->0.unstaged@.len() == 0
            && reach->0.untracked@.len() == 0 && reach->0.ignored@.len() == 0),
        readiness_spec(ready, reasons, reach).1.take(reasons.len() as int) == reasons,
{
    let r = readiness_spec(ready, reasons, reach);
    assert(r.1.take(reasons.len() as int) =~= reasons);
}

/// Every path a probe reports comes from the records, the index or the
/// invisible set handed to `bucket`; so when none of those holds a runtime
/// file, no bucket does.
pub proof fn law_runtime_files_in_no_bucket(
    es: Seq<(u8, u8, Seq<char>)>,
    in_index: Set<Seq<char>>,
    ignored: Set<Seq<char>>,
    invisible: Set<Seq<char>>,
    b: Buckets,
)
    requires
        bucket_spec(es, in_index, ignored, invisible, b),
        forall|i: int| 0 <= i < es.len() ==> !is_runtime_path(#[trigger] es[i].2),
        forall|p: Seq<char>| in_index.contains(p) ==> !is_runtime_path(p),
        forall|p: Seq<char>| invisible.contains(p) ==> !is_runtime_path(p),
    ensures
        forall|p: Seq<char>|
            (sv(b.committed@).contains(p) || sv(b.staged@).contains(p) || sv(b.unstaged@).contains(p)
                || sv(b.untracked@).contains(p) || sv(b.ignored@).contains(p)) ==> !is_runtime_path(p),
{
    assert forall|p: Seq<char>|
        (sv(b.committed@).contains(p) || sv(b.staged@).contains(p) || sv(b.unstaged@).contains(p)
            || sv(b.untracked@).contains(p) || sv(b.ignored@).contains(p)) implies !is_runtime_path(p) by {
        assert(sv(b.committed@).contains(p) ==> sv(b.committed@).to_set().contains(p));
        assert(sv(b.staged@).contains(p) ==> sv(b.staged@).to_set().contains(p));
        assert(sv(b.unstaged@).contains(p) ==> sv(b.unstaged@).to_set().contains(p));
        assert(sv(b.untracked@).contains(p) ==> sv(b.untracked@).to_set().contains(p));
        assert(sv(b.ignored@).contains(p) ==> sv(b.ignored@).to_set().contains(p));
        let k1 = |e: (u8, u8, Seq<char>)| index_differs(e);
        let k2 = |e: (u8, u8, Seq<char>)| worktree_differs(e);
        let k3 = |e: (u8, u8, Seq<char>)| is_unknown(e);
        if paths_where(es, k1).contains(p) {
            let i = choose|i: int| 0 <= i < es.len() && #[trigger] k1(es[i]) && es[i].2 == p;
        }
        if paths_where(es, k2).contains(p) {
            let i = choose|i: int| 0 <= i < es.len() && #[trigger] k2(es[i]) && es[i].2 == p;
        }
        if paths_where(es, k3).contains(p) {
            let i = choose|i: int| 0 <= i < es.len() && #[trigger] k3(es[i]) && es[i].2 == p;
        }
    }
}

/// Why a Git program could not be started: a missing binary is named as
/// such; anything else carries the operating system's words.
pub open spec fn spawn_failure_text(not_found: bool, detail: Seq<char>) -> Seq<char> {
    if not_found {
        "git binary not found on PATH"@
    } else {
        "git could not be executed: "@ + detail
    }
}

/// The reason given when a Git program could not be started.
pub fn spawn_failure(not_found: bool, detail: &str) -> (r: String)
    ensures
        r@ == spawn_failure_text(not_found, detail@),
{
    if not_found {
        owned("git binary not found on PATH")
    } else {
        cat("git could not be executed: ", detail)
    }
}

/// The first line of a program's error output, trimmed.
pub open spec fn stderr_line(stderr: Seq<u8>) -> Seq<char> {
    trim_seq(first_line(lossy_text(stderr)))
}

pub fn stderr_line_of(stderr: &[u8]) -> (r: String)
    ensures
        r@ == stderr_line(stderr@),
{
    let text = lossy_string(stderr);
    let line = first_line_of(text.as_str());
    trim(line.as_str())
}

/// What a finished read-only Git invocation answers: its output on exit 0;
/// on exit 128 the missing repository, the bare exit, or Git's first error
/// line; on another exit Git's first error line; and a truncated answer
/// when a signal ended it.
pub open spec fn read_only_answer_spec(
    subcommand: Seq<char>,
    root: Seq<char>,
    code: Option<i32>,
    stdout: Seq<u8>,
    stderr: Seq<u8>,
) -> Result<Seq<u8>, Seq<char>> {
    match code {
        Some(0) => Ok(stdout),
        Some(128) => if has_infix(stderr_line(stderr), "not a git repository"@) {
            Err("no Git repository above "@ + root)
        } else if stderr_line(stderr).len() == 0 {
            Err("git "@ + subcommand + " failed: exit 128"@)
        } else {
            Err("git "@ + subcommand + " failed: "@ + stderr_line(stderr))
        },
        Some(_) => Err("git "@ + subcommand + " failed: "@ + stderr_line(stderr)),
        None => Err("git "@ + subcommand + " was terminated by a signal"@),
    }
}

pub open spec fn answer_view(r: Result<Vec<u8>, String>) -> Result<Seq<u8>, Seq<char>> {
    match r {
        Ok(v) => Ok(v@),
        Err(m) => Err(m@),
    }
}

/// Decide what one finished read-only Git invocation answered.
pub fn read_only_answer(
    subcommand: &str,
    workspace_root: &str,
    code: Option<i32>,
    stdout: Vec<u8>,
    stderr: &[u8],
) -> (r: Result<Vec<u8>, String>)
    ensures
        answer_view(r) == read_only_answer_spec(subcommand@, workspace_root@, code, stdout@, stderr@),
{
    match code {
        Some(0) => Ok(stdout),
        Some(128) => {
            let line = stderr_line_of(stderr);
            proof {
                reveal_strlit("");
                assert(line@.len() == 0 ==> line@ =~= ""@);
            }
            if str_contains(line.as_str(), "not a git repository") {
                Err(cat("no Git repository above ", workspace_root))
            } else if str_eq(line.as_str(), "") {
                Err(cat3("git ", subcommand, " failed: exit 128"))
            } else {
                let head = cat3("git ", subcommand, " failed: ");
                Err(cat(head.as_str(), line.as_str()))
            }
        },
        Some(_) => {
            let line = stderr_line_of(stderr);
            let head = cat3("git ", subcommand, " failed: ");
            Err(cat(head.as_str(), line.as_str()))
        },
        None => Err(cat3("git ", subcommand, " was terminated by a signal")),
    }
}

/// The `--stdin -z` payload for `git check-ignore`: every candidate's
/// bytes followed by a NUL.
pub open spec fn ignore_payload_spec(candidates: Seq<Seq<char>>) -> Seq<u8>
    decreases candidates.len(),
{
    if candidates.len() == 0 {
        Seq::empty()
    } else {
        ignore_payload_spec(candidates.drop_last()) + vstd::utf8::encode_utf8(candidates.last()) + seq![0u8]
    }
}

/// The bytes `git check-ignore --stdin -z` reads for the candidates.
pub fn ignore_payload(candidates: &Vec<String>) -> (r: Vec<u8>)
    ensures
        r@ == ignore_payload_spec(sv(candidates@)),
{
    let mut out: Vec<u8> = Vec::new();
    let mut i: usize = 0;
    while i < candidates.len()
        invariant
            i <= candidates@.len(),
            out@ == ignore_payload_spec(sv(candidates@.take(i as int))),
        decreases candidates@.len() - i,
    {
        let bytes = candidates[i].as_str().as_bytes();
        let mut j: usize = 0;
        let ghost start = out@;
        while j < bytes.len()
            invariant
                j <= bytes@.len(),
                out@ == start + bytes@.take(j as int),
            decreases bytes@.len() - j,
        {
            out.push(bytes[j]);
            assert(bytes@.take(j + 1) =~= bytes@.take(j as int).push(bytes@[j as int]));
            j = j + 1;
        }
        out.push(0u8);
        proof {
            assert(bytes@.take(bytes@.len() as int) =~= bytes@);
            assert(sv(candidates@.take(i + 1)).drop_last() =~= sv(candidates@.take(i as int)));
            assert(sv(candidates@.take(i + 1)).last() == candidates@[i as int]@);
            assert(out@ =~= ignore_payload_spec(sv(candidates@.take(i + 1))));
        }
        i = i + 1;
    }
    assert(candidates@.take(candidates@.len() as int) =~= candidates@);
    out
}

/// What `git check-ignore` answered: exit 0 or 1 is an answer unless the
/// candidates could not all be written to it; anything else is a failure
/// named by Git's first error line.
pub open spec fn ignore_outcome_spec(
    code: Option<i32>,
    stdout: Seq<u8>,
    stderr: Seq<u8>,
    write_failure: Option<Seq<char>>,
) -> Result<Seq<u8>, Seq<char>> {
    if code == Some(0i32) || code == Some(1i32) {
        match write_failure {
            Some(m) => Err(m),
            None => Ok(stdout),
        }
    } else {
        Err("git check-ignore failed: "@ + stderr_line(stderr))
    }
}

pub open spec fn opt_text(o: Option<String>) -> Option<Seq<char>> {
    match o {
        Some(s) => Some(s@),
        None => None,
    }
}

/// Decide what one `git check-ignore` run answered.
pub fn ignore_outcome(
    code: Option<i32>,
    stdout: Vec<u8>,
    stderr: &[u8],
    write_failure: Option<String>,
) -> (r: Result<Vec<u8>, String>)
    ensures
        answer_view(r) == ignore_outcome_spec(code, stdout@, stderr@, opt_text(write_failure)),
{
    match code {
        Some(0) | Some(1) => match write_failure {
            Some(m) => Err(m),
            None => Ok(stdout),
        },
        _ => {
            let line = stderr_line_of(stderr);
            Err(cat("git check-ignore failed: ", line.as_str()))
        },
    }
}

/// The report lists a completed probe of these buckets.
pub open spec fn reports(g: GitReachability, b: Buckets) -> bool {
    &&& g.status@ == verdict_of(b)
    &&& g.unavailable_reason is None
    &&& g.committed@ == b.committed@
    &&& g.staged@ == b.staged@
    &&& g.unstaged@ == b.unstaged@
    &&& g.untracked@ == b.untracked@
    &&& g.ignored@ == b.ignored@
}

/// The report is the explicit unavailable answer with this reason.
pub open spec fn unavailable_with(g: GitReachability, reason: Seq<char>) -> bool {
    &&& g.status@ == "unavailable"@
    &&& g.unavailable_reason matches Some(w) && w@ == reason
    &&& g.committed@.len() == 0 && g.staged@.len() == 0 && g.unstaged@.len() == 0
    &&& g.untracked@.len() == 0 && g.ignored@.len() == 0
}

/// The report classifies the records, index and ignore answer given.
pub open spec fn classified(
    g: GitReachability,
    es: Seq<(u8, u8, Seq<char>)>,
    in_index: Seq<Seq<char>>,
    ignored: Seq<Seq<char>>,
    invisible: Seq<Seq<char>>,
) -> bool {
    exists|b: Buckets| #[trigger] bucket_spec(es, in_index.to_set(), ignored.to_set(), invisible.to_set(), b) && reports(g, b)
}

/// No path lies in both lists.
pub open spec fn apart(a: Seq<String>, b: Seq<String>) -> bool {
    sv(a).to_set().disjoint(sv(b).to_set())
}

/// What every report of the probe keeps: the status is `unavailable`
/// exactly when a reason is given, and then every bucket is empty;
/// otherwise the status is `committed` when nothing is pending, else the
/// first non-empty of ignored, untracked, staged, unstaged. Every bucket is
/// an ordered set, committed paths appear in no other bucket, and no path
/// is both untracked and ignored.
pub open spec fn consistent_report(g: GitReachability) -> bool {
    &&& (g.status@ == "unavailable"@) == (g.unavailable_reason is Some)
    &&& g.unavailable_reason is Some ==> {
        &&& g.committed@.len() == 0 && g.staged@.len() == 0 && g.unstaged@.len() == 0
        &&& g.untracked@.len() == 0 && g.ignored@.len() == 0
    }
    &&& g.unavailable_reason is None ==> g.status@ == (
        if g.staged@.len() == 0 && g.unstaged@.len() == 0 && g.untracked@.len() == 0 && g.ignored@.len() == 0 {
            "committed"@
        } else if g.ignored@.len() > 0 {
            "ignored"@
        } else if g.untracked@.len() > 0 {
            "untracked"@
        } else if g.staged@.len() > 0 {
            "staged"@
        } else {
            "unstaged"@
        })
    &&& sorted_strict(sv(g.committed@)) && sorted_strict(sv(g.staged@)) && sorted_strict(sv(g.unstaged@))
    &&& sorted_strict(sv(g.untracked@)) && sorted_strict(sv(g.ignored@))
    &&& apart(g.committed@, g.staged@) && apart(g.committed@, g.unstaged@)
    &&& apart(g.committed@, g.untracked@) && apart(g.committed@, g.ignored@)
    &&& apart(g.untracked@, g.ignored@)
}

/// Every answer the probe can finish with is a consistent report: the
/// explicit unavailable answer, or a classification whose invisible files
/// are, as the probe computes them, neither in a status record nor in the
/// index.
pub proof fn law_probe_reports_are_consistent(
    g: GitReachability,
    reason: Seq<char>,
    es: Seq<(u8, u8, Seq<char>)>,
    in_index: Seq<Seq<char>>,
    ignored: Seq<Seq<char>>,
    invisible: Seq<Seq<char>>,
)
    requires
        unavailable_with(g, reason) || (classified(g, es, in_index, ignored, invisible) && unaccounted(es, in_index, invisible)),
    ensures
        consistent_report(g),
{
    reveal_strlit("unavailable");
    reveal_strlit("committed");
    reveal_strlit("ignored");
    reveal_strlit("untracked");
    reveal_strlit("staged");
    reveal_strlit("unstaged");
    assert("unavailable"@[0] != "committed"@[0] && "unavailable"@[0] != "ignored"@[0] && "unavailable"@[0] != "staged"@[0]);
    assert("unavailable"@[2] != "untracked"@[2] && "unavailable"@[2] != "unstaged"@[2]);
    if unavailable_with(g, reason) {
        assert(sv(g.committed@) =~= Seq::<Seq<char>>::empty());
        assert(sv(g.staged@) =~= Seq::<Seq<char>>::empty());
        assert(sv(g.unstaged@) =~= Seq::<Seq<char>>::empty());
        assert(sv(g.untracked@) =~= Seq::<Seq<char>>::empty());
        assert(sv(g.ignored@) =~= Seq::<Seq<char>>::empty());
        assert(sv(g.committed@).to_set() =~= Set::<Seq<char>>::empty());
        assert(sv(g.untracked@).to_set() =~= Set::<Seq<char>>::empty());
    } else {
        let b = choose|b: Buckets| #[trigger] bucket_spec(es, in_index.to_set(), ignored.to_set(), invisible.to_set(), b) && reports(g, b);
        let k_any = |e: (u8, u8, Seq<char>)| any_record(e);
        let records = paths_where(es, k_any);
        let k_staged = |e: (u8, u8, Seq<char>)| index_differs(e);
        let k_unstaged = |e: (u8, u8, Seq<char>)| worktree_differs(e);
        let k_unknown = |e: (u8, u8, Seq<char>)| is_unknown(e);
        assert forall|p: Seq<char>| paths_where(es, k_staged).contains(p) implies records.contains(p) by {
            let i = choose|i: int| 0 <= i < es.len() && #[trigger] k_staged(es[i]) && es[i].2 == p;
            assert(k_any(es[i]));
        }
        assert forall|p: Seq<char>| paths_where(es, k_unstaged).contains(p) implies records.contains(p) by {
            let i = choose|i: int| 0 <= i < es.len() && #[trigger] k_unstaged(es[i]) && es[i].2 == p;
            assert(k_any(es[i]));
        }
        assert forall|p: Seq<char>| paths_where(es, k_unknown).contains(p) implies records.contains(p) by {
            let i = choose|i: int| 0 <= i < es.len() && #[trigger] k_unknown(es[i]) && es[i].2 == p;
            assert(k_any(es[i]));
        }
        assert(sv(g.committed@) == sv(b.committed@));
        assert(sv(g.staged@) == sv(b.staged@));
        assert(sv(g.unstaged@) == sv(b.unstaged@));
        assert(sv(g.untracked@) == sv(b.untracked@));
        assert(sv(g.ignored@) == sv(b.ignored@));
        assert forall|p: Seq<char>| #[trigger] invisible.to_set().contains(p) implies !in_index.to_set().contains(p) by {
            assert(invisible.contains(p));
        }
    }
}

/// Where a reachability probe stands between its Git invocations.
#[derive(Debug, Clone)]
pub enum InspectState {
    /// Nothing asked yet.
    Start,
    /// Inside a repository; waiting for `git status`.
    AwaitStatus,
    /// Waiting for `git ls-files`, with the status records.
    AwaitIndex(Vec<StatusEntry>),
    /// Waiting for the on-disk checkpoint files.
    AwaitFiles(Vec<StatusEntry>, Vec<String>),
    /// Waiting for `git check-ignore` about the invisible files.
    AwaitIgnore(Vec<StatusEntry>, Vec<String>, Vec<String>),
}

/// What the caller observed.
#[derive(Debug)]
pub enum InspectEvent {
    /// Whether a `.git` entry exists at or above the workspace root.
    Repository(bool),
    /// The answer of the Git invocation last asked for.
    Output(Result<Vec<u8>, String>),
    /// Every file under the checkpoint directory, relative to the root.
    Files(Vec<String>),
}

/// What the caller does next.
#[derive(Debug, Clone)]
pub enum InspectAction {
    /// `git status --porcelain=v1 -z --untracked-files=all -- <pathspec>`.
    RunStatus,
    /// `git ls-files -z -- <pathspec>`.
    RunLsFiles,
    /// List every file under the checkpoint directory.
    ListFiles,
    /// `git check-ignore --stdin -z` about these paths.
    CheckIgnore(Vec<String>),
    /// The probe is over.
    Finish(GitReachability),
}

/// Whether the event is the one the state waits for.
pub open spec fn inspect_expects(state: InspectState, event: InspectEvent) -> bool {
    match state {
        InspectState::Start => event is Repository,
        InspectState::AwaitFiles(..) => event is Files,
        InspectState::AwaitIgnore(es, idx, inv) => event is Output && unaccounted(entries_view(es@), sv(idx@), sv(inv@)),
        _ => event is Output,
    }
}

/// The invisible files are in no status record and not in the index, as
/// the probe's file walk leaves them.
pub open spec fn unaccounted(es: Seq<(u8, u8, Seq<char>)>, in_index: Seq<Seq<char>>, invisible: Seq<Seq<char>>) -> bool {
    forall|p: Seq<char>| #[trigger] invisible.contains(p) ==>
        !in_index.contains(p) && !paths_where(es, |e: (u8, u8, Seq<char>)| any_record(e)).contains(p)
}

fn finish_unavailable(g: GitReachability) -> (r: (InspectState, InspectAction))
    requires
        g.status@ == "unavailable"@,
        g.unavailable_reason is Some,
        g.committed@.len() == 0 && g.staged@.len() == 0 && g.unstaged@.len() == 0,
        g.untracked@.len() == 0 && g.ignored@.len() == 0,
    ensures
        r.0 is Start,
        r.1 == InspectAction::Finish(g),
        consistent_report(g),
{
    proof {
        law_probe_reports_are_consistent(g, g.unavailable_reason->0@, Seq::empty(), Seq::empty(), Seq::empty(), Seq::empty());
    }
    (InspectState::Start, InspectAction::Finish(g))
}

/// One step of the reachability probe of the checkpoint under
/// `workspace_root`: best-effort, every failure ends in the explicit
/// unavailable answer. Status records and index paths lose runtime files;
/// the on-disk files neither accounted for are asked about with
/// check-ignore, which is skipped when there are none.
pub fn inspect(workspace_root: &str, state: InspectState, event: InspectEvent) -> (r: (InspectState, InspectAction))
    requires
        inspect_expects(state, event),
    ensures
        state is Start ==> match event {
            InspectEvent::Repository(true) => r.0 is AwaitStatus && r.1 is RunStatus,
            _ => r.1 matches InspectAction::Finish(g) && unavailable_with(g, "no Git repository above "@ + workspace_root@),
        },
        state is AwaitStatus ==> match event {
            InspectEvent::Output(Ok(raw)) => {
                &&& r.1 is RunLsFiles
                &&& r.0 matches InspectState::AwaitIndex(es)
                &&& entries_view(es@) == porcelain_entries(split_seq(raw@, 0u8)).filter(
                    |e: (u8, u8, Seq<char>)| !is_runtime_path(e.2))
            },
            InspectEvent::Output(Err(m)) => r.1 matches InspectAction::Finish(g) && unavailable_with(g, m@),
            _ => true,
        },
        state matches InspectState::AwaitIndex(es) ==> match event {
            InspectEvent::Output(Ok(raw)) => {
                &&& r.1 is ListFiles
                &&& r.0 matches InspectState::AwaitFiles(es2, idx)
                &&& es2@ == es@
                &&& sorted_strict(sv(idx@))
                &&& forall|p: Seq<char>| #[trigger] sv(idx@).to_set().contains(p) <==> (!is_runtime_path(p) && exists|f: Seq<u8>|
                    split_seq(raw@, 0u8).contains(f) && f.len() > 0 && lossy_text(f) == p)
            },
            InspectEvent::Output(Err(m)) => r.1 matches InspectAction::Finish(g) && unavailable_with(g, m@),
            _ => true,
        },
        state matches InspectState::AwaitFiles(es, idx) ==> match event {
            InspectEvent::Files(on_disk) => {
                let invisible = sv(on_disk@).filter(|p: Seq<char>| !is_runtime_path(p)
                    && !paths_where(entries_view(es@), |e: (u8, u8, Seq<char>)| any_record(e)).contains(p)
                    && !sv(idx@).contains(p));
                if invisible.len() == 0 {
                    r.1 matches InspectAction::Finish(g) && classified(g, entries_view(es@), sv(idx@), Seq::empty(), Seq::empty())
                } else {
                    &&& r.1 matches InspectAction::CheckIgnore(c)
                    &&& sv(c@) == invisible
                    &&& r.0 matches InspectState::AwaitIgnore(es2, idx2, inv)
                    &&& es2@ == es@
                    &&& idx2@ == idx@
                    &&& sv(inv@) == invisible
                }
            },
            _ => true,
        },
        r.1 matches InspectAction::Finish(g) ==> consistent_report(g),
        r.0 matches InspectState::AwaitIgnore(es, idx, inv) ==> unaccounted(entries_view(es@), sv(idx@), sv(inv@)),
        state matches InspectState::AwaitIgnore(es, idx, inv) ==> match event {
            InspectEvent::Output(Ok(raw)) => r.1 matches InspectAction::Finish(g) && classified(g, entries_view(es@), sv(idx@),
                split_seq(lossy_text(raw@), '\0').filter(|p: Seq<char>| p.len() > 0), sv(inv@)),
            InspectEvent::Output(Err(m)) => r.1 matches InspectAction::Finish(g) && unavailable_with(g, m@),
            _ => true,
        },
{
    match state {
        InspectState::Start => match event {
            InspectEvent::Repository(true) => (InspectState::AwaitStatus, InspectAction::RunStatus),
            _ => {
                let g = unavailable(cat("no Git repository above ", workspace_root));
                finish_unavailable(g)
            },
        },
        InspectState::AwaitStatus => match event {
            InspectEvent::Output(Ok(raw)) => {
                let es = probe_entries(raw.as_slice());
                (InspectState::AwaitIndex(es), InspectAction::RunLsFiles)
            },
            InspectEvent::Output(Err(m)) => finish_unavailable(unavailable(m)),
            _ => finish_unavailable(unavailable(String::new())),
        },
        InspectState::AwaitIndex(es) => match event {
            InspectEvent::Output(Ok(raw)) => {
                let idx = index_paths(raw.as_slice());
                (InspectState::AwaitFiles(es, idx), InspectAction::ListFiles)
            },
            InspectEvent::Output(Err(m)) => finish_unavailable(unavailable(m)),
            _ => finish_unavailable(unavailable(String::new())),
        },
        InspectState::AwaitFiles(es, idx) => match event {
            InspectEvent::Files(on_disk) => {
                let invisible = invisible_paths(&on_disk, &es, &idx);
                if invisible.len() == 0 {
                    let none: Vec<String> = Vec::new();
                    let b = bucket(&es, &idx, &none, &invisible);
                    proof {
                        assert(sv(none@) =~= Seq::<Seq<char>>::empty());
                        assert(sv(invisible@) =~= Seq::<Seq<char>>::empty());
                    }
                    let g = reachability_of(b);
                    proof {
                        assert(bucket_spec(entries_view(es@), sv(idx@).to_set(), sv(none@).to_set(), sv(invisible@).to_set(), b) && reports(g, b));
                        law_probe_reports_are_consistent(g, Seq::empty(), entries_view(es@), sv(idx@), sv(none@), sv(invisible@));
                    }
                    (InspectState::Start, InspectAction::Finish(g))
                } else {
                    let asked = copy_paths(&invisible);
                    (InspectState::AwaitIgnore(es, idx, invisible), InspectAction::CheckIgnore(asked))
                }
            },
            _ => finish_unavailable(unavailable(String::new())),
        },
        InspectState::AwaitIgnore(es, idx, inv) => match event {
            InspectEvent::Output(Ok(raw)) => {
                let ignored = ignore_answer(raw.as_slice());
                let b = bucket(&es, &idx, &ignored, &inv);
                let g = reachability_of(b);
                proof {
                    assert(bucket_spec(entries_view(es@), sv(idx@).to_set(), sv(ignored@).to_set(), sv(inv@).to_set(), b) && reports(g, b));
                    law_probe_reports_are_consistent(g, Seq::empty(), entries_view(es@), sv(idx@), sv(ignored@), sv(inv@));
                }
                (InspectState::Start, InspectAction::Finish(g))
            },
            InspectEvent::Output(Err(m)) => finish_unavailable(unavailable(m)),
            _ => finish_unavailable(unavailable(String::new())),
        },
    }
}

/// A copy of a list of strings.
pub fn copy_paths(v: &Vec<String>) -> (r: Vec<String>)
    ensures
        r@.len() == v@.len(),
        forall|i: int| 0 <= i < v@.len() ==> #[trigger] r@[i]@ == v@[i]@,
        sv(r@) == sv(v@),
{
    let mut out: Vec<String> = Vec::new();
    let mut i: usize = 0;
    while i < v.len()
        invariant
            i <= v@.len(),
            out@.len() == i,
            forall|k: int| 0 <= k < i ==> #[trigger] out@[k]@ == v@[k]@,
        decreases v@.len() - i,
    {
        out.push(v[i].clone());
        i = i + 1;
    }
    assert(sv(out@) =~= sv(v@));
    out
}

} // verus!

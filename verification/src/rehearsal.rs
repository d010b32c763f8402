//! Recovery rehearsal: the report records, and the semantic comparison of
//! the original checkpoint with the one an import-then-export produced.
//! Copying, importing and exporting happen outside this crate.
use vstd::prelude::*;
use crate::model::BaseStatus;
use crate::doctor::{CheckView, DiagnosticStatus, DoctorDiagnostics, checks_view};
use crate::text::{cat3, i64_text, int_text, owned, str_eq, seq_lt, sorted_strict, sv, u64_text};

verus! {

broadcast use vstd::string::group_string_axioms;

/// A checkpoint as its `current.json` pointer describes it.
#[derive(Debug, Clone)]
pub struct CheckpointInfo {
    pub path: String,
    pub issue_count: usize,
    pub event_count: i64,
    pub receipt_count: i64,
    /// The checkpoint's own content hash; informational only.
    pub hash: String,
    pub size_bytes: u64,
}

/// Diagnostics run in the temporary workspace.
#[derive(Debug, Clone)]
pub struct DiagnosticsResult {
    pub checks_performed: usize,
    pub errors: Vec<String>,
    pub warnings: Vec<String>,
    pub ok_count: usize,
    pub overall_status: String,
}

/// One difference the comparison found.
#[derive(Debug, Clone)]
pub struct SemanticDifference {
    pub issue_id: String,
    pub difference_type: String,
    pub description: String,
}

/// How the re-exported checkpoint compares with the original.
#[derive(Debug, Clone)]
pub struct SemanticComparison {
    pub issue_count_matches: bool,
    pub event_count_matches: bool,
    pub content_hashes_match: bool,
    pub differences: Vec<SemanticDifference>,
    pub overall_equivalence: bool,
}

/// What the rehearsal left behind.
#[derive(Debug, Clone)]
pub struct CleanupInfo {
    pub temp_directory_created: bool,
    pub temp_directory_path: Option<String>,
    pub cleanup_successful: bool,
    pub files_remaining: usize,
}

/// A full rehearsal report.
#[derive(Debug, Clone)]
pub struct RecoveryRehearsalReport {
    pub timestamp: String,
    pub original_checkpoint: CheckpointInfo,
    pub rehearsal_checkpoint: CheckpointInfo,
    pub diagnostics: DiagnosticsResult,
    pub semantic_comparison: SemanticComparison,
    pub cleanup_info: CleanupInfo,
}

/// The fields of an issue the comparison looks at.
#[derive(Debug, Clone)]
pub struct IssueDigest {
    pub id: String,
    pub title: String,
    pub priority: i64,
    pub base_status: BaseStatus,
}

pub type DiffView = (Seq<char>, Seq<char>, Seq<char>);

pub open spec fn diff_view(d: SemanticDifference) -> DiffView {
    (d.issue_id@, d.difference_type@, d.description@)
}

pub open spec fn diffs_view(v: Seq<SemanticDifference>) -> Seq<DiffView> {
    v.map_values(|d: SemanticDifference| diff_view(d))
}

pub open spec fn ids(v: Seq<IssueDigest>) -> Seq<Seq<char>> {
    v.map_values(|i: IssueDigest| i.id@)
}

/// The `Debug` rendering of a status: its variant name.
pub open spec fn status_debug(s: BaseStatus) -> Seq<char> {
    match s {
        BaseStatus::Open => "Open"@,
        BaseStatus::InProgress => "InProgress"@,
        BaseStatus::Deferred => "Deferred"@,
        BaseStatus::Closed => "Closed"@,
    }
}

fn status_debug_of(s: BaseStatus) -> (r: &'static str)
    ensures
        r@ == status_debug(s),
{
    match s {
        BaseStatus::Open => "Open",
        BaseStatus::InProgress => "InProgress",
        BaseStatus::Deferred => "Deferred",
        BaseStatus::Closed => "Closed",
    }
}

/// The differences of one original issue against its rehearsal
/// counterpart, if any: missing, then title, priority, status.
pub open spec fn issue_diffs(o: IssueDigest, r: Option<IssueDigest>) -> Seq<DiffView> {
    match r {
        None => seq![(o.id@, "missing_in_rehearsal"@, "Issue present in original checkpoint, missing after recovery"@)],
        Some(h) => {
            let t = if o.title@ != h.title@ { seq![(o.id@, "title_mismatch"@, "'"@ + o.title@ + "' vs '"@ + h.title@ + "'"@)] } else { Seq::empty() };
            let p = if o.priority != h.priority {
                seq![(o.id@, "priority_mismatch"@, int_text(o.priority as int) + " vs "@ + int_text(h.priority as int))]
            } else {
                Seq::empty()
            };
            let s = if o.base_status != h.base_status {
                seq![(o.id@, "status_mismatch"@, status_debug(o.base_status) + " vs "@ + status_debug(h.base_status))]
            } else {
                Seq::empty()
            };
            t + p + s
        },
    }
}

/// The issue with this id, if the list holds one.
pub open spec fn lookup(v: Seq<IssueDigest>, id: Seq<char>) -> Option<IssueDigest> {
    if exists|k: int| 0 <= k < v.len() && v[k].id@ == id {
        Some(v[choose|k: int| 0 <= k < v.len() && v[k].id@ == id])
    } else {
        None
    }
}

/// The per-issue differences of the first `n` original issues, in order.
pub open spec fn original_diffs(orig: Seq<IssueDigest>, reh: Seq<IssueDigest>, n: nat) -> Seq<DiffView>
    decreases n,
{
    if n == 0 {
        Seq::empty()
    } else {
        original_diffs(orig, reh, (n - 1) as nat) + issue_diffs(orig[n - 1], lookup(reh, orig[n - 1].id@))
    }
}

/// The rehearsal issues the original does not hold, in order.
pub open spec fn unexpected_diffs(orig: Seq<IssueDigest>, reh: Seq<IssueDigest>) -> Seq<DiffView> {
    reh.filter(|h: IssueDigest| !ids(orig).contains(h.id@)).map_values(|h: IssueDigest|
        (h.id@, "unexpected_in_rehearsal"@, "Issue present after recovery but not in original checkpoint"@))
}

/// Every difference: the count mismatches, then, when both checkpoints are
/// monolithic, the per-issue differences of the original issues and the
/// issues only the rehearsal holds (each in id order).
pub open spec fn all_diffs(o: CheckpointInfo, r: CheckpointInfo, orig: Option<Seq<IssueDigest>>, reh: Option<Seq<IssueDigest>>) -> Seq<DiffView> {
    let a = if o.issue_count != r.issue_count {
        seq![("N/A"@, "issue_count_mismatch"@, "Original: "@ + int_text(o.issue_count as int) + " issues, Rehearsal: "@
            + int_text(r.issue_count as int) + " issues"@)]
    } else {
        Seq::empty()
    };
    let b = if o.event_count != r.event_count {
        seq![("N/A"@, "event_count_mismatch"@, "Original: "@ + int_text(o.event_count as int) + " events, Rehearsal: "@
            + int_text(r.event_count as int) + " events"@)]
    } else {
        Seq::empty()
    };
    let c = match (orig, reh) {
        (Some(os), Some(rs)) => original_diffs(os, rs, os.len()) + unexpected_diffs(os, rs),
        _ => Seq::empty(),
    };
    a + b + c
}

pub open spec fn opt_digests(o: Option<Vec<IssueDigest>>) -> Option<Seq<IssueDigest>> {
    match o {
        Some(v) => Some(v@),
        None => None,
    }
}

fn find_issue(v: &Vec<IssueDigest>, id: &str) -> (r: Option<usize>)
    requires
        sorted_strict(ids(v@)),
    ensures
        match lookup(v@, id@) {
            Some(h) => r matches Some(k) && k < v@.len() && v@[k as int] == h,
            None => r is None,
        },
{
    let mut i: usize = 0;
    while i < v.len()
        invariant
            i <= v@.len(),
            sorted_strict(ids(v@)),
            forall|k: int| 0 <= k < i ==> v@[k].id@ != id@,
        decreases v@.len() - i,
    {
        if str_eq(v[i].id.as_str(), id) {
            proof {
                let k = choose|k: int| 0 <= k < v@.len() && v@[k].id@ == id@;
                if k != i {
                    if k < i {
                        assert(seq_lt(ids(v@)[k], ids(v@)[i as int]));
                    } else {
                        assert(seq_lt(ids(v@)[i as int], ids(v@)[k]));
                    }
                    crate::text::lemma_seq_lt_irreflexive(id@);
                }
            }
            return Some(i);
        }
        i = i + 1;
    }
    None
}

fn difference(issue_id: &str, kind: &str, description: String) -> (r: SemanticDifference)
    ensures
        diff_view(r) == (issue_id@, kind@, description@),
{
    SemanticDifference { issue_id: owned(issue_id), difference_type: owned(kind), description }
}

fn issue_differences(o: &IssueDigest, r: Option<&IssueDigest>, out: &mut Vec<SemanticDifference>)
    ensures
        diffs_view(final(out)@) == diffs_view(old(out)@) + issue_diffs(*o, match r {
            Some(h) => Some(*h),
            None => None,
        }),
{
    let ghost start = diffs_view(out@);
    match r {
        None => {
            out.push(difference(o.id.as_str(), "missing_in_rehearsal", owned("Issue present in original checkpoint, missing after recovery")));
        },
        Some(h) => {
            if !str_eq(o.title.as_str(), h.title.as_str()) {
                let a = cat3("'", o.title.as_str(), "' vs '");
                out.push(difference(o.id.as_str(), "title_mismatch", cat3(a.as_str(), h.title.as_str(), "'")));
            }
            let ghost after_t = diffs_view(out@);
            if o.priority != h.priority {
                let x = i64_text(o.priority);
                let y = i64_text(h.priority);
                out.push(difference(o.id.as_str(), "priority_mismatch", cat3(x.as_str(), " vs ", y.as_str())));
            }
            if o.base_status != h.base_status {
                out.push(difference(o.id.as_str(), "status_mismatch",
                    cat3(status_debug_of(o.base_status), " vs ", status_debug_of(h.base_status))));
            }
        },
    }
    assert(diffs_view(out@) =~= start + issue_diffs(*o, match r {
        Some(h) => Some(*h),
        None => None,
    }));
}

/// Compare the original checkpoint with the one an import-then-export
/// produced. The issue lists are those of monolithic checkpoints, each
/// sorted by id without repeats (`None` skips the per-issue diff).
/// Equivalence needs equal counts and no difference; equal content hashes
/// are only reported.
pub fn compare_checkpoints_semantic(
    original_info: &CheckpointInfo,
    rehearsal_info: &CheckpointInfo,
    original_issues: &Option<Vec<IssueDigest>>,
    rehearsal_issues: &Option<Vec<IssueDigest>>,
) -> (r: SemanticComparison)
    requires
        original_issues matches Some(v) ==> sorted_strict(ids(v@)),
        rehearsal_issues matches Some(v) ==> sorted_strict(ids(v@)),
    ensures
        r.issue_count_matches == (original_info.issue_count == rehearsal_info.issue_count),
        r.event_count_matches == (original_info.event_count == rehearsal_info.event_count),
        r.content_hashes_match == (original_info.hash@ == rehearsal_info.hash@),
        diffs_view(r.differences@) == all_diffs(*original_info, *rehearsal_info, opt_digests(*original_issues), opt_digests(*rehearsal_issues)),
        r.overall_equivalence == (r.issue_count_matches && r.event_count_matches && r.differences@.len() == 0),
{
    let issue_count_matches = original_info.issue_count == rehearsal_info.issue_count;
    let event_count_matches = original_info.event_count == rehearsal_info.event_count;
    let content_hashes_match = str_eq(original_info.hash.as_str(), rehearsal_info.hash.as_str());
    let mut differences: Vec<SemanticDifference> = Vec::new();
    if !issue_count_matches {
        let x = u64_text(original_info.issue_count as u64);
        let y = u64_text(rehearsal_info.issue_count as u64);
        let a = cat3("Original: ", x.as_str(), " issues, Rehearsal: ");
        differences.push(difference("N/A", "issue_count_mismatch", cat3(a.as_str(), y.as_str(), " issues")));
    }
    if !event_count_matches {
        let x = i64_text(original_info.event_count);
        let y = i64_text(rehearsal_info.event_count);
        let a = cat3("Original: ", x.as_str(), " events, Rehearsal: ");
        differences.push(difference("N/A", "event_count_mismatch", cat3(a.as_str(), y.as_str(), " events")));
    }
    let ghost counted = diffs_view(differences@);
    match (original_issues, rehearsal_issues) {
        (Some(os), Some(rs)) => {
            let mut i: usize = 0;
            while i < os.len()
                invariant
                    i <= os@.len(),
                    sorted_strict(ids(rs@)),
                    diffs_view(differences@) == counted + original_diffs(os@, rs@, i as nat),
                decreases os@.len() - i,
            {
                let o = &os[i];
                match find_issue(rs, o.id.as_str()) {
                    Some(k) => issue_differences(o, Some(&rs[k]), &mut differences),
                    None => issue_differences(o, None, &mut differences),
                }
                i = i + 1;
            }
            let ghost mid = diffs_view(differences@);
            let ghost keep = |h: IssueDigest| !ids(os@).contains(h.id@);
            let mut j: usize = 0;
            while j < rs.len()
                invariant
                    j <= rs@.len(),
                    keep == (|h: IssueDigest| !ids(os@).contains(h.id@)),
                    diffs_view(differences@) == mid + rs@.take(j as int).filter(keep).map_values(|h: IssueDigest|
                        (h.id@, "unexpected_in_rehearsal"@, "Issue present after recovery but not in original checkpoint"@)),
                decreases rs@.len() - j,
            {
                proof {
                    assert(rs@.take(j + 1).drop_last() =~= rs@.take(j as int));
                    reveal_with_fuel(Seq::filter, 1);
                }
                let h = &rs[j];
                let mut found = false;
                let mut k: usize = 0;
                while k < os.len()
                    invariant
                        k <= os@.len(),
                        found == exists|q: int| 0 <= q < k && os@[q].id@ == h.id@,
                    decreases os@.len() - k,
                {
                    if str_eq(os[k].id.as_str(), h.id.as_str()) {
                        found = true;
                    }
                    k = k + 1;
                }
                assert(found == ids(os@).contains(h.id@)) by {
                    if found {
                        let q = choose|q: int| 0 <= q < os@.len() && os@[q].id@ == h.id@;
                        assert(ids(os@)[q] == h.id@);
                    }
                    if ids(os@).contains(h.id@) {
                        let q = choose|q: int| 0 <= q < ids(os@).len() && ids(os@)[q] == h.id@;
                        assert(os@[q].id@ == h.id@);
                    }
                }
                let ghost before = diffs_view(differences@);
                if !found {
                    differences.push(difference(h.id.as_str(), "unexpected_in_rehearsal",
                        owned("Issue present after recovery but not in original checkpoint")));
                    assert(diffs_view(differences@) =~= before.push((h.id@, "unexpected_in_rehearsal"@,
                        "Issue present after recovery but not in original checkpoint"@)));
                    assert(rs@.take(j + 1).filter(keep) =~= rs@.take(j as int).filter(keep).push(rs@[j as int]));
                } else {
                    assert(rs@.take(j + 1).filter(keep) =~= rs@.take(j as int).filter(keep));
                }
                assert(diffs_view(differences@) =~= mid + rs@.take(j + 1).filter(keep).map_values(|h: IssueDigest|
                    (h.id@, "unexpected_in_rehearsal"@, "Issue present after recovery but not in original checkpoint"@)));
                j = j + 1;
            }
            assert(rs@.take(rs@.len() as int) =~= rs@);
        },
        _ => {},
    }
    assert(diffs_view(differences@) =~= all_diffs(*original_info, *rehearsal_info, opt_digests(*original_issues), opt_digests(*rehearsal_issues)));
    let overall = issue_count_matches && event_count_matches && differences.len() == 0;
    SemanticComparison { issue_count_matches, event_count_matches, content_hashes_match, differences, overall_equivalence: overall }
}

/// The messages of the checks with status `s`, in order.
pub open spec fn messages_with(v: Seq<CheckView>, s: DiagnosticStatus) -> Seq<Seq<char>> {
    v.filter(|c: CheckView| c.1 == s).map_values(|c: CheckView| c.2)
}

/// How many checks have status `s`.
pub open spec fn count_with(v: Seq<CheckView>, s: DiagnosticStatus) -> nat {
    v.filter(|c: CheckView| c.1 == s).len()
}

/// The one-word answer of a diagnostics run: errors fail it, warnings
/// alone make it a warning.
pub open spec fn overall_text(has_errors: bool, has_warnings: bool) -> Seq<char> {
    if has_errors {
        "FAILED"@
    } else if has_warnings {
        "WARNING"@
    } else {
        "OK"@
    }
}

/// The summary of the diagnostics run in the temporary workspace: how many
/// checks ran, the messages of the failing and the warning checks in order,
/// how many passed, and the overall answer from the run's own flags.
pub fn diagnostics_result(d: &DoctorDiagnostics) -> (r: DiagnosticsResult)
    ensures
        r.checks_performed == d.checks@.len(),
        sv(r.errors@) == messages_with(checks_view(d.checks@), DiagnosticStatus::Error),
        sv(r.warnings@) == messages_with(checks_view(d.checks@), DiagnosticStatus::Warning),
        r.ok_count == count_with(checks_view(d.checks@), DiagnosticStatus::Healthy),
        r.overall_status@ == overall_text(d.has_errors, d.has_warnings),
{
    let ghost v = checks_view(d.checks@);
    let mut errors: Vec<String> = Vec::new();
    let mut warnings: Vec<String> = Vec::new();
    let mut ok_count: usize = 0;
    let mut j: usize = 0;
    while j < d.checks.len()
        invariant
            j <= d.checks@.len(),
            v == checks_view(d.checks@),
            sv(errors@) == messages_with(v.take(j as int), DiagnosticStatus::Error),
            sv(warnings@) == messages_with(v.take(j as int), DiagnosticStatus::Warning),
            ok_count == count_with(v.take(j as int), DiagnosticStatus::Healthy),
            ok_count <= j,
        decreases d.checks@.len() - j,
    {
        let c = &d.checks[j];
        let ghost cv = v[j as int];
        proof {
            assert(v.take(j + 1).drop_last() =~= v.take(j as int));
            assert(v.take(j + 1).last() == cv);
            reveal_with_fuel(Seq::filter, 1);
        }
        let ghost e0 = sv(errors@);
        let ghost w0 = sv(warnings@);
        if c.status == DiagnosticStatus::Error {
            errors.push(c.message.clone());
            assert(sv(errors@) =~= e0.push(cv.2));
        }
        if c.status == DiagnosticStatus::Warning {
            warnings.push(c.message.clone());
            assert(sv(warnings@) =~= w0.push(cv.2));
        }
        if c.status == DiagnosticStatus::Healthy {
            ok_count = ok_count + 1;
        }
        proof {
            let p = |c: CheckView| c.1 == DiagnosticStatus::Error;
            let q = |c: CheckView| c.1 == DiagnosticStatus::Warning;
            let h = |c: CheckView| c.1 == DiagnosticStatus::Healthy;
            assert(v.take(j + 1).filter(p) == if p(cv) { v.take(j as int).filter(p).push(cv) } else { v.take(j as int).filter(p) });
            assert(v.take(j + 1).filter(q) == if q(cv) { v.take(j as int).filter(q).push(cv) } else { v.take(j as int).filter(q) });
            assert(v.take(j + 1).filter(h) == if h(cv) { v.take(j as int).filter(h).push(cv) } else { v.take(j as int).filter(h) });
            assert(messages_with(v.take(j + 1), DiagnosticStatus::Error) =~= sv(errors@));
            assert(messages_with(v.take(j + 1), DiagnosticStatus::Warning) =~= sv(warnings@));
        }
        j = j + 1;
    }
    assert(v.take(d.checks@.len() as int) =~= v);
    let overall_status = if d.has_errors {
        owned("FAILED")
    } else if d.has_warnings {
        owned("WARNING")
    } else {
        owned("OK")
    };
    DiagnosticsResult { checks_performed: d.checks.len(), errors, warnings, ok_count, overall_status }
}

proof fn lemma_filter_none<A>(s: Seq<A>, p: spec_fn(A) -> bool)
    requires
        forall|i: int| 0 <= i < s.len() ==> !p(#[trigger] s[i]),
    ensures
        s.filter(p).len() == 0,
    decreases s.len(),
{
    reveal_with_fuel(Seq::filter, 1);
    if s.len() > 0 {
        assert forall|i: int| 0 <= i < s.drop_last().len() implies !p(#[trigger] s.drop_last()[i]) by {
            assert(s.drop_last()[i] == s[i]);
        }
        lemma_filter_none(s.drop_last(), p);
        assert(!p(s[s.len() - 1]));
    }
}

proof fn lemma_lookup_self(v: Seq<IssueDigest>, k: int)
    requires
        sorted_strict(ids(v)),
        0 <= k < v.len(),
    ensures
        lookup(v, v[k].id@) == Some(v[k]),
{
    assert(ids(v)[k] == v[k].id@);
    let j = choose|j: int| 0 <= j < v.len() && v[j].id@ == v[k].id@;
    assert(ids(v)[j] == v[j].id@);
    if j < k {
        assert(seq_lt(ids(v)[j], ids(v)[k]));
        crate::text::lemma_seq_lt_irreflexive(v[k].id@);
    } else if k < j {
        assert(seq_lt(ids(v)[k], ids(v)[j]));
        crate::text::lemma_seq_lt_irreflexive(v[k].id@);
    }
}

proof fn lemma_self_diffs_empty(v: Seq<IssueDigest>, n: nat)
    requires
        sorted_strict(ids(v)),
        n <= v.len(),
    ensures
        original_diffs(v, v, n).len() == 0,
    decreases n,
{
    if n > 0 {
        lemma_self_diffs_empty(v, (n - 1) as nat);
        lemma_lookup_self(v, n - 1);
        assert(issue_diffs(v[n - 1], Some(v[n - 1])).len() == 0);
    }
}

/// A checkpoint that comes back from the rehearsal unchanged is
/// equivalent: comparing a checkpoint with itself finds no difference.
pub proof fn law_unchanged_checkpoint_is_equivalent(info: CheckpointInfo, issues: Option<Seq<IssueDigest>>)
    requires
        issues matches Some(v) ==> sorted_strict(ids(v)),
    ensures
        all_diffs(info, info, issues, issues).len() == 0,
{
    if let Some(v) = issues {
        lemma_self_diffs_empty(v, v.len());
        let keep = |h: IssueDigest| !ids(v).contains(h.id@);
        assert forall|i: int| 0 <= i < v.len() implies !keep(#[trigger] v[i]) by {
            assert(ids(v)[i] == v[i].id@);
        }
        lemma_filter_none(v, keep);
        assert(unexpected_diffs(v, v).len() == 0);
    }
}

} // verus!

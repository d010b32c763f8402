//! Workspace diagnostics: the scopes a doctor run covers, which checks each
//! scope runs and in what order, how each check's outcome reads, and the
//! overall answer. The checks themselves query the store outside this
//! crate.
use vstd::prelude::*;
use crate::error::{Error, ErrorKind};
use crate::model::{ascii_lowered, ascii_text, lowercase, unicode_lowercase};
use crate::text::{starts_with, cat, cat3, has_infix, join, join_seq, owned, str_contains, str_eq, sv, trim_seq, u64_text, int_text};

verus! {

broadcast use vstd::string::group_string_axioms;

/// Status of a diagnostic check.
#[derive(Debug, Clone, Copy, PartialEq, Eq, Structural)]
pub enum DiagnosticStatus {
    Healthy,
    Warning,
    Error,
}

/// The parts of the workspace a doctor run can cover.
#[derive(Debug, Clone, Copy, PartialEq, Eq, Structural)]
pub enum DiagnosticScope {
    Store,
    Backup,
    Schema,
    Dependencies,
    Comments,
    Attempts,
    All,
}

/// The scope a lowercased name selects.
pub open spec fn scope_named(t: Seq<char>) -> Option<DiagnosticScope> {
    if t == "store"@ {
        Some(DiagnosticScope::Store)
    } else if t == "backup"@ {
        Some(DiagnosticScope::Backup)
    } else if t == "schema"@ {
        Some(DiagnosticScope::Schema)
    } else if t == "dependencies"@ {
        Some(DiagnosticScope::Dependencies)
    } else if t == "comments"@ {
        Some(DiagnosticScope::Comments)
    } else if t == "attempts"@ {
        Some(DiagnosticScope::Attempts)
    } else if t == "all"@ {
        Some(DiagnosticScope::All)
    } else {
        None
    }
}

/// The names `from_str` accepts, in order.
pub open spec fn scope_names() -> Seq<Seq<char>> {
    seq!["store"@, "backup"@, "schema"@, "dependencies"@, "comments"@, "attempts"@, "all"@]
}

/// Two ASCII spellings that differ only in letter case select the same
/// scope, and an ASCII spelling selects a scope exactly when its lowercase
/// form is one of the listed names.
pub proof fn law_scope_names_ignore_case(s: Seq<char>, t: Seq<char>)
    requires
        ascii_text(s),
        ascii_text(t),
        ascii_lowered(s) == ascii_lowered(t),
    ensures
        scope_named(ascii_lowered(s)) == scope_named(ascii_lowered(t)),
        scope_named(ascii_lowered(s)) is Some <==> scope_names().contains(ascii_lowered(s)),
        ascii_text(ascii_lowered(s)),
        ascii_lowered(ascii_lowered(s)) == ascii_lowered(s),
{
    lemma_scope_named_some(ascii_lowered(s));
    lemma_ascii_lowered_again(s);
}

/// Lowering ASCII text gives ASCII text that lowering leaves as it is, so
/// a spelling and its lowercase form select the same scope.
proof fn lemma_ascii_lowered_again(s: Seq<char>)
    requires
        ascii_text(s),
    ensures
        ascii_text(ascii_lowered(s)),
        ascii_lowered(ascii_lowered(s)) == ascii_lowered(s),
{
    let l = ascii_lowered(s);
    assert forall|i: int| 0 <= i < l.len() implies (#[trigger] l[i] as u32) < 0x80 by {
        assert((s[i] as u32) < 0x80);
    }
    assert(ascii_lowered(l) =~= l);
}

proof fn lemma_scope_named_some(t: Seq<char>)
    ensures
        scope_named(t) is Some <==> scope_names().contains(t),
{
    let names = scope_names();
    if scope_names().contains(t) {
        let i = choose|i: int| 0 <= i < names.len() && names[i] == t;
        assert(names[i] == t);
    } else {
        assert(names[0] == "store"@);
        assert(names[1] == "backup"@);
        assert(names[2] == "schema"@);
        assert(names[3] == "dependencies"@);
        assert(names[4] == "comments"@);
        assert(names[5] == "attempts"@);
        assert(names[6] == "all"@);
    }
}

/// The scope each listed name selects, in order.
pub open spec fn named_scopes() -> Seq<Option<DiagnosticScope>> {
    scope_names().map_values(|t: Seq<char>| scope_named(t))
}

/// Every listed name is already lowercase and selects its own scope: the
/// seven names select seven different scopes, and every scope is selected
/// by one of them.
pub proof fn law_every_scope_has_one_name()
    ensures
        forall|i: int| 0 <= i < scope_names().len() ==> ascii_text(#[trigger] scope_names()[i]),
        forall|i: int| 0 <= i < scope_names().len() ==> #[trigger] ascii_lowered(scope_names()[i]) == scope_names()[i],
        forall|i: int| 0 <= i < scope_names().len() ==> (#[trigger] scope_named(scope_names()[i])) is Some,
        forall|i: int, j: int| 0 <= i < j < scope_names().len() ==>
            #[trigger] scope_named(scope_names()[i]) != #[trigger] scope_named(scope_names()[j]),
        forall|v: DiagnosticScope| #[trigger] named_scopes().contains(Some(v)),
{
    reveal_strlit("store");
    reveal_strlit("backup");
    reveal_strlit("schema");
    reveal_strlit("dependencies");
    reveal_strlit("comments");
    reveal_strlit("attempts");
    reveal_strlit("all");
    let names = scope_names();
    assert forall|i: int| 0 <= i < names.len() implies #[trigger] ascii_lowered(names[i]) == names[i] by {
        assert(ascii_lowered(names[i]) =~= names[i]);
    }
    assert forall|i: int| 0 <= i < names.len() implies ascii_text(#[trigger] names[i]) by {
        assert forall|k: int| 0 <= k < names[i].len() implies (#[trigger] names[i][k] as u32) < 0x80 by {
            assert('a' <= names[i][k] <= 'z');
        }
    }
    assert(names[1][0] != names[0][0]);
    assert(names[2][1] != names[0][1] && names[2][0] != names[1][0]);
    assert(names[3][0] != names[0][0] && names[3][0] != names[1][0] && names[3][0] != names[2][0]);
    assert(names[4][0] != names[0][0] && names[4][0] != names[1][0] && names[4][0] != names[2][0] && names[4][0] != names[3][0]);
    assert(names[5][0] != names[0][0] && names[5][0] != names[1][0] && names[5][0] != names[2][0] && names[5][0] != names[3][0]
        && names[5][0] != names[4][0]);
    assert(names[6][0] != names[0][0] && names[6][0] != names[1][0] && names[6][0] != names[2][0] && names[6][0] != names[3][0]
        && names[6][0] != names[4][0] && names[6][1] != names[5][1]);
    assert(scope_named(names[0]) == Some(DiagnosticScope::Store));
    assert(scope_named(names[1]) == Some(DiagnosticScope::Backup));
    assert(scope_named(names[2]) == Some(DiagnosticScope::Schema));
    assert(scope_named(names[3]) == Some(DiagnosticScope::Dependencies));
    assert(scope_named(names[4]) == Some(DiagnosticScope::Comments));
    assert(scope_named(names[5]) == Some(DiagnosticScope::Attempts));
    assert(scope_named(names[6]) == Some(DiagnosticScope::All));
    let named = named_scopes();
    assert forall|v: DiagnosticScope| #[trigger] named.contains(Some(v)) by {
        let i: int = match v {
            DiagnosticScope::Store => 0,
            DiagnosticScope::Backup => 1,
            DiagnosticScope::Schema => 2,
            DiagnosticScope::Dependencies => 3,
            DiagnosticScope::Comments => 4,
            DiagnosticScope::Attempts => 5,
            DiagnosticScope::All => 6,
        };
        assert(named[i] == Some(v));
    }
}

impl DiagnosticScope {
    /// The scope a name selects, case-insensitively.
    pub fn from_str(s: &str) -> (r: Option<DiagnosticScope>)
        ensures
            r == scope_named(unicode_lowercase(s@)),
            ascii_text(s@) ==> r == scope_named(ascii_lowered(s@)),
            ascii_text(s@) ==> (r is Some <==> scope_names().contains(ascii_lowered(s@))),
    {
        let t = lowercase(s);
        let t = t.as_str();
        if str_eq(t, "store") {
            Some(DiagnosticScope::Store)
        } else if str_eq(t, "backup") {
            Some(DiagnosticScope::Backup)
        } else if str_eq(t, "schema") {
            Some(DiagnosticScope::Schema)
        } else if str_eq(t, "dependencies") {
            Some(DiagnosticScope::Dependencies)
        } else if str_eq(t, "comments") {
            Some(DiagnosticScope::Comments)
        } else if str_eq(t, "attempts") {
            Some(DiagnosticScope::Attempts)
        } else if str_eq(t, "all") {
            Some(DiagnosticScope::All)
        } else {
            None
        }
    }

    /// Every scope name, in order.
    pub fn all_scopes() -> (r: Vec<&'static str>)
        ensures
            r@.len() == scope_names().len(),
            forall|i: int| 0 <= i < r@.len() ==> #[trigger] r@[i]@ == scope_names()[i],
    {
        let r = vec!["store", "backup", "schema", "dependencies", "comments", "attempts", "all"];
        assert(r@.len() == 7);
        r
    }
}

/// One check's answer, with its machine-readable details.
#[derive(Debug, Clone)]
pub struct DiagnosticCheck {
    pub name: String,
    pub status: DiagnosticStatus,
    pub message: String,
    pub scope: Option<String>,
    pub details: CheckDetails,
}

/// The fork remedy a same-UUID divergence names.
pub const UUID_FORK_REMEDY: &'static str = "Run 'bead sync fork --actor <WHO> [--reason <WHY>]' to create a distinct workspace identity";

/// Why a same-UUID divergence needs a fork.
pub const UUID_FORK_EXPLANATION: &'static str = "This workspace has the same UUID as another workspace but divergent event histories. Forking creates a new UUID while recording provenance to the parent.";

/// Why assigned open issues are missing from the ready frontier.
pub const FRONTIER_EXPLANATION: &'static str = "Open issues with assignees are excluded from the ready frontier. Use the 'intentionally-held' or 'parked' labels to mark deliberate reservations.";

/// Why manually blocked open issues are missing from the ready frontier.
pub const MANUAL_BLOCKED_EXPLANATION: &'static str = "Open issues with manual_blocked=true are excluded from the ready frontier even if unassigned.";

/// A check's machine-readable details, by shape. Each variant's fixed
/// texts (the fork remedy and explanation, the frontier explanations, the
/// remote-advanced marker and remedy) are the constants of this crate.
#[derive(Debug, Clone)]
pub enum CheckDetails {
    /// `{"message": ..}`: a passing check's message.
    Message(String),
    /// `{"error": ..}`: the failure of a check that fails as an error.
    Failure(String),
    /// `{"warning": ..}`: the failure of a check that fails as a warning.
    Warning(String),
    /// `{"state", "remedy", "warning"}`: a remote-advanced checkpoint, with
    /// `REMOTE_ADVANCED_MARKER` and `REMOTE_ADVANCED_REMEDY`.
    RemoteAdvanced(String),
    /// `{"error", "remedy", "explanation"}`: a same-UUID divergence, with
    /// `UUID_FORK_REMEDY` and `UUID_FORK_EXPLANATION`.
    Diverged(String),
    /// The stale-claim report: its configuration, the stale issues (their
    /// count is the list's length) and its reason codes.
    Stale {
        config_version: u32,
        max_age_seconds: u64,
        stale_issues: Vec<StaleInProgressIssue>,
        reason_codes: Vec<String>,
    },
    /// A failed stale-claim check: the error and its reason codes.
    StaleFailure { error: String, reason_codes: Vec<String> },
    /// The ready-frontier report (the intentionally held count is the
    /// list's length); `explained` adds `FRONTIER_EXPLANATION`.
    Frontier {
        held_count: usize,
        held_ids: Vec<String>,
        intentionally_held_ids: Vec<String>,
        reason_codes: Vec<String>,
        remedy: Option<String>,
        explained: bool,
    },
    /// The manually blocked open issues, with `MANUAL_BLOCKED_EXPLANATION`.
    ManualBlocked { count: usize, ids: Vec<String> },
    /// `{"removed_path": ..}`.
    RemovedPath(String),
    /// `{"created_path": ..}`.
    CreatedPath(String),
}

/// Details as plain values.
pub enum DetailsView {
    Message(Seq<char>),
    Failure(Seq<char>),
    Warning(Seq<char>),
    RemoteAdvanced(Seq<char>),
    Diverged(Seq<char>),
    Stale(u32, u64, Seq<(Seq<char>, Seq<char>, u64, Seq<char>)>, Seq<Seq<char>>),
    StaleFailure(Seq<char>, Seq<Seq<char>>),
    Frontier(usize, Seq<Seq<char>>, Seq<Seq<char>>, Seq<Seq<char>>, Option<Seq<char>>, bool),
    ManualBlocked(usize, Seq<Seq<char>>),
    RemovedPath(Seq<char>),
    CreatedPath(Seq<char>),
}

pub open spec fn stale_issue_view(i: StaleInProgressIssue) -> (Seq<char>, Seq<char>, u64, Seq<char>) {
    (i.id@, i.last_event_at@, i.age_seconds, i.remedy@)
}

pub open spec fn details_view(d: CheckDetails) -> DetailsView {
    match d {
        CheckDetails::Message(m) => DetailsView::Message(m@),
        CheckDetails::Failure(m) => DetailsView::Failure(m@),
        CheckDetails::Warning(m) => DetailsView::Warning(m@),
        CheckDetails::RemoteAdvanced(m) => DetailsView::RemoteAdvanced(m@),
        CheckDetails::Diverged(m) => DetailsView::Diverged(m@),
        CheckDetails::Stale { config_version, max_age_seconds, stale_issues, reason_codes } =>
            DetailsView::Stale(config_version, max_age_seconds,
                stale_issues@.map_values(|i: StaleInProgressIssue| stale_issue_view(i)), sv(reason_codes@)),
        CheckDetails::StaleFailure { error, reason_codes } => DetailsView::StaleFailure(error@, sv(reason_codes@)),
        CheckDetails::Frontier { held_count, held_ids, intentionally_held_ids, reason_codes, remedy, explained } =>
            DetailsView::Frontier(held_count, sv(held_ids@), sv(intentionally_held_ids@), sv(reason_codes@),
                crate::git::opt_text(remedy), explained),
        CheckDetails::ManualBlocked { count, ids } => DetailsView::ManualBlocked(count, sv(ids@)),
        CheckDetails::RemovedPath(p) => DetailsView::RemovedPath(p@),
        CheckDetails::CreatedPath(p) => DetailsView::CreatedPath(p@),
    }
}

/// A doctor run's answer.
#[derive(Debug, Clone)]
pub struct DoctorDiagnostics {
    pub checks: Vec<DiagnosticCheck>,
    pub has_errors: bool,
    pub has_warnings: bool,
    pub scopes_checked: Vec<String>,
    pub timestamp: String,
}

/// The checks a doctor run can perform.
#[derive(Debug, Clone, Copy, PartialEq, Eq, Structural)]
pub enum CheckKind {
    WorkspaceConfig,
    DatabaseIntegrity,
    StaleInProgress,
    UuidDivergence,
    CheckpointFreshness,
    BackupGenerations,
    SchemaValidity,
    DependencyGraph,
    ReadyFrontier,
    CommentsIntegrity,
    AttemptOutcomesIntegrity,
    AttemptTierConsistency,
    TemporaryFiles,
}

/// A check's name, the scope it reports under, whether its failure is an
/// error (otherwise a warning), and how its failure message begins.
pub open spec fn check_table(k: CheckKind) -> (Seq<char>, Seq<char>, bool, Seq<char>) {
    match k {
        CheckKind::WorkspaceConfig => ("workspace_config"@, "store"@, true, "Workspace config error: "@),
        CheckKind::DatabaseIntegrity => ("database_integrity"@, "store"@, true, "Database integrity error: "@),
        CheckKind::StaleInProgress => ("stale_in_progress"@, "store"@, true, "Stale in-progress check error: "@),
        CheckKind::UuidDivergence => ("uuid_divergence"@, "store"@, true, "UUID divergence detected: "@),
        CheckKind::CheckpointFreshness => ("checkpoint_freshness"@, "backup"@, false, "Checkpoint freshness warning: "@),
        CheckKind::BackupGenerations => ("backup_generations"@, "backup"@, false, "Backup generations warning: "@),
        CheckKind::SchemaValidity => ("schema_validity"@, "schema"@, true, "Schema validity error: "@),
        CheckKind::DependencyGraph => ("dependency_graph"@, "dependencies"@, true, "Dependency graph error: "@),
        CheckKind::ReadyFrontier => ("ready_frontier"@, "dependencies"@, true, "Ready frontier check error: "@),
        CheckKind::CommentsIntegrity => ("comments_integrity"@, "comments"@, false, "Comments integrity warning: "@),
        CheckKind::AttemptOutcomesIntegrity => ("attempt_outcomes_integrity"@, "attempts"@, true, "Attempt outcomes integrity error: "@),
        CheckKind::AttemptTierConsistency => ("attempt_tier_consistency"@, "attempts"@, false, "Attempt tier consistency warning: "@),
        CheckKind::TemporaryFiles => ("temporary_files"@, "store"@, false, "Temporary files warning: "@),
    }
}

fn check_info(k: CheckKind) -> (r: (&'static str, &'static str, bool, &'static str))
    ensures
        (r.0@, r.1@, r.2, r.3@) == check_table(k),
{
    match k {
        CheckKind::WorkspaceConfig => ("workspace_config", "store", true, "Workspace config error: "),
        CheckKind::DatabaseIntegrity => ("database_integrity", "store", true, "Database integrity error: "),
        CheckKind::StaleInProgress => ("stale_in_progress", "store", true, "Stale in-progress check error: "),
        CheckKind::UuidDivergence => ("uuid_divergence", "store", true, "UUID divergence detected: "),
        CheckKind::CheckpointFreshness => ("checkpoint_freshness", "backup", false, "Checkpoint freshness warning: "),
        CheckKind::BackupGenerations => ("backup_generations", "backup", false, "Backup generations warning: "),
        CheckKind::SchemaValidity => ("schema_validity", "schema", true, "Schema validity error: "),
        CheckKind::DependencyGraph => ("dependency_graph", "dependencies", true, "Dependency graph error: "),
        CheckKind::ReadyFrontier => ("ready_frontier", "dependencies", true, "Ready frontier check error: "),
        CheckKind::CommentsIntegrity => ("comments_integrity", "comments", false, "Comments integrity warning: "),
        CheckKind::AttemptOutcomesIntegrity => ("attempt_outcomes_integrity", "attempts", true, "Attempt outcomes integrity error: "),
        CheckKind::AttemptTierConsistency => ("attempt_tier_consistency", "attempts", false, "Attempt tier consistency warning: "),
        CheckKind::TemporaryFiles => ("temporary_files", "store", false, "Temporary files warning: "),
    }
}

/// Whether a run over `scopes` covers `s`: `All` covers every scope.
pub open spec fn covers(scopes: Seq<DiagnosticScope>, s: DiagnosticScope) -> bool {
    scopes.contains(DiagnosticScope::All) || scopes.contains(s)
}

/// The scopes in the order a run reports them.
pub open spec fn scope_order() -> Seq<DiagnosticScope> {
    seq![DiagnosticScope::Store, DiagnosticScope::Backup, DiagnosticScope::Schema, DiagnosticScope::Dependencies,
        DiagnosticScope::Comments, DiagnosticScope::Attempts]
}

/// The name a scope reports under.
pub open spec fn scope_name(s: DiagnosticScope) -> Seq<char> {
    match s {
        DiagnosticScope::Store => "store"@,
        DiagnosticScope::Backup => "backup"@,
        DiagnosticScope::Schema => "schema"@,
        DiagnosticScope::Dependencies => "dependencies"@,
        DiagnosticScope::Comments => "comments"@,
        DiagnosticScope::Attempts => "attempts"@,
        DiagnosticScope::All => "all"@,
    }
}

/// The checks a scope runs, in order.
pub open spec fn scope_checks(s: DiagnosticScope) -> Seq<CheckKind> {
    match s {
        DiagnosticScope::Store => seq![CheckKind::WorkspaceConfig, CheckKind::DatabaseIntegrity, CheckKind::StaleInProgress, CheckKind::UuidDivergence],
        DiagnosticScope::Backup => seq![CheckKind::CheckpointFreshness, CheckKind::BackupGenerations],
        DiagnosticScope::Schema => seq![CheckKind::SchemaValidity],
        DiagnosticScope::Dependencies => seq![CheckKind::DependencyGraph, CheckKind::ReadyFrontier],
        DiagnosticScope::Comments => seq![CheckKind::CommentsIntegrity],
        DiagnosticScope::Attempts => seq![CheckKind::AttemptOutcomesIntegrity, CheckKind::AttemptTierConsistency],
        DiagnosticScope::All => Seq::empty(),
    }
}

/// The scope names a run over `scopes` reports, among the first `n` of
/// the scope order.
pub open spec fn scopes_run(scopes: Seq<DiagnosticScope>, n: nat) -> Seq<Seq<char>>
    decreases n,
{
    if n == 0 {
        Seq::empty()
    } else {
        let prev = scopes_run(scopes, (n - 1) as nat);
        let s = scope_order()[n - 1];
        if covers(scopes, s) {
            prev.push(scope_name(s))
        } else {
            prev
        }
    }
}

/// The checks a run over `scopes` performs for the first `n` scopes of the
/// order.
pub open spec fn checks_run(scopes: Seq<DiagnosticScope>, n: nat) -> Seq<CheckKind>
    decreases n,
{
    if n == 0 {
        Seq::empty()
    } else {
        let prev = checks_run(scopes, (n - 1) as nat);
        let s = scope_order()[n - 1];
        if covers(scopes, s) {
            prev + scope_checks(s)
        } else {
            prev
        }
    }
}

/// Every check a run over `scopes` performs, in order: the covered scopes'
/// checks, then the temporary-files check, which always runs.
pub open spec fn planned(scopes: Seq<DiagnosticScope>) -> Seq<CheckKind> {
    checks_run(scopes, 6) + seq![CheckKind::TemporaryFiles]
}

fn contains_scope(scopes: &Vec<DiagnosticScope>, s: DiagnosticScope) -> (r: bool)
    ensures
        r == scopes@.contains(s),
{
    let mut i: usize = 0;
    while i < scopes.len()
        invariant
            i <= scopes@.len(),
            forall|k: int| 0 <= k < i ==> scopes@[k] != s,
        decreases scopes@.len() - i,
    {
        if scopes[i] == s {
            assert(scopes@[i as int] == s);
            return true;
        }
        i = i + 1;
    }
    false
}

fn scope_checks_of(s: DiagnosticScope) -> (r: Vec<CheckKind>)
    ensures
        r@ == scope_checks(s),
{
    let r = match s {
        DiagnosticScope::Store => vec![CheckKind::WorkspaceConfig, CheckKind::DatabaseIntegrity, CheckKind::StaleInProgress, CheckKind::UuidDivergence],
        DiagnosticScope::Backup => vec![CheckKind::CheckpointFreshness, CheckKind::BackupGenerations],
        DiagnosticScope::Schema => vec![CheckKind::SchemaValidity],
        DiagnosticScope::Dependencies => vec![CheckKind::DependencyGraph, CheckKind::ReadyFrontier],
        DiagnosticScope::Comments => vec![CheckKind::CommentsIntegrity],
        DiagnosticScope::Attempts => vec![CheckKind::AttemptOutcomesIntegrity, CheckKind::AttemptTierConsistency],
        DiagnosticScope::All => Vec::new(),
    };
    assert(r@ =~= scope_checks(s));
    r
}

fn scope_name_of(s: DiagnosticScope) -> (r: &'static str)
    ensures
        r@ == scope_name(s),
{
    match s {
        DiagnosticScope::Store => "store",
        DiagnosticScope::Backup => "backup",
        DiagnosticScope::Schema => "schema",
        DiagnosticScope::Dependencies => "dependencies",
        DiagnosticScope::Comments => "comments",
        DiagnosticScope::Attempts => "attempts",
        DiagnosticScope::All => "all",
    }
}

/// The scope names a run reports and the checks it performs, in order.
pub fn plan_checks(scopes: &Vec<DiagnosticScope>) -> (r: (Vec<String>, Vec<CheckKind>))
    ensures
        sv(r.0@) == scopes_run(scopes@, 6),
        r.1@ == planned(scopes@),
{
    let order = vec![DiagnosticScope::Store, DiagnosticScope::Backup, DiagnosticScope::Schema, DiagnosticScope::Dependencies,
        DiagnosticScope::Comments, DiagnosticScope::Attempts];
    assert(order@ =~= scope_order());
    let run_all = contains_scope(scopes, DiagnosticScope::All);
    let mut names: Vec<String> = Vec::new();
    let mut kinds: Vec<CheckKind> = Vec::new();
    let mut i: usize = 0;
    while i < order.len()
        invariant
            order@ == scope_order(),
            i <= order@.len(),
            run_all == scopes@.contains(DiagnosticScope::All),
            sv(names@) == scopes_run(scopes@, i as nat),
            kinds@ == checks_run(scopes@, i as nat),
        decreases order@.len() - i,
    {
        let s = order[i];
        if run_all || contains_scope(scopes, s) {
            let ghost before = sv(names@);
            names.push(owned(scope_name_of(s)));
            assert(sv(names@) =~= before.push(scope_name(s)));
            let mut more = scope_checks_of(s);
            kinds.append(&mut more);
        }
        i = i + 1;
    }
    kinds.push(CheckKind::TemporaryFiles);
    (names, kinds)
}

/// One stale ordinary in-progress claim.
#[derive(Debug, Clone)]
pub struct StaleInProgressIssue {
    pub id: String,
    pub last_event_at: String,
    pub age_seconds: u64,
    pub remedy: String,
}

/// The stale in-progress query's result.
#[derive(Debug, Clone)]
pub struct StaleInProgressReport {
    pub config_version: u32,
    pub max_age_seconds: u64,
    pub stale_issues: Vec<StaleInProgressIssue>,
}

/// Structured report of the ready-frontier check: potentially abandoned
/// assignments apart from intentionally held work.
#[derive(Debug, Clone)]
pub struct ReadyFrontierReport {
    /// Whether any open issues are held by assignees (either category).
    pub has_held_issues: bool,
    /// Count of potentially abandoned held issues.
    pub held_count: usize,
    /// Potentially abandoned held issue ids.
    pub held_ids: Vec<String>,
    /// Issue ids held on purpose (labelled `intentionally-held` or `parked`).
    pub intentionally_held_ids: Vec<String>,
    /// Reason codes, as their stable strings.
    pub reason_codes: Vec<String>,
    /// The remedy command for clearing held assignments.
    pub remedy: Option<String>,
    /// Count of manually blocked open issues.
    pub manual_blocked_count: usize,
    /// Manually blocked open issue ids.
    pub manual_blocked_ids: Vec<String>,
}

/// The remedy every ready-frontier report names.
pub open spec fn clear_assignee_remedy() -> Seq<char> {
    "bead update <id> --clear-assignee"@
}

impl ReadyFrontierReport {
    /// A report from its lists and reason codes; it holds issues when
    /// either list is non-empty.
    pub fn from_reason_codes(
        held_ids: Vec<String>,
        intentionally_held_ids: Vec<String>,
        reason_codes: Vec<String>,
        manual_blocked_ids: Vec<String>,
        manual_blocked_count: usize,
    ) -> (r: ReadyFrontierReport)
        ensures
            r.has_held_issues == (held_ids@.len() > 0 || intentionally_held_ids@.len() > 0),
            r.held_count == held_ids@.len(),
            r.held_ids@ == held_ids@,
            r.intentionally_held_ids@ == intentionally_held_ids@,
            r.reason_codes@ == reason_codes@,
            r.remedy matches Some(m) && m@ == clear_assignee_remedy(),
            r.manual_blocked_count == manual_blocked_count,
            r.manual_blocked_ids@ == manual_blocked_ids@,
    {
        ReadyFrontierReport {
            has_held_issues: held_ids.len() > 0 || intentionally_held_ids.len() > 0,
            held_count: held_ids.len(),
            held_ids,
            intentionally_held_ids,
            reason_codes,
            remedy: Some(owned("bead update <id> --clear-assignee")),
            manual_blocked_count,
            manual_blocked_ids,
        }
    }
}

/// Whether an assignment is held on purpose: its comma-joined labels
/// mention `intentionally-held` or `parked`.
pub open spec fn held_on_purpose(labels: Option<Seq<char>>) -> bool {
    let text = match labels {
        Some(l) => l,
        None => Seq::empty(),
    };
    has_infix(text, "intentionally-held"@) || has_infix(text, "parked"@)
}

pub open spec fn label_view(h: (String, Option<String>)) -> (Seq<char>, Option<Seq<char>>) {
    (h.0@, crate::git::opt_text(h.1))
}

/// Split open assigned issues (id and comma-joined labels, in order) into
/// potentially abandoned and intentionally held ids.
pub fn split_held(held: &Vec<(String, Option<String>)>) -> (r: (Vec<String>, Vec<String>))
    ensures
        sv(r.0@) == held@.map_values(|h: (String, Option<String>)| label_view(h)).filter(
            |h: (Seq<char>, Option<Seq<char>>)| !held_on_purpose(h.1)).map_values(|h: (Seq<char>, Option<Seq<char>>)| h.0),
        sv(r.1@) == held@.map_values(|h: (String, Option<String>)| label_view(h)).filter(
            |h: (Seq<char>, Option<Seq<char>>)| held_on_purpose(h.1)).map_values(|h: (Seq<char>, Option<Seq<char>>)| h.0),
{
    let ghost hv = held@.map_values(|h: (String, Option<String>)| label_view(h));
    let ghost abandoned = |h: (Seq<char>, Option<Seq<char>>)| !held_on_purpose(h.1);
    let ghost purposeful = |h: (Seq<char>, Option<Seq<char>>)| held_on_purpose(h.1);
    let mut open_ids: Vec<String> = Vec::new();
    let mut kept_ids: Vec<String> = Vec::new();
    let mut i: usize = 0;
    while i < held.len()
        invariant
            i <= held@.len(),
            hv == held@.map_values(|h: (String, Option<String>)| label_view(h)),
            abandoned == (|h: (Seq<char>, Option<Seq<char>>)| !held_on_purpose(h.1)),
            purposeful == (|h: (Seq<char>, Option<Seq<char>>)| held_on_purpose(h.1)),
            sv(open_ids@) == hv.take(i as int).filter(abandoned).map_values(|h: (Seq<char>, Option<Seq<char>>)| h.0),
            sv(kept_ids@) == hv.take(i as int).filter(purposeful).map_values(|h: (Seq<char>, Option<Seq<char>>)| h.0),
        decreases held@.len() - i,
    {
        proof {
            assert(hv.take(i + 1).drop_last() =~= hv.take(i as int));
            reveal_with_fuel(Seq::filter, 1);
        }
        let labels: &str = match &held[i].1 {
            Some(l) => l.as_str(),
            None => "",
        };
        proof {
            reveal_strlit("");
        }
        let on_purpose = str_contains(labels, "intentionally-held") || str_contains(labels, "parked");
        assert(labels@ == match crate::git::opt_text(held@[i as int].1) {
            Some(l) => l,
            None => Seq::<char>::empty(),
        });
        assert(on_purpose == held_on_purpose(hv[i as int].1));
        if on_purpose {
            let ghost before = sv(kept_ids@);
            kept_ids.push(held[i].0.clone());
            assert(sv(kept_ids@) =~= before.push(hv[i as int].0));
            assert(hv.take(i + 1).filter(purposeful) =~= hv.take(i as int).filter(purposeful).push(hv[i as int]));
            assert(hv.take(i + 1).filter(abandoned) =~= hv.take(i as int).filter(abandoned));
        } else {
            let ghost before = sv(open_ids@);
            open_ids.push(held[i].0.clone());
            assert(sv(open_ids@) =~= before.push(hv[i as int].0));
            assert(hv.take(i + 1).filter(abandoned) =~= hv.take(i as int).filter(abandoned).push(hv[i as int]));
            assert(hv.take(i + 1).filter(purposeful) =~= hv.take(i as int).filter(purposeful));
        }
        assert(hv.take(i + 1).filter(abandoned).map_values(|h: (Seq<char>, Option<Seq<char>>)| h.0)
            =~= if on_purpose { hv.take(i as int).filter(abandoned).map_values(|h: (Seq<char>, Option<Seq<char>>)| h.0) } else {
                hv.take(i as int).filter(abandoned).map_values(|h: (Seq<char>, Option<Seq<char>>)| h.0).push(hv[i as int].0) });
        assert(hv.take(i + 1).filter(purposeful).map_values(|h: (Seq<char>, Option<Seq<char>>)| h.0)
            =~= if on_purpose { hv.take(i as int).filter(purposeful).map_values(|h: (Seq<char>, Option<Seq<char>>)| h.0).push(hv[i as int].0) } else {
                hv.take(i as int).filter(purposeful).map_values(|h: (Seq<char>, Option<Seq<char>>)| h.0) });
        i = i + 1;
    }
    assert(hv.take(held@.len() as int) =~= hv);
    (open_ids, kept_ids)
}

/// The ready-frontier report from the open assigned issues (id and
/// comma-joined labels, in id order) and the manually blocked open issues:
/// an empty report without remedy when both are empty; otherwise the
/// assignments split by label, with `held_code` when some look abandoned
/// and `intentional_code` when some are held on purpose.
pub fn ready_frontier_report(
    held: &Vec<(String, Option<String>)>,
    manual_blocked_ids: Vec<String>,
    held_code: &str,
    intentional_code: &str,
) -> (r: ReadyFrontierReport)
    ensures
        held@.len() == 0 && manual_blocked_ids@.len() == 0 ==> {
            &&& !r.has_held_issues && r.held_count == 0 && r.held_ids@.len() == 0
            &&& r.intentionally_held_ids@.len() == 0 && r.reason_codes@.len() == 0
            &&& r.remedy is None && r.manual_blocked_count == 0 && r.manual_blocked_ids@.len() == 0
        },
        !(held@.len() == 0 && manual_blocked_ids@.len() == 0) ==> {
            let hv = held@.map_values(|h: (String, Option<String>)| label_view(h));
            let abandoned = hv.filter(|h: (Seq<char>, Option<Seq<char>>)| !held_on_purpose(h.1)).map_values(|h: (Seq<char>, Option<Seq<char>>)| h.0);
            let kept = hv.filter(|h: (Seq<char>, Option<Seq<char>>)| held_on_purpose(h.1)).map_values(|h: (Seq<char>, Option<Seq<char>>)| h.0);
            &&& sv(r.held_ids@) == abandoned
            &&& sv(r.intentionally_held_ids@) == kept
            &&& r.has_held_issues == (abandoned.len() > 0 || kept.len() > 0)
            &&& r.held_count == abandoned.len()
            &&& sv(r.reason_codes@) == (if abandoned.len() > 0 { seq![held_code@] } else { Seq::empty() })
                + (if kept.len() > 0 { seq![intentional_code@] } else { Seq::empty() })
            &&& r.remedy matches Some(m) && m@ == clear_assignee_remedy()
            &&& r.manual_blocked_ids@ == manual_blocked_ids@
            &&& r.manual_blocked_count == manual_blocked_ids@.len()
        },
{
    if held.len() == 0 && manual_blocked_ids.len() == 0 {
        return ReadyFrontierReport {
            has_held_issues: false,
            held_count: 0,
            held_ids: Vec::new(),
            intentionally_held_ids: Vec::new(),
            reason_codes: Vec::new(),
            remedy: None,
            manual_blocked_count: 0,
            manual_blocked_ids: Vec::new(),
        };
    }
    let (held_ids, kept_ids) = split_held(held);
    let mut codes: Vec<String> = Vec::new();
    if held_ids.len() > 0 {
        codes.push(owned(held_code));
    }
    if kept_ids.len() > 0 {
        codes.push(owned(intentional_code));
    }
    proof {
        let a: Seq<Seq<char>> = if held_ids@.len() > 0 { seq![held_code@] } else { Seq::empty() };
        let b: Seq<Seq<char>> = if kept_ids@.len() > 0 { seq![intentional_code@] } else { Seq::empty() };
        assert(sv(codes@) =~= a + b);
    }
    let n = manual_blocked_ids.len();
    ReadyFrontierReport::from_reason_codes(held_ids, kept_ids, codes, manual_blocked_ids, n)
}

/// What one check produced: a message, or the structured report of the
/// stale-claim and ready-frontier checks; each may fail.
#[derive(Debug)]
pub enum CheckOutcome {
    Message(Result<String, Error>),
    Stale(Result<StaleInProgressReport, Error>),
    Frontier(Result<ReadyFrontierReport, Error>),
}

/// A check as plain values: name, status, message, scope, details.
pub type CheckView = (Seq<char>, DiagnosticStatus, Seq<char>, Option<Seq<char>>, DetailsView);

pub open spec fn check_view(c: DiagnosticCheck) -> CheckView {
    (c.name@, c.status, c.message@, crate::git::opt_text(c.scope), details_view(c.details))
}

pub open spec fn checks_view(v: Seq<DiagnosticCheck>) -> Seq<CheckView> {
    v.map_values(|c: DiagnosticCheck| check_view(c))
}

/// The outcome is of the shape its check produces.
pub open spec fn fits(k: CheckKind, o: CheckOutcome) -> bool {
    match k {
        CheckKind::StaleInProgress => o is Stale,
        CheckKind::ReadyFrontier => o is Frontier,
        _ => o is Message,
    }
}

/// A checkpoint error that reports the remote-advanced state: a workspace
/// error whose text begins with the marker.
pub open spec fn remote_advanced_error(e: Error) -> bool {
    e matches Error::Workspace(m) && crate::reconcile::REMOTE_ADVANCED_MARKER@.is_prefix_of(m@)
}

/// The details of a failed check: the stale-claim check adds its reason
/// code, a divergence its fork remedy, a remote-advanced checkpoint its
/// state and remedy; any other failure carries its text as an error or a
/// warning.
pub open spec fn failed_details(k: CheckKind, e: Error, stale_code: Seq<char>) -> DetailsView {
    if k == CheckKind::StaleInProgress {
        DetailsView::StaleFailure(e.text(), seq![stale_code])
    } else if k == CheckKind::UuidDivergence {
        DetailsView::Diverged(e.text())
    } else if k == CheckKind::CheckpointFreshness && remote_advanced_error(e) {
        DetailsView::RemoteAdvanced(e.text())
    } else if check_table(k).2 {
        DetailsView::Failure(e.text())
    } else {
        DetailsView::Warning(e.text())
    }
}

/// The failed check's answer: an error or a warning, by kind.
pub open spec fn failed_view(k: CheckKind, e: Error, stale_code: Seq<char>) -> CheckView {
    let (name, scope, is_error, prefix) = check_table(k);
    (name, if is_error { DiagnosticStatus::Error } else { DiagnosticStatus::Warning }, prefix + e.text(), Some(scope),
        failed_details(k, e, stale_code))
}

/// One stale claim as the warning lists it.
pub open spec fn stale_entry(i: StaleInProgressIssue) -> Seq<char> {
    i.id@ + " ("@ + int_text(i.age_seconds as int) + " seconds old; "@ + i.remedy@ + ")"@
}

pub open spec fn stale_details(r: StaleInProgressReport, stale_code: Seq<char>) -> DetailsView {
    DetailsView::Stale(r.config_version, r.max_age_seconds,
        r.stale_issues@.map_values(|i: StaleInProgressIssue| stale_issue_view(i)),
        if r.stale_issues@.len() == 0 { Seq::empty() } else { seq![stale_code] })
}

pub open spec fn stale_view(r: StaleInProgressReport, stale_code: Seq<char>) -> CheckView {
    if r.stale_issues@.len() == 0 {
        ("stale_in_progress"@, DiagnosticStatus::Healthy,
            "No non-leased in-progress beads have been inactive for more than "@ + int_text(r.max_age_seconds as int) + " seconds"@,
            Some("store"@), stale_details(r, stale_code))
    } else {
        ("stale_in_progress"@, DiagnosticStatus::Warning,
            int_text(r.stale_issues@.len() as int) + " non-leased in-progress bead(s) have had no event for more than "@
                + int_text(r.max_age_seconds as int) + " seconds: "@
                + join_seq(r.stale_issues@.map_values(|i: StaleInProgressIssue| stale_entry(i)), ", "@),
            Some("store"@), stale_details(r, stale_code))
    }
}

/// The first five potentially abandoned ids, comma-joined.
pub open spec fn first_held(r: ReadyFrontierReport) -> Seq<char> {
    join_seq(sv(r.held_ids@).take(if r.held_ids@.len() < 5 { r.held_ids@.len() as int } else { 5 }), ", "@)
}

pub open spec fn frontier_view(r: ReadyFrontierReport) -> CheckView {
    if r.has_held_issues {
        let abandoned = r.held_ids@.len() > 0;
        let intentional = r.intentionally_held_ids@.len() > 0;
        let message = if abandoned && intentional {
            int_text(r.held_count + r.intentionally_held_ids@.len()) + " open issue(s) are assigned and excluded from the ready frontier ("@
                + int_text(r.intentionally_held_ids@.len() as int) + " intentionally held). Potentially abandoned: "@ + first_held(r)
                + ". An assigned open issue is not an active claim (a claim sets in_progress)."@
        } else if abandoned {
            int_text(r.held_count as int) + " open issue(s) are assigned and excluded from the ready frontier: "@ + first_held(r)
                + ". An assigned open issue is not an active claim (a claim sets in_progress)."@
        } else {
            int_text(r.intentionally_held_ids@.len() as int)
                + " open issue(s) are intentionally held and excluded from the ready frontier. Mark issues with 'intentionally-held' or 'parked' labels to suppress this warning."@
        };
        ("ready_frontier"@, if abandoned { DiagnosticStatus::Warning } else { DiagnosticStatus::Healthy }, message, Some("dependencies"@),
            DetailsView::Frontier(r.held_count, sv(r.held_ids@), sv(r.intentionally_held_ids@), sv(r.reason_codes@),
                crate::git::opt_text(r.remedy), true))
    } else {
        ("ready_frontier"@, DiagnosticStatus::Healthy, "Ready frontier OK: no open issues are held by an assignee"@, Some("dependencies"@),
            DetailsView::Frontier(0, Seq::empty(), Seq::empty(), Seq::empty(), None, false))
    }
}

pub open spec fn frontier_views(r: ReadyFrontierReport) -> Seq<CheckView> {
    if r.manual_blocked_count > 0 {
        seq![frontier_view(r), ("ready_frontier"@, DiagnosticStatus::Warning, int_text(r.manual_blocked_count as int)
            + " open issue(s) are manually blocked and excluded from the ready frontier. Use 'bead list --blocked' to view them."@,
            Some("dependencies"@), DetailsView::ManualBlocked(r.manual_blocked_count, sv(r.manual_blocked_ids@)))]
    } else {
        seq![frontier_view(r)]
    }
}

/// The checks one outcome reports; `stale_code` is the reason code of a
/// stale claim.
pub open spec fn outcome_views(k: CheckKind, o: CheckOutcome, stale_code: Seq<char>) -> Seq<CheckView> {
    match o {
        CheckOutcome::Message(Ok(m)) => seq![(check_table(k).0, DiagnosticStatus::Healthy, m@, Some(check_table(k).1), DetailsView::Message(m@))],
        CheckOutcome::Message(Err(e)) => seq![failed_view(k, e, stale_code)],
        CheckOutcome::Stale(Ok(r)) => seq![stale_view(r, stale_code)],
        CheckOutcome::Stale(Err(e)) => seq![failed_view(k, e, stale_code)],
        CheckOutcome::Frontier(Ok(r)) => frontier_views(r),
        CheckOutcome::Frontier(Err(e)) => seq![failed_view(k, e, stale_code)],
    }
}

/// The checks of the first `n` outcomes, in order.
pub open spec fn all_views(kinds: Seq<CheckKind>, outcomes: Seq<CheckOutcome>, n: nat, stale_code: Seq<char>) -> Seq<CheckView>
    decreases n,
{
    if n == 0 {
        Seq::empty()
    } else {
        all_views(kinds, outcomes, (n - 1) as nat, stale_code) + outcome_views(kinds[n - 1], outcomes[n - 1], stale_code)
    }
}

/// The frontier counts fit the machine's integers.
pub open spec fn counts_fit(o: CheckOutcome) -> bool {
    o matches CheckOutcome::Frontier(Ok(r)) ==> r.held_count + r.intentionally_held_ids@.len() <= usize::MAX
}

fn usize_text(n: usize) -> (r: String)
    ensures
        r@ == int_text(n as int),
{
    u64_text(n as u64)
}

fn is_remote_advanced(e: &Error) -> (r: bool)
    ensures
        r == remote_advanced_error(*e),
{
    match e {
        Error::Workspace(m) => starts_with(m.as_str(), crate::reconcile::REMOTE_ADVANCED_MARKER),
        _ => false,
    }
}

fn one_code(code: &str) -> (r: Vec<String>)
    ensures
        sv(r@) == seq![code@],
{
    let mut v: Vec<String> = Vec::new();
    v.push(owned(code));
    assert(sv(v@) =~= seq![code@]);
    v
}

fn failed_check(k: CheckKind, e: &Error, stale_code: &str) -> (r: DiagnosticCheck)
    ensures
        check_view(r) == failed_view(k, *e, stale_code@),
{
    let (name, scope, is_error, prefix) = check_info(k);
    let text = e.message();
    let details = if k == CheckKind::StaleInProgress {
        CheckDetails::StaleFailure { error: text.clone(), reason_codes: one_code(stale_code) }
    } else if k == CheckKind::UuidDivergence {
        CheckDetails::Diverged(text.clone())
    } else if k == CheckKind::CheckpointFreshness && is_remote_advanced(e) {
        CheckDetails::RemoteAdvanced(text.clone())
    } else if is_error {
        CheckDetails::Failure(text.clone())
    } else {
        CheckDetails::Warning(text.clone())
    };
    DiagnosticCheck {
        name: owned(name),
        status: if is_error { DiagnosticStatus::Error } else { DiagnosticStatus::Warning },
        message: cat(prefix, text.as_str()),
        scope: Some(owned(scope)),
        details,
    }
}

fn empty_list() -> (r: Vec<String>)
    ensures
        sv(r@) == Seq::<Seq<char>>::empty(),
{
    let v: Vec<String> = Vec::new();
    assert(sv(v@) =~= Seq::<Seq<char>>::empty());
    v
}

fn copy_remedy(o: &Option<String>) -> (r: Option<String>)
    ensures
        crate::git::opt_text(r) == crate::git::opt_text(*o),
{
    match o {
        Some(t) => Some(t.clone()),
        None => None,
    }
}

fn copy_issues(v: &Vec<StaleInProgressIssue>) -> (r: Vec<StaleInProgressIssue>)
    ensures
        r@.map_values(|i: StaleInProgressIssue| stale_issue_view(i)) == v@.map_values(|i: StaleInProgressIssue| stale_issue_view(i)),
{
    let mut out: Vec<StaleInProgressIssue> = Vec::new();
    let mut i: usize = 0;
    while i < v.len()
        invariant
            i <= v@.len(),
            out@.map_values(|x: StaleInProgressIssue| stale_issue_view(x))
                == v@.take(i as int).map_values(|x: StaleInProgressIssue| stale_issue_view(x)),
        decreases v@.len() - i,
    {
        let x = &v[i];
        let c = StaleInProgressIssue {
            id: x.id.clone(),
            last_event_at: x.last_event_at.clone(),
            age_seconds: x.age_seconds,
            remedy: x.remedy.clone(),
        };
        let ghost before = out@.map_values(|y: StaleInProgressIssue| stale_issue_view(y));
        out.push(c);
        assert(out@.map_values(|y: StaleInProgressIssue| stale_issue_view(y)) =~= before.push(stale_issue_view(v@[i as int])));
        assert(v@.take(i + 1).map_values(|y: StaleInProgressIssue| stale_issue_view(y))
            =~= v@.take(i as int).map_values(|y: StaleInProgressIssue| stale_issue_view(y)).push(stale_issue_view(v@[i as int])));
        i = i + 1;
    }
    assert(v@.take(v@.len() as int) =~= v@);
    out
}

fn stale_details_of(r: &StaleInProgressReport, stale_code: &str) -> (d: CheckDetails)
    ensures
        details_view(d) == stale_details(*r, stale_code@),
{
    let codes = if r.stale_issues.len() == 0 {
        let v: Vec<String> = Vec::new();
        assert(sv(v@) =~= Seq::<Seq<char>>::empty());
        v
    } else {
        one_code(stale_code)
    };
    CheckDetails::Stale {
        config_version: r.config_version,
        max_age_seconds: r.max_age_seconds,
        stale_issues: copy_issues(&r.stale_issues),
        reason_codes: codes,
    }
}

fn stale_check(r: &StaleInProgressReport, stale_code: &str) -> (c: DiagnosticCheck)
    ensures
        check_view(c) == stale_view(*r, stale_code@),
{
    let max = u64_text(r.max_age_seconds);
    let details = stale_details_of(r, stale_code);
    if r.stale_issues.len() == 0 {
        return DiagnosticCheck {
            name: owned("stale_in_progress"),
            status: DiagnosticStatus::Healthy,
            message: cat3("No non-leased in-progress beads have been inactive for more than ", max.as_str(), " seconds"),
            scope: Some(owned("store")),
            details,
        };
    }
    let mut entries: Vec<String> = Vec::new();
    let mut i: usize = 0;
    while i < r.stale_issues.len()
        invariant
            i <= r.stale_issues@.len(),
            sv(entries@) == r.stale_issues@.take(i as int).map_values(|x: StaleInProgressIssue| stale_entry(x)),
        decreases r.stale_issues@.len() - i,
    {
        let x = &r.stale_issues[i];
        let age = u64_text(x.age_seconds);
        let a = cat3(x.id.as_str(), " (", age.as_str());
        let b = cat3(a.as_str(), " seconds old; ", x.remedy.as_str());
        let entry = cat(b.as_str(), ")");
        let ghost before = sv(entries@);
        entries.push(entry);
        assert(sv(entries@) =~= before.push(stale_entry(r.stale_issues@[i as int])));
        assert(r.stale_issues@.take(i + 1).map_values(|x: StaleInProgressIssue| stale_entry(x))
            =~= r.stale_issues@.take(i as int).map_values(|x: StaleInProgressIssue| stale_entry(x)).push(stale_entry(r.stale_issues@[i as int])));
        i = i + 1;
    }
    assert(r.stale_issues@.take(r.stale_issues@.len() as int) =~= r.stale_issues@);
    let listed = join(&entries, ", ");
    let n = usize_text(r.stale_issues.len());
    let a = cat3(n.as_str(), " non-leased in-progress bead(s) have had no event for more than ", max.as_str());
    let b = cat3(a.as_str(), " seconds: ", listed.as_str());
    DiagnosticCheck { name: owned("stale_in_progress"), status: DiagnosticStatus::Warning, message: b, scope: Some(owned("store")), details }
}

fn first_five(ids: &Vec<String>) -> (r: String)
    ensures
        r@ == join_seq(sv(ids@).take(if ids@.len() < 5 { ids@.len() as int } else { 5 }), ", "@),
{
    let n: usize = if ids.len() < 5 { ids.len() } else { 5 };
    let mut some: Vec<String> = Vec::new();
    let mut i: usize = 0;
    while i < n
        invariant
            n <= ids@.len(),
            i <= n,
            sv(some@) == sv(ids@).take(i as int),
        decreases n - i,
    {
        let ghost before = sv(some@);
        some.push(ids[i].clone());
        assert(sv(some@) =~= before.push(ids@[i as int]@));
        assert(sv(ids@).take(i + 1) =~= sv(ids@).take(i as int).push(ids@[i as int]@));
        i = i + 1;
    }
    join(&some, ", ")
}

fn frontier_checks(r: &ReadyFrontierReport) -> (c: Vec<DiagnosticCheck>)
    requires
        r.held_count + r.intentionally_held_ids@.len() <= usize::MAX,
    ensures
        checks_view(c@) == frontier_views(*r),
{
    let first = if r.has_held_issues {
        let abandoned = r.held_ids.len() > 0;
        let intentional = r.intentionally_held_ids.len() > 0;
        let message = if abandoned && intentional {
            let total = usize_text(r.held_count + r.intentionally_held_ids.len());
            let kept = usize_text(r.intentionally_held_ids.len());
            let listed = first_five(&r.held_ids);
            let a = cat3(total.as_str(), " open issue(s) are assigned and excluded from the ready frontier (", kept.as_str());
            let b = cat3(a.as_str(), " intentionally held). Potentially abandoned: ", listed.as_str());
            cat(b.as_str(), ". An assigned open issue is not an active claim (a claim sets in_progress).")
        } else if abandoned {
            let count = usize_text(r.held_count);
            let listed = first_five(&r.held_ids);
            let a = cat3(count.as_str(), " open issue(s) are assigned and excluded from the ready frontier: ", listed.as_str());
            cat(a.as_str(), ". An assigned open issue is not an active claim (a claim sets in_progress).")
        } else {
            let kept = usize_text(r.intentionally_held_ids.len());
            cat(kept.as_str(),
                " open issue(s) are intentionally held and excluded from the ready frontier. Mark issues with 'intentionally-held' or 'parked' labels to suppress this warning.")
        };
        DiagnosticCheck {
            name: owned("ready_frontier"),
            status: if abandoned { DiagnosticStatus::Warning } else { DiagnosticStatus::Healthy },
            message,
            scope: Some(owned("dependencies")),
            details: CheckDetails::Frontier {
                held_count: r.held_count,
                held_ids: copy_paths_of(&r.held_ids),
                intentionally_held_ids: copy_paths_of(&r.intentionally_held_ids),
                reason_codes: copy_paths_of(&r.reason_codes),
                remedy: copy_remedy(&r.remedy),
                explained: true,
            },
        }
    } else {
        let (a, b, c) = (empty_list(), empty_list(), empty_list());
        DiagnosticCheck {
            name: owned("ready_frontier"),
            status: DiagnosticStatus::Healthy,
            message: owned("Ready frontier OK: no open issues are held by an assignee"),
            scope: Some(owned("dependencies")),
            details: CheckDetails::Frontier {
                held_count: 0,
                held_ids: a,
                intentionally_held_ids: b,
                reason_codes: c,
                remedy: None,
                explained: false,
            },
        }
    };
    assert(check_view(first) == frontier_view(*r));
    let mut out: Vec<DiagnosticCheck> = Vec::new();
    out.push(first);
    if r.manual_blocked_count > 0 {
        let count = usize_text(r.manual_blocked_count);
        out.push(DiagnosticCheck {
            name: owned("ready_frontier"),
            status: DiagnosticStatus::Warning,
            message: cat(count.as_str(),
                " open issue(s) are manually blocked and excluded from the ready frontier. Use 'bead list --blocked' to view them."),
            scope: Some(owned("dependencies")),
            details: CheckDetails::ManualBlocked { count: r.manual_blocked_count, ids: copy_paths_of(&r.manual_blocked_ids) },
        });
    }
    assert(checks_view(out@) =~= frontier_views(*r));
    out
}

/// The checks one outcome reports; `stale_code` is the reason code of a
/// stale claim.
pub fn outcome_checks(k: CheckKind, outcome: &CheckOutcome, stale_code: &str) -> (r: Vec<DiagnosticCheck>)
    requires
        fits(k, *outcome),
        counts_fit(*outcome),
    ensures
        checks_view(r@) == outcome_views(k, *outcome, stale_code@),
{
    let mut out: Vec<DiagnosticCheck> = Vec::new();
    match outcome {
        CheckOutcome::Message(Ok(m)) => {
            let (name, scope, _, _) = check_info(k);
            out.push(DiagnosticCheck {
                name: owned(name),
                status: DiagnosticStatus::Healthy,
                message: m.clone(),
                scope: Some(owned(scope)),
                details: CheckDetails::Message(m.clone()),
            });
        },
        CheckOutcome::Message(Err(e)) => out.push(failed_check(k, e, stale_code)),
        CheckOutcome::Stale(Ok(r)) => out.push(stale_check(r, stale_code)),
        CheckOutcome::Stale(Err(e)) => out.push(failed_check(k, e, stale_code)),
        CheckOutcome::Frontier(Ok(r)) => {
            out = frontier_checks(r);
        },
        CheckOutcome::Frontier(Err(e)) => out.push(failed_check(k, e, stale_code)),
    }
    assert(checks_view(out@) =~= outcome_views(k, *outcome, stale_code@));
    out
}

pub open spec fn any_status(v: Seq<CheckView>, s: DiagnosticStatus) -> bool {
    exists|i: int| 0 <= i < v.len() && (#[trigger] v[i]).1 == s
}

/// Assemble a doctor run over `scopes` from the outcomes of the planned
/// checks (see `plan_checks`), in plan order; `stale_reason_code` is the
/// reason code the stale-claim check's details name. The run has errors
/// when a check reports an error, and warnings when one reports a warning.
pub fn run_diagnostics_with_scopes(
    scopes: &Vec<DiagnosticScope>,
    outcomes: &Vec<CheckOutcome>,
    stale_reason_code: &str,
    timestamp: String,
) -> (r: DoctorDiagnostics)
    requires
        outcomes@.len() == planned(scopes@).len(),
        forall|i: int| 0 <= i < outcomes@.len() ==> fits(planned(scopes@)[i], #[trigger] outcomes@[i]),
        forall|i: int| 0 <= i < outcomes@.len() ==> counts_fit(#[trigger] outcomes@[i]),
    ensures
        checks_view(r.checks@) == all_views(planned(scopes@), outcomes@, outcomes@.len(), stale_reason_code@),
        r.has_errors == any_status(checks_view(r.checks@), DiagnosticStatus::Error),
        r.has_warnings == any_status(checks_view(r.checks@), DiagnosticStatus::Warning),
        sv(r.scopes_checked@) == scopes_run(scopes@, 6),
        r.timestamp@ == timestamp@,
{
    let (names, kinds) = plan_checks(scopes);
    let mut checks: Vec<DiagnosticCheck> = Vec::new();
    let mut has_errors = false;
    let mut has_warnings = false;
    let mut i: usize = 0;
    while i < outcomes.len()
        invariant
            i <= outcomes@.len(),
            kinds@ == planned(scopes@),
            outcomes@.len() == kinds@.len(),
            forall|j: int| 0 <= j < outcomes@.len() ==> fits(kinds@[j], #[trigger] outcomes@[j]),
            forall|j: int| 0 <= j < outcomes@.len() ==> counts_fit(#[trigger] outcomes@[j]),
            checks_view(checks@) == all_views(kinds@, outcomes@, i as nat, stale_reason_code@),
            has_errors == any_status(checks_view(checks@), DiagnosticStatus::Error),
            has_warnings == any_status(checks_view(checks@), DiagnosticStatus::Warning),
        decreases outcomes@.len() - i,
    {
        let mut more = outcome_checks(kinds[i], &outcomes[i], stale_reason_code);
        let ghost before = checks_view(checks@);
        let ghost added = checks_view(more@);
        let (e, w) = status_flags(&more);
        has_errors = has_errors || e;
        has_warnings = has_warnings || w;
        checks.append(&mut more);
        proof {
            assert(checks_view(checks@) =~= before + added);
            lemma_any_status_concat(before, added, DiagnosticStatus::Error);
            lemma_any_status_concat(before, added, DiagnosticStatus::Warning);
        }
        i = i + 1;
    }
    DoctorDiagnostics { checks, has_errors, has_warnings, scopes_checked: names, timestamp }
}

fn status_flags(v: &Vec<DiagnosticCheck>) -> (r: (bool, bool))
    ensures
        r.0 == any_status(checks_view(v@), DiagnosticStatus::Error),
        r.1 == any_status(checks_view(v@), DiagnosticStatus::Warning),
{
    let ghost cv = checks_view(v@);
    let mut e = false;
    let mut w = false;
    let mut j: usize = 0;
    while j < v.len()
        invariant
            j <= v@.len(),
            cv == checks_view(v@),
            e == any_status(cv.take(j as int), DiagnosticStatus::Error),
            w == any_status(cv.take(j as int), DiagnosticStatus::Warning),
        decreases v@.len() - j,
    {
        proof {
            lemma_any_status_concat(cv.take(j as int), seq![cv[j as int]], DiagnosticStatus::Error);
            lemma_any_status_concat(cv.take(j as int), seq![cv[j as int]], DiagnosticStatus::Warning);
            assert(cv.take(j + 1) =~= cv.take(j as int) + seq![cv[j as int]]);
            assert(any_status(seq![cv[j as int]], DiagnosticStatus::Error) == (cv[j as int].1 == DiagnosticStatus::Error)) by {
                if cv[j as int].1 == DiagnosticStatus::Error {
                    assert(seq![cv[j as int]][0] == cv[j as int]);
                }
            }
            assert(any_status(seq![cv[j as int]], DiagnosticStatus::Warning) == (cv[j as int].1 == DiagnosticStatus::Warning)) by {
                if cv[j as int].1 == DiagnosticStatus::Warning {
                    assert(seq![cv[j as int]][0] == cv[j as int]);
                }
            }
        }
        let st = v[j].status;
        if st == DiagnosticStatus::Error {
            e = true;
        }
        if st == DiagnosticStatus::Warning {
            w = true;
        }
        j = j + 1;
    }
    assert(cv.take(v@.len() as int) =~= cv);
    (e, w)
}

proof fn lemma_any_status_concat(a: Seq<CheckView>, b: Seq<CheckView>, s: DiagnosticStatus)
    ensures
        any_status(a + b, s) == (any_status(a, s) || any_status(b, s)),
{
    if any_status(a + b, s) {
        let k = choose|k: int| 0 <= k < (a + b).len() && (#[trigger] (a + b)[k]).1 == s;
        if k < a.len() {
            assert(a[k] == (a + b)[k]);
        } else {
            assert(b[k - a.len()] == (a + b)[k]);
        }
    }
    if any_status(a, s) {
        let k = choose|k: int| 0 <= k < a.len() && (#[trigger] a[k]).1 == s;
        assert((a + b)[k] == a[k]);
    }
    if any_status(b, s) {
        let k = choose|k: int| 0 <= k < b.len() && (#[trigger] b[k]).1 == s;
        assert((a + b)[a.len() + k] == b[k]);
    }
}

/// A bead excluded from the ready frontier, with why.
#[derive(Debug, Clone)]
pub struct ExcludedBead {
    pub id: String,
    pub title: String,
    pub priority: i64,
    pub reasons: Vec<String>,
    pub assignee: Option<String>,
    pub manual_blocked: bool,
    pub blocking_dependencies: Vec<String>,
    pub resource_conflicts: Vec<String>,
}

/// Open beads against the ready frontier.
#[derive(Debug, Clone)]
pub struct StarvationCheckReport {
    pub timestamp: String,
    pub open_bead_count: usize,
    pub ready_bead_count: usize,
    pub excluded_beads: Vec<ExcludedBead>,
    pub has_starvation: bool,
}

/// What the store says about one open bead: its row, the number of
/// unclosed blockers with up to ten of their ids, and the number of
/// issues holding a conflicting resource lock with up to five of their ids.
#[derive(Debug, Clone)]
pub struct BeadProbe {
    pub id: String,
    pub title: String,
    pub priority: i64,
    pub assignee: Option<String>,
    pub manual_blocked: Option<bool>,
    pub blocker_count: i64,
    pub blocker_ids: Vec<String>,
    pub conflict_count: i64,
    pub conflict_ids: Vec<String>,
}

/// Why a bead is not in the ready frontier, in the order they are checked.
pub open spec fn exclusion_reasons(b: BeadProbe) -> Seq<Seq<char>> {
    let a = match b.assignee {
        Some(n) => if trim_seq(n@).len() > 0 { seq!["has assignee: "@ + n@] } else { Seq::empty() },
        None => Seq::empty(),
    };
    let m = if b.manual_blocked == Some(true) { seq!["manually blocked"@] } else { Seq::empty() };
    let d = if b.blocker_count > 0 {
        if (b.blocker_ids@.len() as int) < b.blocker_count {
            seq!["blocked by "@ + int_text(b.blocker_count as int) + "+ unclosed issues (including: "@
                + join_seq(sv(b.blocker_ids@), ", "@) + ")"@]
        } else {
            seq!["blocked by "@ + int_text(b.blocker_count as int) + " unclosed issue(s): "@ + join_seq(sv(b.blocker_ids@), ", "@)]
        }
    } else {
        Seq::empty()
    };
    let c = if b.conflict_count > 0 {
        seq!["resource conflict with "@ + int_text(b.conflict_count as int) + " other issue(s): "@ + join_seq(sv(b.conflict_ids@), ", "@)]
    } else {
        Seq::empty()
    };
    a + m + d + c
}

/// The excluded bead a probe describes.
pub open spec fn excluded_as(b: BeadProbe, e: ExcludedBead) -> bool {
    &&& e.id@ == b.id@
    &&& e.title@ == b.title@
    &&& e.priority == b.priority
    &&& sv(e.reasons@) == exclusion_reasons(b)
    &&& crate::git::opt_text(e.assignee) == crate::git::opt_text(b.assignee)
    &&& e.manual_blocked == (b.manual_blocked == Some(true))
    &&& sv(e.blocking_dependencies@) == (if b.blocker_count > 0 { sv(b.blocker_ids@) } else { Seq::empty() })
    &&& sv(e.resource_conflicts@) == (if b.conflict_count > 0 { sv(b.conflict_ids@) } else { Seq::empty() })
}

/// The probes with at least one exclusion reason, in order.
pub open spec fn excluded_probes(beads: Seq<BeadProbe>) -> Seq<BeadProbe> {
    beads.filter(|b: BeadProbe| exclusion_reasons(b).len() > 0)
}

fn copy_text(s: &String) -> (r: String)
    ensures
        r@ == s@,
{
    s.clone()
}

fn exclusion_of(b: &BeadProbe) -> (r: Vec<String>)
    ensures
        sv(r@) == exclusion_reasons(*b),
{
    let mut reasons: Vec<String> = Vec::new();
    let ghost empty = Seq::<Seq<char>>::empty();
    proof {
        reveal_strlit("");
        assert(sv(reasons@) =~= empty);
    }
    match &b.assignee {
        Some(n) => {
            let t = crate::text::trim(n.as_str());
            assert(t@.len() == 0 ==> t@ =~= ""@);
            if !str_eq(t.as_str(), "") {
                reasons.push(cat("has assignee: ", n.as_str()));
            }
        },
        None => {},
    }
    let manual = match b.manual_blocked {
        Some(true) => true,
        _ => false,
    };
    if manual {
        reasons.push(owned("manually blocked"));
    }
    if b.blocker_count > 0 {
        let n = crate::text::i64_text(b.blocker_count);
        let ids = join(&b.blocker_ids, ", ");
        if (b.blocker_ids.len() as i128) < (b.blocker_count as i128) {
            let a = cat3("blocked by ", n.as_str(), "+ unclosed issues (including: ");
            reasons.push(cat3(a.as_str(), ids.as_str(), ")"));
        } else {
            let a = cat3("blocked by ", n.as_str(), " unclosed issue(s): ");
            reasons.push(cat(a.as_str(), ids.as_str()));
        }
    }
    if b.conflict_count > 0 {
        let n = crate::text::i64_text(b.conflict_count);
        let ids = join(&b.conflict_ids, ", ");
        let a = cat3("resource conflict with ", n.as_str(), " other issue(s): ");
        reasons.push(cat(a.as_str(), ids.as_str()));
    }
    assert(sv(reasons@) =~= exclusion_reasons(*b));
    reasons
}

/// Diagnose open beads (in the store's priority order) that do not reach
/// the ready frontier: a bead with no reason is ready; starvation is open
/// beads with none ready.
pub fn starvation_report(timestamp: String, beads: &Vec<BeadProbe>) -> (r: StarvationCheckReport)
    ensures
        r.timestamp@ == timestamp@,
        r.open_bead_count == beads@.len(),
        r.ready_bead_count == beads@.len() - excluded_probes(beads@).len(),
        r.excluded_beads@.len() == excluded_probes(beads@).len(),
        forall|i: int| 0 <= i < r.excluded_beads@.len() ==> excluded_as(excluded_probes(beads@)[i], #[trigger] r.excluded_beads@[i]),
        r.has_starvation == (beads@.len() > 0 && r.ready_bead_count == 0),
{
    let ghost keep = |b: BeadProbe| exclusion_reasons(b).len() > 0;
    let mut excluded: Vec<ExcludedBead> = Vec::new();
    let mut ready: usize = 0;
    let mut i: usize = 0;
    while i < beads.len()
        invariant
            i <= beads@.len(),
            keep == (|b: BeadProbe| exclusion_reasons(b).len() > 0),
            excluded@.len() == beads@.take(i as int).filter(keep).len(),
            ready == i - excluded@.len(),
            forall|k: int| 0 <= k < excluded@.len() ==> excluded_as(beads@.take(i as int).filter(keep)[k], #[trigger] excluded@[k]),
        decreases beads@.len() - i,
    {
        proof {
            assert(beads@.take(i + 1).drop_last() =~= beads@.take(i as int));
            reveal_with_fuel(Seq::filter, 1);
            beads@.take(i as int).filter_lemma(keep);
        }
        let b = &beads[i];
        let reasons = exclusion_of(b);
        if reasons.len() == 0 {
            ready = ready + 1;
        } else {
            let manual = match b.manual_blocked {
                Some(true) => true,
                _ => false,
            };
            let blocking = if b.blocker_count > 0 { copy_paths_of(&b.blocker_ids) } else { Vec::new() };
            let conflicts = if b.conflict_count > 0 { copy_paths_of(&b.conflict_ids) } else { Vec::new() };
            let assignee = match &b.assignee {
                Some(a) => Some(copy_text(a)),
                None => None,
            };
            let e = ExcludedBead {
                id: copy_text(&b.id),
                title: copy_text(&b.title),
                priority: b.priority,
                reasons,
                assignee,
                manual_blocked: manual,
                blocking_dependencies: blocking,
                resource_conflicts: conflicts,
            };
            assert(b.blocker_count <= 0 ==> sv(e.blocking_dependencies@) =~= Seq::<Seq<char>>::empty());
            assert(b.conflict_count <= 0 ==> sv(e.resource_conflicts@) =~= Seq::<Seq<char>>::empty());
            excluded.push(e);
        }
        proof {
            if exclusion_reasons(beads@[i as int]).len() > 0 {
                assert(beads@.take(i + 1).filter(keep) =~= beads@.take(i as int).filter(keep).push(beads@[i as int]));
            } else {
                assert(beads@.take(i + 1).filter(keep) =~= beads@.take(i as int).filter(keep));
            }
        }
        i = i + 1;
    }
    assert(beads@.take(beads@.len() as int) =~= beads@);
    StarvationCheckReport {
        timestamp,
        open_bead_count: beads.len(),
        ready_bead_count: ready,
        excluded_beads: excluded,
        has_starvation: beads.len() > 0 && ready == 0,
    }
}

fn copy_paths_of(v: &Vec<String>) -> (r: Vec<String>)
    ensures
        sv(r@) == sv(v@),
{
    crate::git::copy_paths(v)
}

/// One repair, performed or recommended.
#[derive(Debug, Clone)]
pub struct RepairRecord {
    pub repair_type: String,
    pub description: String,
    pub affected_beads: Vec<String>,
    pub timestamp: String,
}

/// What a starvation recovery run did.
#[derive(Debug, Clone)]
pub struct StarvationRecoveryResult {
    pub timestamp: String,
    pub repairs_performed: Vec<RepairRecord>,
    pub total_repairs: usize,
    pub integrity_checks_passed: bool,
    pub checkpoint_verified: bool,
}

/// `chrono::DateTime::parse_from_rfc3339`, as whole seconds and the
/// nanoseconds within the second, or the parse error's text.
pub uninterp spec fn chrono_rfc3339(s: Seq<char>) -> Result<(int, int), Seq<char>>;

/// Seconds within the range of chrono's calendar (years within plus or
/// minus 262,143).
pub open spec fn chrono_seconds(secs: int) -> bool {
    -0x100_0000_0000_0000 <= secs <= 0x100_0000_0000_0000
}

/// `DateTime::parse_from_rfc3339(s)`, as `(timestamp(), timestamp_subsec_nanos())`;
/// on failure, the error's display text. The contract adds only chrono's
/// range of seconds and that the nanoseconds stay below two seconds' worth.
#[verifier::external_body]
pub(crate) fn parse_chrono_rfc3339(s: &str) -> (r: Result<(i64, u32), String>)
    ensures
        match r {
            Ok((secs, nanos)) => chrono_rfc3339(s@) == Ok::<(int, int), Seq<char>>((secs as int, nanos as int))
                && chrono_seconds(secs as int) && nanos < 2_000_000_000,
            Err(m) => chrono_rfc3339(s@) == Err::<(int, int), Seq<char>>(m@),
        },
{
    match chrono::DateTime::parse_from_rfc3339(s) {
        Ok(t) => Ok((t.timestamp(), t.timestamp_subsec_nanos())),
        Err(e) => Err(e.to_string()),
    }
}

/// `chrono::Utc::now()`, as `(timestamp(), timestamp_subsec_nanos())`. The
/// contract claims only chrono's ranges.
#[verifier::external_body]
pub(crate) fn chrono_now() -> (r: (i64, u32))
    ensures
        chrono_seconds(r.0 as int),
        r.1 < 2_000_000_000,
{
    let t = chrono::Utc::now();
    (t.timestamp(), t.timestamp_subsec_nanos())
}

/// `TimeDelta::num_seconds` of `now - then`: whole seconds, truncated
/// toward zero.
pub open spec fn whole_seconds_between(now: (int, int), then: (int, int)) -> int {
    let d = (now.0 - then.0) * 1_000_000_000 + (now.1 - then.1);
    if d >= 0 {
        d / 1_000_000_000
    } else {
        -((-d) / 1_000_000_000)
    }
}

/// Whole seconds from `then` to `now`, truncated toward zero.
pub(crate) fn seconds_between(now: (i64, u32), then: (i64, u32)) -> (r: i64)
    requires
        chrono_seconds(now.0 as int),
        now.1 < 2_000_000_000,
        chrono_seconds(then.0 as int),
        then.1 < 2_000_000_000,
    ensures
        r as int == whole_seconds_between((now.0 as int, now.1 as int), (then.0 as int, then.1 as int)),
{
    let d: i128 = (now.0 as i128 - then.0 as i128) * 1_000_000_000 + (now.1 as i128 - then.1 as i128);
    let age128: i128 = if d >= 0 { d / 1_000_000_000 } else { -((-d) / 1_000_000_000) };
    proof {
        assert(-0x300_0000_0000_0000 * 1_000_000_000 <= d <= 0x300_0000_0000_0000 * 1_000_000_000);
        assert(d >= 0 ==> d / 1_000_000_000 <= 0x300_0000_0000_0000) by (nonlinear_arith)
            requires d <= 0x300_0000_0000_0000 * 1_000_000_000;
        assert(d < 0 ==> (-d) / 1_000_000_000 <= 0x300_0000_0000_0000) by (nonlinear_arith)
            requires -d <= 0x300_0000_0000_0000 * 1_000_000_000;
    }
    age128 as i64
}

/// An in-progress bead the recovery considers: when its last event was,
/// whether it was released, closed or reopened since the claim, and
/// whether a lease row exists for it.
#[derive(Debug, Clone)]
pub struct StaleCandidate {
    pub id: String,
    pub title: String,
    pub last_event_at: String,
    pub last_exit_sequence: Option<i64>,
    pub has_lease_row: bool,
}

/// A stale claim: id, title, age in seconds.
pub type StaleClaim = (String, String, i64);

/// The candidates that count: never released since the claim and not
/// leased.
pub open spec fn considered(c: StaleCandidate) -> bool {
    c.last_exit_sequence is None && !c.has_lease_row
}

/// The stale claims among the first `n` candidates at instant `now`, or
/// the first unparsable timestamp among those considered.
pub open spec fn stale_claims_spec(cands: Seq<StaleCandidate>, now: (int, int), max_age: u64, n: nat) -> Result<Seq<(Seq<char>, Seq<char>, int)>, Seq<char>>
    decreases n,
{
    if n == 0 {
        Ok(Seq::empty())
    } else {
        match stale_claims_spec(cands, now, max_age, (n - 1) as nat) {
            Err(m) => Err(m),
            Ok(prev) => {
                let c = cands[n - 1];
                if !considered(c) {
                    Ok(prev)
                } else {
                    match chrono_rfc3339(c.last_event_at@) {
                        Err(m) => Err("Invalid timestamp for bead "@ + c.id@ + ": "@ + m),
                        Ok(then) => {
                            let age = whole_seconds_between(now, then);
                            if age > (max_age as i64) as int {
                                Ok(prev.push((c.id@, c.title@, age)))
                            } else {
                                Ok(prev)
                            }
                        },
                    }
                }
            },
        }
    }
}

pub open spec fn claims_view(v: Seq<StaleClaim>) -> Seq<(Seq<char>, Seq<char>, int)> {
    v.map_values(|c: StaleClaim| (c.0@, c.1@, c.2 as int))
}

/// The stale ordinary claims at instant `now` (whole seconds and
/// nanoseconds): considered candidates older than `max_age_seconds`. An
/// unparsable timestamp is an integrity error.
pub fn stale_claims_at(cands: &Vec<StaleCandidate>, now: (i64, u32), max_age_seconds: u64) -> (r: Result<Vec<StaleClaim>, Error>)
    requires
        chrono_seconds(now.0 as int),
        now.1 < 2_000_000_000,
    ensures
        match stale_claims_spec(cands@, (now.0 as int, now.1 as int), max_age_seconds, cands@.len()) {
            Ok(v) => r matches Ok(w) && claims_view(w@) == v,
            Err(m) => r matches Err(e) && e.is(crate::error::ErrorKind::Integrity, m),
        },
{
    let ghost nw = (now.0 as int, now.1 as int);
    let limit: i64 = max_age_seconds as i64;
    let mut out: Vec<StaleClaim> = Vec::new();
    assert(claims_view(out@) =~= Seq::<(Seq<char>, Seq<char>, int)>::empty());
    let mut i: usize = 0;
    while i < cands.len()
        invariant
            i <= cands@.len(),
            nw == (now.0 as int, now.1 as int),
            chrono_seconds(now.0 as int),
            now.1 < 2_000_000_000,
            limit == max_age_seconds as i64,
            stale_claims_spec(cands@, nw, max_age_seconds, i as nat) == Ok::<Seq<(Seq<char>, Seq<char>, int)>, Seq<char>>(claims_view(out@)),
        decreases cands@.len() - i,
    {
        let c = &cands[i];
        if c.last_exit_sequence.is_none() && !c.has_lease_row {
            match parse_chrono_rfc3339(c.last_event_at.as_str()) {
                Err(m) => {
                    let a = cat3("Invalid timestamp for bead ", c.id.as_str(), ": ");
                    proof {
                        lemma_stale_error_sticks(cands@, nw, max_age_seconds, (i + 1) as nat, cands@.len());
                    }
                    return Err(Error::Integrity(cat(a.as_str(), m.as_str())));
                },
                Ok((secs, nanos)) => {
                    let age = seconds_between(now, (secs, nanos));
                    if age > limit {
                        let ghost before = claims_view(out@);
                        out.push((c.id.clone(), c.title.clone(), age));
                        assert(claims_view(out@) =~= before.push((c.id@, c.title@, age as int)));
                    }
                },
            }
        }
        i = i + 1;
    }
    Ok(out)
}

proof fn lemma_stale_error_sticks(cands: Seq<StaleCandidate>, now: (int, int), max_age: u64, from: nat, to: nat)
    requires
        from <= to <= cands.len(),
        stale_claims_spec(cands, now, max_age, from) is Err,
    ensures
        stale_claims_spec(cands, now, max_age, to) == stale_claims_spec(cands, now, max_age, from),
    decreases to - from,
{
    if from < to {
        lemma_stale_error_sticks(cands, now, max_age, from, (to - 1) as nat);
    }
}

/// The stale ordinary claims now, measured by the clock; the outcome is
/// that of `stale_claims_at` at some instant.
pub fn stale_claims(cands: &Vec<StaleCandidate>, max_age_seconds: u64) -> (r: Result<Vec<StaleClaim>, Error>)
    ensures
        exists|now: (int, int)| chrono_seconds(now.0) && 0 <= now.1 < 2_000_000_000 && match #[trigger] stale_claims_spec(cands@, now, max_age_seconds, cands@.len()) {
            Ok(v) => r matches Ok(w) && claims_view(w@) == v,
            Err(m) => r matches Err(e) && e.is(crate::error::ErrorKind::Integrity, m),
        },
{
    let now = chrono_now();
    stale_claims_at(cands, now, max_age_seconds)
}

/// The repairs of one recovery run: clearing assignees of assigned-but-open
/// beads and releasing stale claims, performed under `force` and otherwise
/// recommended; a kind with nothing affected records nothing.
pub open spec fn repairs_spec(force: bool, assigned: Seq<Seq<char>>, stale: Seq<Seq<char>>, max_age: u64) -> Seq<(Seq<char>, Seq<char>, Seq<Seq<char>>)> {
    let a = if assigned.len() == 0 {
        Seq::empty()
    } else if force {
        seq![("clear_stale_assignees"@, "Cleared stale assignees from "@ + int_text(assigned.len() as int)
            + " assigned-but-open beads using lifecycle service"@, assigned)]
    } else {
        seq![("recommend_clear_stale_assignees"@, "Recommendation: clear stale assignees from "@ + int_text(assigned.len() as int)
            + " assigned-but-open beads"@, assigned)]
    };
    let s = if stale.len() == 0 {
        Seq::empty()
    } else if force {
        seq![("release_stale_claims"@, "Released "@ + int_text(stale.len() as int) + " stale in-progress beads (no activity for >"@
            + int_text(max_age as int) + " seconds) using lifecycle service"@, stale)]
    } else {
        seq![("recommend_release_stale_claims"@, "Recommendation: release "@ + int_text(stale.len() as int)
            + " stale in-progress beads (no activity for >"@ + int_text(max_age as int) + " seconds)"@, stale)]
    };
    a + s
}

pub open spec fn repair_view(r: RepairRecord) -> (Seq<char>, Seq<char>, Seq<Seq<char>>) {
    (r.repair_type@, r.description@, sv(r.affected_beads@))
}

/// The two checks a recovery run makes before any repair: a failed
/// database integrity check (its message given) stops the run, and
/// otherwise the checkpoint counts as verified when the covered sequence
/// reaches the current event sequence.
pub fn recovery_gate(integrity_failure: Option<&str>, covered_sequence: i64, current_sequence: i64) -> (r: Result<bool, Error>)
    ensures
        match integrity_failure {
            Some(m) => r matches Err(e) && e.is(ErrorKind::Integrity,
                "Cannot proceed with recovery: database integrity check failed: "@ + m@),
            None => r == Ok::<bool, Error>(covered_sequence >= current_sequence),
        },
{
    match integrity_failure {
        Some(m) => Err(Error::Integrity(cat("Cannot proceed with recovery: database integrity check failed: ", m))),
        None => Ok(covered_sequence >= current_sequence),
    }
}

/// The result of a recovery run over the assigned-but-open and stale
/// bead ids it found; every repair carries `repair_timestamp`.
pub fn starvation_recovery_result(
    timestamp: String,
    force: bool,
    assigned: &Vec<String>,
    stale: &Vec<String>,
    max_age_seconds: u64,
    repair_timestamp: &String,
    integrity_checks_passed: bool,
    checkpoint_verified: bool,
) -> (r: StarvationRecoveryResult)
    ensures
        r.repairs_performed@.map_values(|x: RepairRecord| repair_view(x)) == repairs_spec(force, sv(assigned@), sv(stale@), max_age_seconds),
        forall|i: int| 0 <= i < r.repairs_performed@.len() ==> (#[trigger] r.repairs_performed@[i]).timestamp@ == repair_timestamp@,
        r.total_repairs == r.repairs_performed@.len(),
        r.timestamp@ == timestamp@,
        r.integrity_checks_passed == integrity_checks_passed,
        r.checkpoint_verified == checkpoint_verified,
{
    let mut repairs: Vec<RepairRecord> = Vec::new();
    if assigned.len() > 0 {
        let n = usize_text(assigned.len());
        let rec = if force {
            RepairRecord {
                repair_type: owned("clear_stale_assignees"),
                description: cat3("Cleared stale assignees from ", n.as_str(), " assigned-but-open beads using lifecycle service"),
                affected_beads: copy_paths_of(assigned),
                timestamp: repair_timestamp.clone(),
            }
        } else {
            RepairRecord {
                repair_type: owned("recommend_clear_stale_assignees"),
                description: cat3("Recommendation: clear stale assignees from ", n.as_str(), " assigned-but-open beads"),
                affected_beads: copy_paths_of(assigned),
                timestamp: repair_timestamp.clone(),
            }
        };
        repairs.push(rec);
    }
    if stale.len() > 0 {
        let n = usize_text(stale.len());
        let m = u64_text(max_age_seconds);
        let rec = if force {
            let a = cat3("Released ", n.as_str(), " stale in-progress beads (no activity for >");
            RepairRecord {
                repair_type: owned("release_stale_claims"),
                description: cat3(a.as_str(), m.as_str(), " seconds) using lifecycle service"),
                affected_beads: copy_paths_of(stale),
                timestamp: repair_timestamp.clone(),
            }
        } else {
            let a = cat3("Recommendation: release ", n.as_str(), " stale in-progress beads (no activity for >");
            RepairRecord {
                repair_type: owned("recommend_release_stale_claims"),
                description: cat3(a.as_str(), m.as_str(), " seconds)"),
                affected_beads: copy_paths_of(stale),
                timestamp: repair_timestamp.clone(),
            }
        };
        repairs.push(rec);
    }
    assert(repairs@.map_values(|x: RepairRecord| repair_view(x)) =~= repairs_spec(force, sv(assigned@), sv(stale@), max_age_seconds));
    let total = repairs.len();
    StarvationRecoveryResult { timestamp, repairs_performed: repairs, total_repairs: total, integrity_checks_passed, checkpoint_verified }
}

/// One bead that is open but not in the ready frontier.
#[derive(Debug, Clone)]
pub struct InvisibleBead {
    pub id: String,
    pub title: String,
    pub priority: i64,
    pub assignee: Option<String>,
    pub manual_blocked: bool,
    pub has_blockers: bool,
    pub has_resource_conflicts: bool,
}

/// The beads behind a visibility discrepancy.
#[derive(Debug, Clone)]
pub struct DiscrepancyDetails {
    pub open_not_ready: Vec<InvisibleBead>,
    pub ready_not_open: Vec<String>,
}

/// Open beads against the ready frontier query.
#[derive(Debug, Clone)]
pub struct VisibilityCheckReport {
    pub timestamp: String,
    pub open_bead_count: usize,
    pub ready_bead_count: usize,
    pub has_discrepancy: bool,
    pub discrepancy_details: Option<DiscrepancyDetails>,
}

/// The visibility answer from the two counts: a discrepancy exactly when
/// they differ, detailed with the open beads that are not ready.
pub fn visibility_report(timestamp: String, open_count: usize, ready_count: usize, open_not_ready: Vec<InvisibleBead>) -> (r: VisibilityCheckReport)
    ensures
        r.timestamp@ == timestamp@,
        r.open_bead_count == open_count,
        r.ready_bead_count == ready_count,
        r.has_discrepancy == (open_count != ready_count),
        r.has_discrepancy ==> (r.discrepancy_details matches Some(d) && d.open_not_ready@ == open_not_ready@ && d.ready_not_open@.len() == 0),
        !r.has_discrepancy ==> r.discrepancy_details is None,
{
    let has = open_count != ready_count;
    let details = if has {
        Some(DiscrepancyDetails { open_not_ready, ready_not_open: Vec::new() })
    } else {
        None
    };
    VisibilityCheckReport { timestamp, open_bead_count: open_count, ready_bead_count: ready_count, has_discrepancy: has, discrepancy_details: details }
}

/// The answer of one repair: the record of a removed temporary file.
pub open spec fn removed_temp_view(path: Seq<char>) -> CheckView {
    ("removed_temp_file"@, DiagnosticStatus::Healthy, "Removed temporary file: "@ + path, Some("store"@), DetailsView::RemovedPath(path))
}

/// The answer of one repair: the record of a recreated receipts directory.
pub open spec fn created_receipts_view(path: Seq<char>) -> CheckView {
    ("created_receipts_dir"@, DiagnosticStatus::Healthy, "Created missing receipts directory: "@ + path, Some("store"@), DetailsView::CreatedPath(path))
}

/// The records of a repair run: one per temporary file it removed, in the
/// order removed, then one for the receipts directory if it had to be
/// recreated.
pub fn repair_checks(removed_paths: &Vec<String>, created_receipts_dir: Option<&str>) -> (r: Vec<DiagnosticCheck>)
    ensures
        checks_view(r@) == sv(removed_paths@).map_values(|p: Seq<char>| removed_temp_view(p)) + match created_receipts_dir {
            Some(d) => seq![created_receipts_view(d@)],
            None => Seq::<CheckView>::empty(),
        },
{
    let mut out: Vec<DiagnosticCheck> = Vec::new();
    let mut i: usize = 0;
    while i < removed_paths.len()
        invariant
            i <= removed_paths@.len(),
            checks_view(out@) == sv(removed_paths@).take(i as int).map_values(|p: Seq<char>| removed_temp_view(p)),
        decreases removed_paths@.len() - i,
    {
        let ghost before = checks_view(out@);
        out.push(DiagnosticCheck {
            name: owned("removed_temp_file"),
            status: DiagnosticStatus::Healthy,
            message: cat("Removed temporary file: ", removed_paths[i].as_str()),
            scope: Some(owned("store")),
            details: CheckDetails::RemovedPath(removed_paths[i].clone()),
        });
        assert(checks_view(out@) =~= before.push(removed_temp_view(removed_paths@[i as int]@)));
        assert(sv(removed_paths@).take(i + 1) =~= sv(removed_paths@).take(i as int).push(removed_paths@[i as int]@));
        i = i + 1;
    }
    assert(sv(removed_paths@).take(removed_paths@.len() as int) =~= sv(removed_paths@));
    let ghost before = checks_view(out@);
    if let Some(d) = created_receipts_dir {
        out.push(DiagnosticCheck {
            name: owned("created_receipts_dir"),
            status: DiagnosticStatus::Healthy,
            message: cat("Created missing receipts directory: ", d),
            scope: Some(owned("store")),
            details: CheckDetails::CreatedPath(owned(d)),
        });
        assert(checks_view(out@) =~= before + seq![created_receipts_view(d@)]);
    } else {
        assert(checks_view(out@) =~= before + Seq::<CheckView>::empty());
    }
    out
}

/// A starvation probe finds a bead ready exactly when it has no assignee
/// (other than a blank one), no manual block, no unclosed blocker and no
/// resource conflict; starvation is open beads of which none is ready.
pub proof fn law_probe_ready_iff_unheld(b: BeadProbe)
    ensures
        exclusion_reasons(b).len() == 0 <==> (
            (b.assignee matches Some(n) ==> trim_seq(n@).len() == 0)
            && b.manual_blocked != Some(true)
            && b.blocker_count <= 0
            && b.conflict_count <= 0
        ),
{
}

} // verus!

//! Workspace policy lint: advisory findings about scheduling configuration,
//! bound to exact schema and policy versions (an unknown version fails
//! closed), and the overall status they add up to.
use vstd::prelude::*;
use crate::text::{cat3, i64_text, int_text, owned, str_eq};

verus! {

broadcast use vstd::string::group_string_axioms;

/// Overall status of a policy lint.
#[derive(Debug, Clone, Copy, PartialEq, Eq, Structural)]
pub enum PolicyDiagnosticStatus {
    Healthy,
    Warning,
    Error,
    UnknownVersion,
}

/// How serious a finding is.
#[derive(Debug, Clone, Copy, PartialEq, Eq, Structural)]
pub enum FindingSeverity {
    Info,
    Warning,
    Error,
    Critical,
}

/// What kind of problem a finding names.
#[derive(Debug, Clone, Copy, PartialEq, Eq, Structural)]
pub enum FindingCategory {
    Contradictory,
    Unreachable,
    Redundant,
    InvalidValue,
    MissingRequired,
    Deprecated,
    VersionCompatibility,
    Ineffective,
    Info,
}

/// One finding.
#[derive(Debug, Clone)]
pub struct PolicyFinding {
    pub severity: FindingSeverity,
    pub category: FindingCategory,
    pub message: String,
    pub location: Option<String>,
    pub config_key: Option<String>,
    pub recommendation: Option<String>,
}

/// Counts of findings by severity.
#[derive(Debug, Clone)]
pub struct DiagnosticSummary {
    pub total_findings: i64,
    pub critical_count: i64,
    pub error_count: i64,
    pub warning_count: i64,
    pub info_count: i64,
}

/// A policy lint's result.
#[derive(Debug, Clone)]
pub struct PolicyDiagnostics {
    pub config_schema_version: String,
    pub policy_version: String,
    pub status: PolicyDiagnosticStatus,
    pub findings: Vec<PolicyFinding>,
    pub summary: DiagnosticSummary,
    pub validation_success: bool,
}

/// Where a ratio parameter's value falls: outside [0, 1], above 0.5, or
/// neither.
#[derive(Debug, Clone, Copy, PartialEq, Eq, Structural)]
pub enum RatioBand {
    Outside,
    High,
    Within,
}

/// A scheduling parameter as the lint reads it: its value as an `i64`
/// when it is one, the band of its value as a number when it is one, and
/// the text of that number.
#[derive(Debug, Clone)]
pub struct ParamValue {
    pub integer: Option<i64>,
    pub ratio: Option<RatioBand>,
    pub number_text: String,
}

/// The configuration a lint examines.
#[derive(Debug, Clone)]
pub struct WorkspaceConfig {
    pub scheduling_policy: String,
    pub scheduling_policy_version: String,
    pub config_schema_version: String,
    /// Named scheduling parameters; names are distinct (see `wf`).
    pub scheduling_params: Vec<(String, ParamValue)>,
}

impl WorkspaceConfig {
    /// No scheduling parameter is named twice: the parameters form a map
    /// from name to value.
    pub open spec fn wf(&self) -> bool {
        forall|i: int, j: int| 0 <= i < j < self.scheduling_params@.len()
            ==> #[trigger] self.scheduling_params@[i].0@ != #[trigger] self.scheduling_params@[j].0@
    }
}

/// A finding as plain values.
pub type FindingView = (FindingSeverity, FindingCategory, Seq<char>, Option<Seq<char>>, Option<Seq<char>>, Option<Seq<char>>);

pub open spec fn opt_text(o: Option<String>) -> Option<Seq<char>> {
    match o {
        Some(s) => Some(s@),
        None => None,
    }
}

pub open spec fn finding_view(f: PolicyFinding) -> FindingView {
    (f.severity, f.category, f.message@, opt_text(f.location), opt_text(f.config_key), opt_text(f.recommendation))
}

pub open spec fn findings_view(v: Seq<PolicyFinding>) -> Seq<FindingView> {
    v.map_values(|f: PolicyFinding| finding_view(f))
}

/// The first parameter with this name.
pub open spec fn param(params: Seq<(String, ParamValue)>, name: Seq<char>) -> Option<ParamValue>
    decreases params.len(),
{
    if params.len() == 0 {
        None
    } else if params[0].0@ == name {
        Some(params[0].1)
    } else {
        param(params.drop_first(), name)
    }
}

fn find_param<'a>(params: &'a Vec<(String, ParamValue)>, name: &str) -> (r: Option<&'a ParamValue>)
    ensures
        match param(params@, name@) {
            Some(v) => r matches Some(w) && *w == v,
            None => r is None,
        },
{
    let mut i: usize = 0;
    assert(params@.skip(0) =~= params@);
    while i < params.len()
        invariant
            i <= params@.len(),
            param(params@, name@) == param(params@.skip(i as int), name@),
        decreases params@.len() - i,
    {
        assert(params@.skip(i as int).drop_first() =~= params@.skip(i + 1));
        if str_eq(params[i].0.as_str(), name) {
            return Some(&params[i].1);
        }
        i = i + 1;
    }
    None
}

/// Only schema and policy version `v1` are known.
pub open spec fn versions_known(c: WorkspaceConfig) -> bool {
    c.config_schema_version@ == "v1"@ && c.scheduling_policy_version@ == "v1"@
}

/// Whether the configuration's versions are supported.
pub fn check_version_compatibility(config: &WorkspaceConfig) -> (r: bool)
    ensures
        r == versions_known(*config),
{
    str_eq(config.config_schema_version.as_str(), "v1") && str_eq(config.scheduling_policy_version.as_str(), "v1")
}

pub open spec fn fv(s: FindingSeverity, c: FindingCategory, m: Seq<char>, loc: Option<Seq<char>>, key: Option<Seq<char>>, rec: Option<Seq<char>>) -> FindingView {
    (s, c, m, loc, key, rec)
}

/// The balanced policy's findings: a retry lane ratio outside [0, 1] is an
/// error, one above 0.5 a warning.
pub open spec fn balanced_findings(params: Seq<(String, ParamValue)>) -> Seq<FindingView> {
    match param(params, "retry_lane_ratio"@) {
        Some(v) => match v.ratio {
            Some(RatioBand::Outside) => seq![fv(FindingSeverity::Error, FindingCategory::InvalidValue,
                "retry_lane_ratio "@ + v.number_text@ + " is outside valid range [0.0, 1.0]"@,
                Some("scheduling_params.retry_lane_ratio"@), Some("retry_lane_ratio"@), Some("Set retry_lane_ratio between 0.0 and 1.0"@))],
            Some(RatioBand::High) => seq![fv(FindingSeverity::Warning, FindingCategory::Ineffective,
                "retry_lane_ratio "@ + v.number_text@ + " is very high, may cause excessive retry traffic"@,
                Some("scheduling_params.retry_lane_ratio"@), Some("retry_lane_ratio"@), Some("Consider reducing retry_lane_ratio to 0.1 or lower"@))],
            _ => Seq::empty(),
        },
        None => Seq::empty(),
    }
}

/// The aging policy's findings: max promotions outside [0, 10] is an
/// error, above 4 a warning; an aging interval outside [1, 168] hours is a
/// warning.
pub open spec fn aging_findings(params: Seq<(String, ParamValue)>) -> Seq<FindingView> {
    let a = match param(params, "max_promotions"@) {
        Some(v) => match v.integer {
            Some(max) => if max < 0 || max > 10 {
                seq![fv(FindingSeverity::Error, FindingCategory::InvalidValue,
                    "max_promotions "@ + int_text(max as int) + " is outside valid range [0, 10]"@,
                    Some("scheduling_params.max_promotions"@), Some("max_promotions"@), Some("Set max_promotions between 0 and 10"@))]
            } else if max > 4 {
                seq![fv(FindingSeverity::Warning, FindingCategory::Ineffective,
                    "max_promotions "@ + int_text(max as int) + " is very high, may cause excessive priority elevation"@,
                    Some("scheduling_params.max_promotions"@), Some("max_promotions"@), Some("Consider reducing max_promotions to 2 or fewer"@))]
            } else {
                Seq::empty()
            },
            None => Seq::empty(),
        },
        None => Seq::empty(),
    };
    let b = match param(params, "aging_interval_hours"@) {
        Some(v) => match v.integer {
            Some(h) => if h < 1 || h > 168 {
                seq![fv(FindingSeverity::Warning, FindingCategory::InvalidValue,
                    "aging_interval_hours "@ + int_text(h as int) + " is outside recommended range [1, 168] hours"@,
                    Some("scheduling_params.aging_interval_hours"@), Some("aging_interval_hours"@),
                    Some("Set aging_interval_hours between 1 and 168 hours"@))]
            } else {
                Seq::empty()
            },
            None => Seq::empty(),
        },
        None => Seq::empty(),
    };
    a + b
}

pub open spec fn info(m: Seq<char>) -> FindingView {
    fv(FindingSeverity::Info, FindingCategory::Info, m, None, None, None)
}

/// The findings of the named policy's checks.
pub open spec fn policy_findings(policy: Seq<char>, params: Seq<(String, ParamValue)>) -> Seq<FindingView> {
    if policy == "fifo-v1"@ {
        seq![info("fifo-v1 policy is the simplest scheduling policy with no additional parameters"@)]
    } else if policy == "balanced-v1"@ {
        balanced_findings(params)
    } else if policy == "aging-v1"@ {
        aging_findings(params)
    } else if policy == "impact-v1"@ {
        seq![info("impact-v1 policy uses graph metrics for completion-unlock analysis"@)]
    } else if policy == "rotation-v1"@ {
        seq![info("rotation-v1 policy uses least-recently-served (LRS) tracking for fairness"@)]
    } else {
        seq![fv(FindingSeverity::Warning, FindingCategory::VersionCompatibility,
            "Unknown scheduling policy '"@ + policy + "', using default validation"@,
            Some("scheduling_policy"@), Some("scheduling_policy"@),
            Some("Use a known policy (fifo-v1, balanced-v1, aging-v1, impact-v1, rotation-v1)"@))]
    }
}

fn finding(s: FindingSeverity, c: FindingCategory, m: String, loc: &str, key: &str, rec: &str) -> (r: PolicyFinding)
    ensures
        finding_view(r) == fv(s, c, m@, Some(loc@), Some(key@), Some(rec@)),
{
    PolicyFinding { severity: s, category: c, message: m, location: Some(owned(loc)), config_key: Some(owned(key)), recommendation: Some(owned(rec)) }
}

fn info_finding(m: &str) -> (r: PolicyFinding)
    ensures
        finding_view(r) == info(m@),
{
    PolicyFinding { severity: FindingSeverity::Info, category: FindingCategory::Info, message: owned(m), location: None, config_key: None, recommendation: None }
}

fn balanced_of(params: &Vec<(String, ParamValue)>) -> (r: Vec<PolicyFinding>)
    ensures
        findings_view(r@) == balanced_findings(params@),
{
    let mut out: Vec<PolicyFinding> = Vec::new();
    if let Some(v) = find_param(params, "retry_lane_ratio") {
        match v.ratio {
            Some(RatioBand::Outside) => out.push(finding(FindingSeverity::Error, FindingCategory::InvalidValue,
                cat3("retry_lane_ratio ", v.number_text.as_str(), " is outside valid range [0.0, 1.0]"),
                "scheduling_params.retry_lane_ratio", "retry_lane_ratio", "Set retry_lane_ratio between 0.0 and 1.0")),
            Some(RatioBand::High) => out.push(finding(FindingSeverity::Warning, FindingCategory::Ineffective,
                cat3("retry_lane_ratio ", v.number_text.as_str(), " is very high, may cause excessive retry traffic"),
                "scheduling_params.retry_lane_ratio", "retry_lane_ratio", "Consider reducing retry_lane_ratio to 0.1 or lower")),
            _ => {},
        }
    }
    assert(findings_view(out@) =~= balanced_findings(params@));
    out
}

fn aging_of(params: &Vec<(String, ParamValue)>) -> (r: Vec<PolicyFinding>)
    ensures
        findings_view(r@) == aging_findings(params@),
{
    let mut out: Vec<PolicyFinding> = Vec::new();
    if let Some(v) = find_param(params, "max_promotions") {
        if let Some(max) = v.integer {
            let t = i64_text(max);
            if max < 0 || max > 10 {
                out.push(finding(FindingSeverity::Error, FindingCategory::InvalidValue,
                    cat3("max_promotions ", t.as_str(), " is outside valid range [0, 10]"),
                    "scheduling_params.max_promotions", "max_promotions", "Set max_promotions between 0 and 10"));
            } else if max > 4 {
                out.push(finding(FindingSeverity::Warning, FindingCategory::Ineffective,
                    cat3("max_promotions ", t.as_str(), " is very high, may cause excessive priority elevation"),
                    "scheduling_params.max_promotions", "max_promotions", "Consider reducing max_promotions to 2 or fewer"));
            }
        }
    }
    let ghost first = findings_view(out@);
    if let Some(v) = find_param(params, "aging_interval_hours") {
        if let Some(h) = v.integer {
            if h < 1 || h > 168 {
                let t = i64_text(h);
                out.push(finding(FindingSeverity::Warning, FindingCategory::InvalidValue,
                    cat3("aging_interval_hours ", t.as_str(), " is outside recommended range [1, 168] hours"),
                    "scheduling_params.aging_interval_hours", "aging_interval_hours", "Set aging_interval_hours between 1 and 168 hours"));
            }
        }
    }
    assert(findings_view(out@) =~= aging_findings(params@));
    out
}

/// The status the findings add up to: any critical or error finding is an
/// error, otherwise any warning a warning, otherwise healthy.
pub open spec fn count_of(v: Seq<FindingView>, s: FindingSeverity) -> int
    decreases v.len(),
{
    if v.len() == 0 {
        0
    } else {
        count_of(v.drop_last(), s) + if v.last().0 == s { 1int } else { 0int }
    }
}

pub open spec fn status_of(v: Seq<FindingView>) -> PolicyDiagnosticStatus {
    if count_of(v, FindingSeverity::Critical) > 0 || count_of(v, FindingSeverity::Error) > 0 {
        PolicyDiagnosticStatus::Error
    } else if count_of(v, FindingSeverity::Warning) > 0 {
        PolicyDiagnosticStatus::Warning
    } else {
        PolicyDiagnosticStatus::Healthy
    }
}

proof fn lemma_count_bounds(v: Seq<FindingView>, s: FindingSeverity)
    ensures
        0 <= count_of(v, s) <= v.len(),
    decreases v.len(),
{
    if v.len() > 0 {
        lemma_count_bounds(v.drop_last(), s);
    }
}

/// The overall status and the counts by severity.
pub fn calculate_diagnostics_status(findings: &Vec<PolicyFinding>) -> (r: (PolicyDiagnosticStatus, DiagnosticSummary))
    requires
        findings@.len() <= i64::MAX,
    ensures
        r.0 == status_of(findings_view(findings@)),
        r.1.total_findings == findings@.len(),
        r.1.critical_count == count_of(findings_view(findings@), FindingSeverity::Critical),
        r.1.error_count == count_of(findings_view(findings@), FindingSeverity::Error),
        r.1.warning_count == count_of(findings_view(findings@), FindingSeverity::Warning),
        r.1.info_count == count_of(findings_view(findings@), FindingSeverity::Info),
{
    let ghost fvs = findings_view(findings@);
    let mut critical: i64 = 0;
    let mut error: i64 = 0;
    let mut warning: i64 = 0;
    let mut infos: i64 = 0;
    let mut i: usize = 0;
    while i < findings.len()
        invariant
            i <= findings@.len(),
            findings@.len() <= i64::MAX,
            fvs == findings_view(findings@),
            critical == count_of(fvs.take(i as int), FindingSeverity::Critical),
            error == count_of(fvs.take(i as int), FindingSeverity::Error),
            warning == count_of(fvs.take(i as int), FindingSeverity::Warning),
            infos == count_of(fvs.take(i as int), FindingSeverity::Info),
        decreases findings@.len() - i,
    {
        proof {
            assert(fvs.take(i + 1).drop_last() =~= fvs.take(i as int));
            lemma_count_bounds(fvs.take(i as int), FindingSeverity::Critical);
            lemma_count_bounds(fvs.take(i as int), FindingSeverity::Error);
            lemma_count_bounds(fvs.take(i as int), FindingSeverity::Warning);
            lemma_count_bounds(fvs.take(i as int), FindingSeverity::Info);
        }
        match findings[i].severity {
            FindingSeverity::Critical => critical = critical + 1,
            FindingSeverity::Error => error = error + 1,
            FindingSeverity::Warning => warning = warning + 1,
            FindingSeverity::Info => infos = infos + 1,
        }
        i = i + 1;
    }
    assert(fvs.take(findings@.len() as int) =~= fvs);
    let status = if critical > 0 || error > 0 {
        PolicyDiagnosticStatus::Error
    } else if warning > 0 {
        PolicyDiagnosticStatus::Warning
    } else {
        PolicyDiagnosticStatus::Healthy
    };
    (status, DiagnosticSummary { total_findings: findings.len() as i64, critical_count: critical, error_count: error, warning_count: warning, info_count: infos })
}

/// The findings a lint reports: the one critical version finding when a
/// version is unknown, otherwise the named policy's findings.
pub open spec fn lint_findings(c: WorkspaceConfig) -> Seq<FindingView> {
    if !versions_known(c) {
        seq![fv(FindingSeverity::Critical, FindingCategory::VersionCompatibility,
            "Unknown policy version '"@ + c.scheduling_policy_version@ + "' or schema version '"@ + c.config_schema_version@ + "'"@,
            None, None, Some("Update to a supported version or review version compatibility requirements"@))]
    } else {
        policy_findings(c.scheduling_policy@, c.scheduling_params@)
    }
}

/// Lint the workspace's scheduling configuration without changing
/// anything. An unknown schema or policy version fails closed.
pub fn validate_workspace_policy(config: &WorkspaceConfig) -> (r: PolicyDiagnostics)
    requires
        config.wf(),
    ensures
        r.validation_success == versions_known(*config),
        findings_view(r.findings@) == lint_findings(*config),
        r.status == (if versions_known(*config) { status_of(lint_findings(*config)) } else { PolicyDiagnosticStatus::UnknownVersion }),
        r.summary.total_findings == r.findings@.len(),
        r.summary.critical_count == count_of(lint_findings(*config), FindingSeverity::Critical),
        r.summary.error_count == count_of(lint_findings(*config), FindingSeverity::Error),
        r.summary.warning_count == count_of(lint_findings(*config), FindingSeverity::Warning),
        r.summary.info_count == count_of(lint_findings(*config), FindingSeverity::Info),
        r.config_schema_version@ == config.config_schema_version@,
        r.policy_version@ == config.scheduling_policy_version@,
{
    if !check_version_compatibility(config) {
        let a = cat3("Unknown policy version '", config.scheduling_policy_version.as_str(), "' or schema version '");
        let m = cat3(a.as_str(), config.config_schema_version.as_str(), "'");
        let f = PolicyFinding {
            severity: FindingSeverity::Critical,
            category: FindingCategory::VersionCompatibility,
            message: m,
            location: None,
            config_key: None,
            recommendation: Some(owned("Update to a supported version or review version compatibility requirements")),
        };
        let mut findings: Vec<PolicyFinding> = Vec::new();
        findings.push(f);
        proof {
            assert(findings_view(findings@) =~= lint_findings(*config));
            reveal_with_fuel(count_of, 2);
        }
        return PolicyDiagnostics {
            config_schema_version: config.config_schema_version.clone(),
            policy_version: config.scheduling_policy_version.clone(),
            status: PolicyDiagnosticStatus::UnknownVersion,
            findings,
            summary: DiagnosticSummary { total_findings: 1, critical_count: 1, error_count: 0, warning_count: 0, info_count: 0 },
            validation_success: false,
        };
    }
    let p = config.scheduling_policy.as_str();
    let findings = if str_eq(p, "fifo-v1") {
        vec![info_finding("fifo-v1 policy is the simplest scheduling policy with no additional parameters")]
    } else if str_eq(p, "balanced-v1") {
        balanced_of(&config.scheduling_params)
    } else if str_eq(p, "aging-v1") {
        aging_of(&config.scheduling_params)
    } else if str_eq(p, "impact-v1") {
        vec![info_finding("impact-v1 policy uses graph metrics for completion-unlock analysis")]
    } else if str_eq(p, "rotation-v1") {
        vec![info_finding("rotation-v1 policy uses least-recently-served (LRS) tracking for fairness")]
    } else {
        vec![finding(FindingSeverity::Warning, FindingCategory::VersionCompatibility,
            cat3("Unknown scheduling policy '", p, "', using default validation"),
            "scheduling_policy", "scheduling_policy", "Use a known policy (fifo-v1, balanced-v1, aging-v1, impact-v1, rotation-v1)")]
    };
    assert(findings_view(findings@) =~= lint_findings(*config));
    assert(findings@.len() <= 2);
    let (status, summary) = calculate_diagnostics_status(&findings);
    PolicyDiagnostics {
        config_schema_version: config.config_schema_version.clone(),
        policy_version: config.scheduling_policy_version.clone(),
        status,
        findings,
        summary,
        validation_success: true,
    }
}

} // verus!

//! Claim scheduling: attempt tiers, age promotion of effective priority,
//! and the ranking orders of the aging and rotation policies. Reading
//! candidate rows happens outside this crate.
use vstd::prelude::*;
use crate::error::Error;
use crate::text::{cat, i64_text, seq_lt, str_eq, str_lt, lemma_seq_lt_irreflexive, lemma_seq_lt_total, lemma_seq_lt_transitive};

verus! {

broadcast use vstd::string::group_string_axioms;

/// Attempt tier for failure-aware scheduling.
#[derive(Debug, Clone, Copy, PartialEq, Eq, Structural)]
pub enum AttemptTier {
    /// No bead-scoped failures.
    Unproven,
    /// One failure.
    Retryable,
    /// Several failures below quarantine.
    Struggling,
    /// Ineligible for automatic claim.
    Quarantined,
}

/// The stored integer of a tier.
pub open spec fn tier_number(t: AttemptTier) -> i64 {
    match t {
        AttemptTier::Unproven => 0,
        AttemptTier::Retryable => 1,
        AttemptTier::Struggling => 2,
        AttemptTier::Quarantined => 3,
    }
}

impl AttemptTier {
    /// The tier a stored integer names; anything outside 0..=3 is refused.
    pub fn from_i64(value: i64) -> (r: Result<AttemptTier, Error>)
        ensures
            0 <= value <= 3 ==> (r matches Ok(t) && tier_number(t) == value),
            !(0 <= value <= 3) ==> (r matches Err(e) && e is Validation
                && e.text() == "Invalid attempt tier: "@ + crate::text::int_text(value as int)),
    {
        match value {
            0 => Ok(AttemptTier::Unproven),
            1 => Ok(AttemptTier::Retryable),
            2 => Ok(AttemptTier::Struggling),
            3 => Ok(AttemptTier::Quarantined),
            _ => {
                let t = i64_text(value);
                Err(Error::Validation(cat("Invalid attempt tier: ", t.as_str())))
            },
        }
    }

    /// The stored integer of the tier.
    pub fn to_i64(self) -> (r: i64)
        ensures
            r == tier_number(self),
    {
        match self {
            AttemptTier::Unproven => 0,
            AttemptTier::Retryable => 1,
            AttemptTier::Struggling => 2,
            AttemptTier::Quarantined => 3,
        }
    }
}

/// The tier after recording failures: 0 unproven, 1 retryable, 2
/// struggling, anything else quarantined.
pub open spec fn tier_for(failures: i64) -> AttemptTier {
    if failures == 0 {
        AttemptTier::Unproven
    } else if failures == 1 {
        AttemptTier::Retryable
    } else if failures == 2 {
        AttemptTier::Struggling
    } else {
        AttemptTier::Quarantined
    }
}

/// The tier a consecutive-failure count maps to.
pub fn tier_for_failures(failures: i64) -> (r: AttemptTier)
    ensures
        r == tier_for(failures),
{
    match failures {
        0 => AttemptTier::Unproven,
        1 => AttemptTier::Retryable,
        2 => AttemptTier::Struggling,
        _ => AttemptTier::Quarantined,
    }
}

/// The versioned scheduling policies and the parameters their ranking uses.
#[derive(Debug, Clone, Copy, PartialEq, Eq, Structural)]
pub enum SchedulingPolicy {
    /// Priority, creation time, id.
    FifoV1,
    /// Bounded ready-age promotion, then FIFO tie-breakers.
    AgingV1 { aging_interval_seconds: u64, max_promotions: u64 },
    /// Priority, completion-unlock impact, creation time.
    ImpactV1,
    /// Priority, least-recently-served rotation, creation time.
    RotationV1 { enable_rotation: bool },
    /// Aging with rotation and a retry lane.
    BalancedV1 {
        aging_interval_seconds: u64,
        max_promotions: u64,
        enable_rotation: bool,
        retry_lane_ratio: u64,
    },
}

/// The stable name of a policy.
pub open spec fn policy_name(p: SchedulingPolicy) -> Seq<char> {
    match p {
        SchedulingPolicy::FifoV1 => "fifo-v1"@,
        SchedulingPolicy::AgingV1 { .. } => "aging-v1"@,
        SchedulingPolicy::ImpactV1 => "impact-v1"@,
        SchedulingPolicy::RotationV1 { .. } => "rotation-v1"@,
        SchedulingPolicy::BalancedV1 { .. } => "balanced-v1"@,
    }
}

impl SchedulingPolicy {
    /// The policy a name selects, with its default parameters: a 24-hour
    /// aging interval, 2 promotions, rotation on, a retry lane of 10.
    pub fn from_string(s: &str) -> (r: Result<SchedulingPolicy, Error>)
        ensures
            r matches Ok(p) ==> policy_name(p) == s@,
            s@ == "fifo-v1"@ ==> r == Ok::<SchedulingPolicy, Error>(SchedulingPolicy::FifoV1),
            s@ == "aging-v1"@ ==> r == Ok::<SchedulingPolicy, Error>(SchedulingPolicy::AgingV1 { aging_interval_seconds: 86400, max_promotions: 2 }),
            s@ == "impact-v1"@ ==> r == Ok::<SchedulingPolicy, Error>(SchedulingPolicy::ImpactV1),
            s@ == "rotation-v1"@ ==> r == Ok::<SchedulingPolicy, Error>(SchedulingPolicy::RotationV1 { enable_rotation: true }),
            s@ == "balanced-v1"@ ==> r == Ok::<SchedulingPolicy, Error>(SchedulingPolicy::BalancedV1 {
                aging_interval_seconds: 86400,
                max_promotions: 2,
                enable_rotation: true,
                retry_lane_ratio: 10,
            }),
            r matches Err(e) ==> e is Validation && e.text() == "Unknown scheduling policy: "@ + s@,
            r is Err <==> !(s@ == "fifo-v1"@ || s@ == "aging-v1"@ || s@ == "impact-v1"@ || s@ == "rotation-v1"@ || s@ == "balanced-v1"@),
    {
        proof {
            reveal_strlit("fifo-v1");
            reveal_strlit("aging-v1");
            reveal_strlit("impact-v1");
            reveal_strlit("rotation-v1");
            reveal_strlit("balanced-v1");
            assert("fifo-v1"@[0] == 'f' && "aging-v1"@[0] == 'a' && "impact-v1"@[0] == 'i'
                && "rotation-v1"@[0] == 'r' && "balanced-v1"@[0] == 'b');
        }
        if str_eq(s, "fifo-v1") {
            Ok(SchedulingPolicy::FifoV1)
        } else if str_eq(s, "aging-v1") {
            Ok(SchedulingPolicy::AgingV1 { aging_interval_seconds: 86400, max_promotions: 2 })
        } else if str_eq(s, "impact-v1") {
            Ok(SchedulingPolicy::ImpactV1)
        } else if str_eq(s, "rotation-v1") {
            Ok(SchedulingPolicy::RotationV1 { enable_rotation: true })
        } else if str_eq(s, "balanced-v1") {
            Ok(SchedulingPolicy::BalancedV1 {
                aging_interval_seconds: 86400,
                max_promotions: 2,
                enable_rotation: true,
                retry_lane_ratio: 10,
            })
        } else {
            Err(Error::Validation(cat("Unknown scheduling policy: ", s)))
        }
    }

    /// The policy's stable name.
    pub fn as_str(&self) -> (r: &'static str)
        ensures
            r@ == policy_name(*self),
    {
        match self {
            SchedulingPolicy::FifoV1 => "fifo-v1",
            SchedulingPolicy::AgingV1 { .. } => "aging-v1",
            SchedulingPolicy::ImpactV1 => "impact-v1",
            SchedulingPolicy::RotationV1 { .. } => "rotation-v1",
            SchedulingPolicy::BalancedV1 { .. } => "balanced-v1",
        }
    }
}

/// The aging parameters of a policy that promotes by ready age.
pub open spec fn aging_of(p: SchedulingPolicy) -> Option<(u64, u64)> {
    match p {
        SchedulingPolicy::AgingV1 { aging_interval_seconds, max_promotions } => Some((aging_interval_seconds, max_promotions)),
        SchedulingPolicy::BalancedV1 { aging_interval_seconds, max_promotions, .. } => Some((aging_interval_seconds, max_promotions)),
        _ => None,
    }
}

/// Whole seconds between two instants given in nanoseconds, never negative.
pub open spec fn age_seconds(ready_nanos: int, now_nanos: int) -> int {
    if now_nanos - ready_nanos <= 0 {
        0
    } else {
        (now_nanos - ready_nanos) / 1_000_000_000
    }
}

pub open spec fn clamp_priority(p: int) -> int {
    if p < 0 {
        0
    } else if p > 4 {
        4
    } else {
        p
    }
}

/// Effective priority: the base priority lowered by one per full aging
/// interval of ready age, at most `max_promotions` times, never below 0,
/// then clamped to P0..P4.
pub open spec fn promoted(base: int, age: int, interval: int, max_promotions: int) -> int {
    let steps = if age / interval < max_promotions { age / interval } else { max_promotions };
    clamp_priority(if base - steps < 0 { 0 } else { base - steps })
}

/// `OffsetDateTime::parse` with the RFC 3339 format, as Unix nanoseconds,
/// or the parse error's text.
pub uninterp spec fn rfc3339_parse(s: Seq<char>) -> Result<int, Seq<char>>;

/// Nanoseconds of any instant the calendar of the time crate holds: its
/// years stay within plus or minus 999,999.
pub open spec fn in_calendar(n: int) -> bool {
    -0x1_0000_0000_0000_0000_0000 <= n <= 0x1_0000_0000_0000_0000_0000
}

/// `time::OffsetDateTime::parse(s, &Rfc3339)`, as nanoseconds since the
/// Unix epoch; on failure, the error's display text. The calendar
/// arithmetic is named, not spelled out; the contract adds only that a
/// parsed instant lies in the crate's calendar.
#[verifier::external_body]
fn parse_rfc3339_nanos(s: &str) -> (r: Result<i128, String>)
    ensures
        match r {
            Ok(n) => rfc3339_parse(s@) == Ok::<int, Seq<char>>(n as int) && in_calendar(n as int),
            Err(m) => rfc3339_parse(s@) == Err::<int, Seq<char>>(m@),
        },
{
    match time::OffsetDateTime::parse(s, &time::format_description::well_known::Rfc3339) {
        Ok(t) => Ok(t.unix_timestamp_nanos()),
        Err(e) => Err(e.to_string()),
    }
}

/// `OffsetDateTime::now_utc()` as nanoseconds since the Unix epoch. The
/// contract claims only that the instant lies in the crate's calendar.
#[verifier::external_body]
pub(crate) fn now_unix_nanos() -> (r: i128)
    ensures
        in_calendar(r as int),
{
    time::OffsetDateTime::now_utc().unix_timestamp_nanos()
}

/// The effective priority at instant `now_nanos`, or the text of the parse
/// error of the ready time. Without aging parameters or a ready time the
/// base priority is only clamped.
pub open spec fn effective_for(base: int, ready_since: Option<Seq<char>>, policy: SchedulingPolicy, now: int) -> Result<int, Seq<char>> {
    match (aging_of(policy), ready_since) {
        (Some((interval, maxp)), Some(t)) => match rfc3339_parse(t) {
            Ok(ready) => Ok(promoted(base, age_seconds(ready, now), interval as int, maxp as int)),
            Err(m) => Err(m),
        },
        _ => Ok(clamp_priority(base)),
    }
}

pub open spec fn opt_view(o: Option<&str>) -> Option<Seq<char>> {
    match o {
        Some(s) => Some(s@),
        None => None,
    }
}

/// The effective priority at instant `now_nanos` (see `promoted`). A
/// `ready_since` that does not parse is an internal error.
pub fn effective_priority_at(
    base_priority: i64,
    ready_since: Option<&str>,
    policy: &SchedulingPolicy,
    now_nanos: i128,
) -> (r: Result<i64, Error>)
    requires
        ready_since is Some ==> (aging_of(*policy) matches Some((interval, _)) ==> interval > 0),
        in_calendar(now_nanos as int),
    ensures
        match effective_for(base_priority as int, opt_view(ready_since), *policy, now_nanos as int) {
            Ok(p) => r matches Ok(q) && q == p,
            Err(m) => r matches Err(e) && e is Internal && e.text() == "Failed to parse ready_since: "@ + m,
        },
        r matches Ok(p) ==> 0 <= p <= 4,
{
    let (interval, max_promotions) = match policy {
        SchedulingPolicy::AgingV1 { aging_interval_seconds, max_promotions } => (*aging_interval_seconds, *max_promotions),
        SchedulingPolicy::BalancedV1 { aging_interval_seconds, max_promotions, .. } => (*aging_interval_seconds, *max_promotions),
        _ => {
            return Ok(clamp(base_priority));
        },
    };
    let ready_time = match ready_since {
        Some(t) => t,
        None => {
            return Ok(clamp(base_priority));
        },
    };
    let ready = match parse_rfc3339_nanos(ready_time) {
        Ok(n) => n,
        Err(m) => {
            return Err(Error::Internal(cat("Failed to parse ready_since: ", m.as_str())));
        },
    };
    let diff: i128 = now_nanos - ready;
    let age: u64 = if diff <= 0 {
        0
    } else {
        assert(diff as int / 1_000_000_000 <= 0x2_0000_0000_0000_0000_0000int / 1_000_000_000) by (nonlinear_arith)
            requires 0 < diff as int <= 0x2_0000_0000_0000_0000_0000int;
        (diff / 1_000_000_000) as u64
    };
    assert(age as int == age_seconds(ready as int, now_nanos as int));
    let steps_all: u64 = age / interval;
    let steps: u64 = if steps_all < max_promotions { steps_all } else { max_promotions };
    let lowered: i128 = base_priority as i128 - steps as i128;
    let floored: i128 = if lowered < 0 { 0 } else { lowered };
    let p: i64 = if floored > 4 { 4 } else { floored as i64 };
    Ok(p)
}

fn clamp(p: i64) -> (r: i64)
    ensures
        r == clamp_priority(p as int),
{
    if p < 0 {
        0
    } else if p > 4 {
        4
    } else {
        p
    }
}

/// Effective priority with age promotion, measured against the current time.
pub fn calculate_effective_priority(
    base_priority: i64,
    ready_since: Option<&str>,
    policy: &SchedulingPolicy,
) -> (r: Result<i64, Error>)
    requires
        ready_since is Some ==> (aging_of(*policy) matches Some((interval, _)) ==> interval > 0),
    ensures
        (aging_of(*policy) is None || ready_since is None) ==> (r matches Ok(p) && p == clamp_priority(base_priority as int)),
        r matches Ok(p) ==> 0 <= p <= 4 && exists|now: int| in_calendar(now)
            && #[trigger] effective_for(base_priority as int, opt_view(ready_since), *policy, now) == Ok::<int, Seq<char>>(p as int),
        effective_for(base_priority as int, opt_view(ready_since), *policy, 0) matches Err(m)
            ==> (r matches Err(e) && e is Internal && e.text() == "Failed to parse ready_since: "@ + m),
        r is Err ==> effective_for(base_priority as int, opt_view(ready_since), *policy, 0) is Err,
{
    let now = now_unix_nanos();
    effective_priority_at(base_priority, ready_since, policy, now)
}


/// One ranking candidate as the store describes it.
#[derive(Debug, Clone)]
pub struct RankRow {
    pub id: String,
    pub priority: i64,
    pub created_at: String,
    pub ready_since: Option<String>,
    pub last_claim_sequence: Option<i64>,
}

/// A sort key, compared field by field: two numbers, a text (the
/// creation time), a third number, then the id.
#[derive(Debug, Clone)]
pub struct RankKey {
    pub first: i64,
    pub second: i64,
    pub text: String,
    pub third: i64,
    pub id: String,
}

pub type KeyView = (int, int, Seq<char>, int, Seq<char>);

pub open spec fn key_view(k: RankKey) -> KeyView {
    (k.first as int, k.second as int, k.text@, k.third as int, k.id@)
}

/// Lexicographic order on keys.
pub open spec fn key_lt(x: KeyView, y: KeyView) -> bool {
    if x.0 != y.0 {
        x.0 < y.0
    } else if x.1 != y.1 {
        x.1 < y.1
    } else if x.2 != y.2 {
        seq_lt(x.2, y.2)
    } else if x.3 != y.3 {
        x.3 < y.3
    } else {
        seq_lt(x.4, y.4)
    }
}

proof fn lemma_key_lt_order(x: KeyView, y: KeyView, z: KeyView)
    ensures
        !key_lt(x, x),
        key_lt(x, y) && key_lt(y, z) ==> key_lt(x, z),
        x == y || key_lt(x, y) || key_lt(y, x),
        key_lt(x, y) ==> !key_lt(y, x),
{
    lemma_seq_lt_irreflexive(x.4);
    lemma_seq_lt_total(x.2, y.2);
    lemma_seq_lt_total(x.4, y.4);
    if key_lt(x, y) && key_lt(y, z) {
        if seq_lt(x.2, y.2) && seq_lt(y.2, z.2) {
            lemma_seq_lt_transitive(x.2, y.2, z.2);
        }
        if seq_lt(x.4, y.4) && seq_lt(y.4, z.4) {
            lemma_seq_lt_transitive(x.4, y.4, z.4);
        }
    }
    if key_lt(x, y) && key_lt(y, x) {
        if seq_lt(x.2, y.2) && seq_lt(y.2, x.2) {
            lemma_seq_lt_transitive(x.2, y.2, x.2);
            lemma_seq_lt_irreflexive(x.2);
        }
        if seq_lt(x.4, y.4) && seq_lt(y.4, x.4) {
            lemma_seq_lt_transitive(x.4, y.4, x.4);
            lemma_seq_lt_irreflexive(x.4);
        }
    }
}

pub open spec fn keys_view(v: Seq<RankKey>) -> Seq<KeyView> {
    v.map_values(|k: RankKey| key_view(k))
}

/// Non-decreasing in key order.
pub open spec fn sorted_keys(s: Seq<KeyView>) -> bool {
    forall|i: int, j: int| 0 <= i < j < s.len() ==> !key_lt(#[trigger] s[j], #[trigger] s[i])
}

fn key_less(x: &RankKey, y: &RankKey) -> (r: bool)
    ensures
        r == key_lt(key_view(*x), key_view(*y)),
{
    if x.first != y.first {
        return x.first < y.first;
    }
    if x.second != y.second {
        return x.second < y.second;
    }
    if !str_eq(x.text.as_str(), y.text.as_str()) {
        return str_lt(x.text.as_str(), y.text.as_str());
    }
    if x.third != y.third {
        return x.third < y.third;
    }
    str_lt(x.id.as_str(), y.id.as_str())
}

proof fn lemma_insert_multiset<T>(s: Seq<T>, j: int, x: T)
    requires
        0 <= j <= s.len(),
    ensures
        s.insert(j, x).to_multiset() == s.to_multiset().insert(x),
{
    broadcast use vstd::seq_lib::group_to_multiset_ensures;
    let t = s.insert(j, x);
    assert(t.remove(j) =~= s);
    assert(t.remove(j).to_multiset() == t.to_multiset().remove(t[j]));
    assert(t.to_multiset().count(x) > 0) by {
        assert(t.contains(x)) by {
            assert(t[j] == x);
        }
    }
    assert(t.to_multiset() =~= s.to_multiset().insert(x));
}

fn copy_key(k: &RankKey) -> (r: RankKey)
    ensures
        key_view(r) == key_view(*k),
{
    RankKey { first: k.first, second: k.second, text: k.text.clone(), third: k.third, id: k.id.clone() }
}

/// Sort keys into non-decreasing key order; equal keys keep their input order.
pub fn sort_keys(keys: Vec<RankKey>) -> (r: Vec<RankKey>)
    ensures
        sorted_keys(keys_view(r@)),
        keys_view(r@).to_multiset() == keys_view(keys@).to_multiset(),
{
    let mut out: Vec<RankKey> = Vec::new();
    let mut i: usize = 0;
    let ghost kv = keys_view(keys@);
    proof {
        broadcast use vstd::seq_lib::group_to_multiset_ensures;
        assert(keys_view(out@) =~= Seq::<KeyView>::empty());
        assert(kv.take(0) =~= Seq::<KeyView>::empty());
    }
    while i < keys.len()
        invariant
            i <= keys@.len(),
            kv == keys_view(keys@),
            sorted_keys(keys_view(out@)),
            keys_view(out@).to_multiset() == kv.take(i as int).to_multiset(),
        decreases keys@.len() - i,
    {
        let x = copy_key(&keys[i]);
        let ghost xv = kv[i as int];
        assert(key_view(x) == xv);
        let mut j: usize = 0;
        while j < out.len() && !key_less(&x, &out[j])
            invariant
                j <= out@.len(),
                key_view(x) == xv,
                forall|k: int| 0 <= k < j ==> !key_lt(xv, #[trigger] keys_view(out@)[k]),
            decreases out@.len() - j,
        {
            j = j + 1;
        }
        let ghost before = keys_view(out@);
        out.insert(j, x);
        let ghost after = keys_view(out@);
        assert(after =~= before.insert(j as int, xv));
        assert forall|a: int, b: int| 0 <= a < b < after.len() implies !key_lt(#[trigger] after[b], #[trigger] after[a]) by {
            if b < j {
            } else if b == j {
                assert(!key_lt(xv, before[a]));
            } else if a < j {
                lemma_key_lt_order(before[a], xv, before[b - 1]);
                lemma_key_lt_order(xv, before[j as int], before[b - 1]);
                lemma_key_lt_order(before[a], before[j as int], before[b - 1]);
                lemma_key_lt_order(before[b - 1], before[a], xv);
                lemma_key_lt_order(before[j as int], before[b - 1], xv);
                lemma_key_lt_order(xv, before[j as int], before[a]);
                if j < before.len() && (b - 1) > j {
                    assert(!key_lt(before[b - 1], before[j as int]));
                }
            } else if a == j {
                assert(key_lt(xv, before[j as int]));
                lemma_key_lt_order(xv, before[j as int], before[b - 1]);
                lemma_key_lt_order(before[b - 1], xv, before[j as int]);
                lemma_key_lt_order(before[j as int], before[b - 1], xv);
                if (b - 1) > j {
                    assert(!key_lt(before[b - 1], before[j as int]));
                }
            } else {
                assert(!key_lt(before[b - 1], before[a - 1]));
            }
        }
        proof {
            lemma_insert_multiset(before, j as int, xv);
            assert(kv.take(i + 1) =~= kv.take(i as int).push(xv));
            broadcast use vstd::seq_lib::group_to_multiset_ensures;
        }
        i = i + 1;
    }
    assert(kv.take(keys@.len() as int) =~= kv);
    out
}

/// The ids of keys, in order.
pub fn ids_of(keys: &Vec<RankKey>) -> (r: Vec<String>)
    ensures
        crate::text::sv(r@) == keys_view(keys@).map_values(|k: KeyView| k.4),
{
    let mut out: Vec<String> = Vec::new();
    let mut i: usize = 0;
    while i < keys.len()
        invariant
            i <= keys@.len(),
            crate::text::sv(out@) == keys_view(keys@.take(i as int)).map_values(|k: KeyView| k.4),
        decreases keys@.len() - i,
    {
        let ghost before = crate::text::sv(out@);
        out.push(keys[i].id.clone());
        assert(crate::text::sv(out@) =~= before.push(keys@[i as int].id@));
        assert(keys_view(keys@.take(i + 1)) =~= keys_view(keys@.take(i as int)).push(key_view(keys@[i as int])));
        assert(crate::text::sv(out@) =~= keys_view(keys@.take(i + 1)).map_values(|k: KeyView| k.4));
        i = i + 1;
    }
    assert(keys@.take(keys@.len() as int) =~= keys@);
    out
}


/// Graph metrics for completion-unlock impact.
#[derive(Debug, Clone)]
pub struct GraphMetrics {
    pub immediate_unlock_count: i64,
    pub downstream_reach: i64,
    pub critical_path_reduction: i64,
    pub unlocked_priorities: Vec<i64>,
    pub is_valid: bool,
    pub graph_revision: i64,
}

/// Scheduling state of one issue.
#[derive(Debug, Clone)]
pub struct SchedulingState {
    pub issue_id: String,
    pub ready_since: Option<String>,
    pub last_claim_sequence: Option<i64>,
    pub attempt_tier: AttemptTier,
    pub consecutive_failures: i64,
    pub retry_after_claim_sequence: Option<i64>,
    pub workspace_sequence: i64,
}

/// A last claim sequence, with never-claimed ranking last.
pub open spec fn claim_rank(last: Option<i64>) -> int {
    match last {
        Some(n) => n as int,
        None => 0x7fff_ffff_ffff_ffff,
    }
}

/// The ids of `keys` after a stable sort by key order.
pub open spec fn ranked_as(ids: Seq<Seq<char>>, keys: Seq<KeyView>) -> bool {
    exists|s: Seq<KeyView>| sorted_keys(s) && s.to_multiset() == keys.to_multiset()
        && ids == s.map_values(|k: KeyView| k.4)
}

fn finish(keys: Vec<RankKey>) -> (r: Vec<String>)
    ensures
        ranked_as(crate::text::sv(r@), keys_view(keys@)),
{
    let sorted = sort_keys(keys);
    let out = ids_of(&sorted);
    assert(sorted_keys(keys_view(sorted@)) && keys_view(sorted@).to_multiset() == keys_view(keys@).to_multiset()
        && crate::text::sv(out@) == keys_view(sorted@).map_values(|k: KeyView| k.4));
    out
}

/// Least-recently-served rotation key: priority, last claim (never
/// claimed last), creation time, id.
pub open spec fn rotation_key(r: RankRow) -> KeyView {
    (r.priority as int, claim_rank(r.last_claim_sequence), r.created_at@, 0, r.id@)
}

/// Rank by least-recently-served rotation.
pub fn rank_by_rotation_policy(rows: &Vec<RankRow>) -> (r: Vec<String>)
    ensures
        ranked_as(crate::text::sv(r@), rows@.map_values(|x: RankRow| rotation_key(x))),
{
    let mut keys: Vec<RankKey> = Vec::new();
    let mut i: usize = 0;
    while i < rows.len()
        invariant
            i <= rows@.len(),
            keys_view(keys@) == rows@.take(i as int).map_values(|x: RankRow| rotation_key(x)),
        decreases rows@.len() - i,
    {
        let row = &rows[i];
        let last = match row.last_claim_sequence {
            Some(n) => n,
            None => 0x7fff_ffff_ffff_ffffi64,
        };
        let k = RankKey { first: row.priority, second: last, text: row.created_at.clone(), third: 0, id: row.id.clone() };
        let ghost before = keys_view(keys@);
        keys.push(k);
        assert(keys_view(keys@) =~= before.push(rotation_key(rows@[i as int])));
        assert(rows@.take(i + 1).map_values(|x: RankRow| rotation_key(x)) =~= rows@.take(i as int).map_values(|x: RankRow| rotation_key(x)).push(rotation_key(rows@[i as int])));
        i = i + 1;
    }
    assert(rows@.take(rows@.len() as int) =~= rows@);
    finish(keys)
}

/// Aging key: effective priority, creation time, last claim, id.
pub open spec fn aging_key(r: RankRow, effective: int) -> KeyView {
    (effective, 0, r.created_at@, claim_rank(r.last_claim_sequence), r.id@)
}

pub open spec fn opt_str(o: Option<String>) -> Option<Seq<char>> {
    match o {
        Some(s) => Some(s@),
        None => None,
    }
}

/// The effective priority of a row at instant `now`, or its parse error.
pub open spec fn row_effective(r: RankRow, policy: SchedulingPolicy, now: int) -> Result<int, Seq<char>> {
    effective_for(r.priority as int, opt_str(r.ready_since), policy, now)
}

/// The aging keys of rows whose ready times all parse.
pub open spec fn aging_keys(rows: Seq<RankRow>, policy: SchedulingPolicy, now: int) -> Seq<KeyView> {
    Seq::new(rows.len(), |k: int| aging_key(rows[k], row_effective(rows[k], policy, now)->Ok_0))
}

/// The aging interval divides an age only for a row with a ready time, so
/// it must be positive unless no row has one.
pub open spec fn aging_interval_fits(rows: Seq<RankRow>, policy: SchedulingPolicy) -> bool {
    aging_of(policy) matches Some((interval, _)) ==> (interval > 0
        || forall|k: int| 0 <= k < rows.len() ==> (#[trigger] rows[k]).ready_since is None)
}

/// Every row's ready time parses (or is not consulted).
pub open spec fn all_parse(rows: Seq<RankRow>, policy: SchedulingPolicy, now: int) -> bool {
    forall|k: int| 0 <= k < rows.len() ==> (#[trigger] row_effective(rows[k], policy, now)) is Ok
}

/// Row `k` is the first whose ready time fails to parse.
pub open spec fn first_unparsed(rows: Seq<RankRow>, policy: SchedulingPolicy, now: int, k: int) -> bool {
    &&& 0 <= k < rows.len()
    &&& row_effective(rows[k], policy, now) is Err
    &&& forall|j: int| 0 <= j < k ==> (#[trigger] row_effective(rows[j], policy, now)) is Ok
}

/// Rank by effective priority with age promotion, then creation time, then
/// least-recently-served, then id. The first ready time that does not
/// parse fails the whole ranking.
pub fn rank_by_aging_policy(rows: &Vec<RankRow>, policy: &SchedulingPolicy, now_nanos: i128) -> (r: Result<Vec<String>, Error>)
    requires
        aging_interval_fits(rows@, *policy),
        in_calendar(now_nanos as int),
    ensures
        r is Ok <==> all_parse(rows@, *policy, now_nanos as int),
        r matches Ok(ids) ==> ranked_as(crate::text::sv(ids@), aging_keys(rows@, *policy, now_nanos as int)),
        r matches Err(e) ==> e is Internal && exists|k: int| #[trigger] first_unparsed(rows@, *policy, now_nanos as int, k)
            && e.text() == "Failed to parse ready_since: "@ + row_effective(rows@[k], *policy, now_nanos as int)->Err_0,
{
    let ghost now = now_nanos as int;
    let mut keys: Vec<RankKey> = Vec::new();
    let mut i: usize = 0;
    while i < rows.len()
        invariant
            i <= rows@.len(),
            now == now_nanos as int,
            aging_interval_fits(rows@, *policy),
            in_calendar(now_nanos as int),
            forall|k: int| 0 <= k < i ==> (#[trigger] row_effective(rows@[k], *policy, now)) is Ok,
            keys_view(keys@) == aging_keys(rows@.take(i as int), *policy, now),
        decreases rows@.len() - i,
    {
        let row = &rows[i];
        let ready = match &row.ready_since {
            Some(t) => Some(t.as_str()),
            None => None,
        };
        assert(opt_view(ready) == opt_str(rows@[i as int].ready_since));
        let eff = match effective_priority_at(row.priority, ready, policy, now_nanos) {
            Ok(p) => p,
            Err(e) => {
                assert(first_unparsed(rows@, *policy, now, i as int));
                return Err(e);
            },
        };
        let last = match row.last_claim_sequence {
            Some(n) => n,
            None => 0x7fff_ffff_ffff_ffffi64,
        };
        let k = RankKey { first: eff, second: 0, text: row.created_at.clone(), third: last, id: row.id.clone() };
        let ghost before = keys_view(keys@);
        keys.push(k);
        proof {
            assert(row_effective(rows@[i as int], *policy, now) == Ok::<int, Seq<char>>(eff as int));
            assert(keys_view(keys@) =~= before.push(aging_key(rows@[i as int], eff as int)));
            let t = rows@.take(i + 1);
            assert forall|j: int| 0 <= j < i + 1 implies #[trigger] aging_keys(t, *policy, now)[j] == keys_view(keys@)[j] by {
                if j < i {
                    assert(t[j] == rows@.take(i as int)[j]);
                }
            }
            assert(keys_view(keys@) =~= aging_keys(t, *policy, now));
        }
        i = i + 1;
    }
    assert(rows@.take(rows@.len() as int) =~= rows@);
    Ok(finish(keys))
}

/// The impact score: ten per immediate unlock, one per downstream
/// descendant, five per step of critical path, or zero with no
/// descendants.
pub open spec fn impact_score(m: GraphMetrics) -> int {
    if m.downstream_reach > 0 {
        m.immediate_unlock_count * 10 + m.downstream_reach + m.critical_path_reduction * 5
    } else {
        0
    }
}

/// The impact score rewards each kind of progress at its own rate: with
/// some downstream reach, one more immediate unlock adds ten, one more step
/// of critical-path reduction adds five, one more downstream descendant
/// adds one; with no downstream reach the score is zero whatever the rest.
pub proof fn law_impact_score_rates(m: GraphMetrics)
    requires
        m.immediate_unlock_count < i64::MAX,
        m.downstream_reach < i64::MAX,
        m.critical_path_reduction < i64::MAX,
    ensures
        m.downstream_reach > 0 ==> impact_score(GraphMetrics {
            immediate_unlock_count: (m.immediate_unlock_count + 1) as i64, ..m
        }) == impact_score(m) + 10,
        m.downstream_reach > 0 ==> impact_score(GraphMetrics {
            critical_path_reduction: (m.critical_path_reduction + 1) as i64, ..m
        }) == impact_score(m) + 5,
        m.downstream_reach > 0 ==> impact_score(GraphMetrics {
            downstream_reach: (m.downstream_reach + 1) as i64, ..m
        }) == impact_score(m) + 1,
        m.downstream_reach <= 0 ==> impact_score(m) == 0,
        impact_score(GraphMetrics { immediate_unlock_count: 0, downstream_reach: 1, critical_path_reduction: 0, ..m }) == 1,
{
}

/// Metrics small enough that the score is computed exactly.
pub open spec fn metrics_in_range(m: GraphMetrics) -> bool {
    &&& 0 <= m.immediate_unlock_count <= 0x100_0000_0000
    &&& 0 <= m.downstream_reach <= 0x100_0000_0000
    &&& 0 <= m.critical_path_reduction <= 0x100_0000_0000
}

/// Impact key: priority, impact score, creation time, downstream reach, id.
pub open spec fn impact_key(r: RankRow, m: GraphMetrics) -> KeyView {
    (r.priority as int, impact_score(m), r.created_at@, m.downstream_reach as int, r.id@)
}

/// Rank by priority, then completion-unlock impact, then creation time,
/// then downstream reach, then id.
pub fn rank_by_impact_policy(rows: &Vec<RankRow>, metrics: &Vec<GraphMetrics>) -> (r: Vec<String>)
    requires
        metrics@.len() == rows@.len(),
        forall|k: int| 0 <= k < metrics@.len() ==> metrics_in_range(#[trigger] metrics@[k]),
    ensures
        ranked_as(crate::text::sv(r@), Seq::new(rows@.len(), |k: int| impact_key(rows@[k], metrics@[k]))),
{
    let mut keys: Vec<RankKey> = Vec::new();
    let mut i: usize = 0;
    while i < rows.len()
        invariant
            i <= rows@.len(),
            metrics@.len() == rows@.len(),
            forall|k: int| 0 <= k < metrics@.len() ==> metrics_in_range(#[trigger] metrics@[k]),
            keys_view(keys@) == Seq::new(i as nat, |k: int| impact_key(rows@[k], metrics@[k])),
        decreases rows@.len() - i,
    {
        let m = &metrics[i];
        assert(metrics_in_range(metrics@[i as int]));
        let score: i64 = if m.downstream_reach > 0 {
            m.immediate_unlock_count * 10 + m.downstream_reach + m.critical_path_reduction * 5
        } else {
            0
        };
        let k = RankKey {
            first: rows[i].priority,
            second: score,
            text: rows[i].created_at.clone(),
            third: m.downstream_reach,
            id: rows[i].id.clone(),
        };
        let ghost before = keys_view(keys@);
        keys.push(k);
        proof {
            assert(score as int == impact_score(metrics@[i as int]));
            assert(keys_view(keys@) =~= before.push(impact_key(rows@[i as int], metrics@[i as int])));
            assert(keys_view(keys@) =~= Seq::new((i + 1) as nat, |k: int| impact_key(rows@[k], metrics@[k])));
        }
        i = i + 1;
    }
    finish(keys)
}

/// The policies that rank by effective priority with age promotion:
/// aging, balanced, and rotation with rotation switched off.
pub open spec fn ranks_by_age(p: SchedulingPolicy) -> bool {
    ||| p is AgingV1
    ||| p is BalancedV1
    ||| p matches SchedulingPolicy::RotationV1 { enable_rotation } && !enable_rotation
}

/// The ids of rows in their given order.
pub open spec fn row_ids(rows: Seq<RankRow>) -> Seq<Seq<char>> {
    rows.map_values(|x: RankRow| x.id@)
}

/// Order candidates by `policy` at instant `now_nanos`. FIFO keeps the
/// store's order; impact needs one metrics record per row.
pub fn rank_candidates_at(
    rows: &Vec<RankRow>,
    metrics: &Vec<GraphMetrics>,
    policy: &SchedulingPolicy,
    now_nanos: i128,
) -> (r: Result<Vec<String>, Error>)
    requires
        aging_interval_fits(rows@, *policy),
        in_calendar(now_nanos as int),
        *policy is ImpactV1 ==> metrics@.len() == rows@.len()
            && forall|k: int| 0 <= k < metrics@.len() ==> metrics_in_range(#[trigger] metrics@[k]),
    ensures
        *policy is FifoV1 ==> (r matches Ok(ids) && crate::text::sv(ids@) == row_ids(rows@)),
        *policy is ImpactV1 ==> (r matches Ok(ids)
            && ranked_as(crate::text::sv(ids@), Seq::new(rows@.len(), |k: int| impact_key(rows@[k], metrics@[k])))),
        (*policy matches SchedulingPolicy::RotationV1 { enable_rotation } && enable_rotation) ==> (r matches Ok(ids)
            && ranked_as(crate::text::sv(ids@), rows@.map_values(|x: RankRow| rotation_key(x)))),
        ranks_by_age(*policy) ==> {
            &&& (r is Ok <==> all_parse(rows@, *policy, now_nanos as int))
            &&& (r matches Ok(ids) ==> ranked_as(crate::text::sv(ids@), aging_keys(rows@, *policy, now_nanos as int)))
            &&& (r matches Err(e) ==> e is Internal && exists|k: int| #[trigger] first_unparsed(rows@, *policy, now_nanos as int, k)
                && e.text() == "Failed to parse ready_since: "@ + row_effective(rows@[k], *policy, now_nanos as int)->Err_0)
        },
{
    match policy {
        SchedulingPolicy::FifoV1 => {
            let mut out: Vec<String> = Vec::new();
            let mut i: usize = 0;
            while i < rows.len()
                invariant
                    i <= rows@.len(),
                    crate::text::sv(out@) == row_ids(rows@.take(i as int)),
                decreases rows@.len() - i,
            {
                out.push(rows[i].id.clone());
                assert(row_ids(rows@.take(i + 1)) =~= row_ids(rows@.take(i as int)).push(rows@[i as int].id@));
                assert(crate::text::sv(out@) =~= row_ids(rows@.take(i + 1)));
                i = i + 1;
            }
            assert(rows@.take(rows@.len() as int) =~= rows@);
            Ok(out)
        },
        SchedulingPolicy::ImpactV1 => Ok(rank_by_impact_policy(rows, metrics)),
        SchedulingPolicy::RotationV1 { enable_rotation } => {
            if *enable_rotation {
                Ok(rank_by_rotation_policy(rows))
            } else {
                rank_by_aging_policy(rows, policy, now_nanos)
            }
        },
        _ => rank_by_aging_policy(rows, policy, now_nanos),
    }
}

/// Order candidates by `policy`, measuring age against the current time.
/// The outcome is that of `rank_candidates_at` at some instant of the
/// clock.
pub fn rank_candidates(
    rows: &Vec<RankRow>,
    metrics: &Vec<GraphMetrics>,
    policy: &SchedulingPolicy,
) -> (r: Result<Vec<String>, Error>)
    requires
        aging_interval_fits(rows@, *policy),
        *policy is ImpactV1 ==> metrics@.len() == rows@.len()
            && forall|k: int| 0 <= k < metrics@.len() ==> metrics_in_range(#[trigger] metrics@[k]),
    ensures
        *policy is FifoV1 ==> (r matches Ok(ids) && crate::text::sv(ids@) == row_ids(rows@)),
        *policy is ImpactV1 ==> (r matches Ok(ids)
            && ranked_as(crate::text::sv(ids@), Seq::new(rows@.len(), |k: int| impact_key(rows@[k], metrics@[k])))),
        (*policy matches SchedulingPolicy::RotationV1 { enable_rotation } && enable_rotation) ==> (r matches Ok(ids)
            && ranked_as(crate::text::sv(ids@), rows@.map_values(|x: RankRow| rotation_key(x)))),
        ranks_by_age(*policy) ==> exists|now: int| in_calendar(now) && {
            &&& (r is Ok <==> #[trigger] all_parse(rows@, *policy, now))
            &&& (r matches Ok(ids) ==> ranked_as(crate::text::sv(ids@), aging_keys(rows@, *policy, now)))
            &&& (r matches Err(e) ==> e is Internal && exists|k: int| #[trigger] first_unparsed(rows@, *policy, now, k)
                && e.text() == "Failed to parse ready_since: "@ + row_effective(rows@[k], *policy, now)->Err_0)
        },
{
    let now = now_unix_nanos();
    rank_candidates_at(rows, metrics, policy, now)
}

/// Aging only ever raises urgency: a bead that has waited longer is never
/// given a worse (higher) effective priority than when it had waited
/// less, aging never makes a priority worse than its clamped base, and it
/// promotes by at most `max_promotions` levels.
pub proof fn law_aging_never_demotes(base: int, age1: int, age2: int, interval: int, max_promotions: int)
    requires
        interval > 0,
        0 <= age1 <= age2,
        max_promotions >= 0,
    ensures
        promoted(base, age2, interval, max_promotions) <= promoted(base, age1, interval, max_promotions),
        promoted(base, age1, interval, max_promotions) <= clamp_priority(base),
        promoted(base, age1, interval, max_promotions) >= clamp_priority(base) - max_promotions,
{
    vstd::arithmetic::div_mod::lemma_div_is_ordered(age1, age2, interval);
    vstd::arithmetic::div_mod::lemma_div_pos_is_pos(age1, interval);
}

} // verus!

//! Fenced claim leases: the TTL bounds, lease expiry, and the two fences a
//! mutation of a claimed issue passes, the claim-epoch credential and the
//! current epoch's lease. Reading lease rows happens outside this crate.
use vstd::prelude::*;
use crate::error::{Error, ErrorKind};
use crate::scheduling::{in_calendar, now_unix_nanos};
use crate::text::{cat, cat3, i64_text, int_text, owned, seq_lt, str_lt};

verus! {

broadcast use vstd::string::group_string_axioms;

/// Default lease TTL in seconds.
pub const DEFAULT_LEASE_TTL: u64 = 300;

/// Maximum lease TTL in seconds.
pub const MAX_LEASE_TTL: u64 = 3600;

/// Minimum lease TTL in seconds.
pub const MIN_LEASE_TTL: u64 = 30;

/// A lease row.
#[derive(Debug, Clone)]
pub struct Lease {
    pub issue_id: String,
    pub assignee: String,
    pub fencing_token: i64,
    pub expires_at: String,
    pub renewed_at: Option<String>,
    pub created_at: String,
}

/// What a leased claim or renewal hands back.
#[derive(Debug, Clone)]
pub struct LeaseClaimResult {
    pub issue_id: String,
    pub assignee: String,
    pub fencing_token: i64,
    pub expires_at: String,
}

/// A requested TTL, clamped into the allowed range.
pub fn clamp_ttl(ttl_seconds: u64) -> (r: u64)
    ensures
        r == (if ttl_seconds < MIN_LEASE_TTL { MIN_LEASE_TTL } else if ttl_seconds > MAX_LEASE_TTL { MAX_LEASE_TTL } else { ttl_seconds }),
        MIN_LEASE_TTL <= r <= MAX_LEASE_TTL,
{
    if ttl_seconds < MIN_LEASE_TTL {
        MIN_LEASE_TTL
    } else if ttl_seconds > MAX_LEASE_TTL {
        MAX_LEASE_TTL
    } else {
        ttl_seconds
    }
}

/// A lease is expired once its expiry time, as text, no longer sorts after
/// the current time's.
pub fn lease_expired_at(lease: &Lease, now: &str) -> (r: bool)
    ensures
        r == !seq_lt(now@, lease.expires_at@),
{
    !str_lt(now, lease.expires_at.as_str())
}

/// The claim-epoch fence: a legacy claim (epoch 0 or below) has nothing to
/// match; otherwise the caller must present exactly the current epoch, and
/// a missing or different credential conflicts.
pub open spec fn epoch_refusal(issue_id: Seq<char>, epoch: i64, presented: Option<i64>) -> Option<Seq<char>> {
    if epoch <= 0 {
        None
    } else {
        match presented {
            Some(p) => if p == epoch {
                None
            } else {
                Some("Claim-epoch credential mismatch: issue "@ + issue_id + " is claimed at claim epoch "@ + int_text(epoch as int)
                    + ", not "@ + int_text(p as int) + "; a stale credential cannot mutate it"@)
            },
            None => Some("Claim-epoch credential required: issue "@ + issue_id + " is claimed at claim epoch "@ + int_text(epoch as int)
                + "; pass --fencing-token "@ + int_text(epoch as int) + " (the current epoch is projected by `bead show "@ + issue_id
                + " --json`)"@),
        }
    }
}

/// Check the credential a mutation presents against the issue's current
/// claim epoch.
pub fn validate_claim_epoch(issue_id: &str, epoch: i64, presented_claim_epoch: Option<i64>) -> (r: Result<(), Error>)
    ensures
        match epoch_refusal(issue_id@, epoch, presented_claim_epoch) {
            None => r is Ok,
            Some(m) => r matches Err(e) && e.is(ErrorKind::LeaseConflict, m),
        },
{
    if epoch <= 0 {
        return Ok(());
    }
    let e = i64_text(epoch);
    match presented_claim_epoch {
        Some(p) => {
            if p == epoch {
                Ok(())
            } else {
                let t = i64_text(p);
                let a = cat3("Claim-epoch credential mismatch: issue ", issue_id, " is claimed at claim epoch ");
                let b = cat3(a.as_str(), e.as_str(), ", not ");
                Err(Error::LeaseConflict(cat3(b.as_str(), t.as_str(), "; a stale credential cannot mutate it")))
            }
        },
        None => {
            let a = cat3("Claim-epoch credential required: issue ", issue_id, " is claimed at claim epoch ");
            let b = cat3(a.as_str(), e.as_str(), "; pass --fencing-token ");
            let c = cat3(b.as_str(), e.as_str(), " (the current epoch is projected by `bead show ");
            Err(Error::LeaseConflict(cat3(c.as_str(), issue_id, " --json`)")))
        },
    }
}

/// The lease fence of the current epoch: no lease row at that epoch (an
/// unleased claim, or a row of an earlier holder) allows the mutation; an
/// expired lease refuses it; a live lease must carry the expected fencing
/// token when one is given.
pub open spec fn lease_refusal(
    issue_id: Seq<char>,
    assignee: Seq<char>,
    epoch_lease: Option<(i64, bool)>,
    expected_token: Option<i64>,
) -> Option<(ErrorKind, Seq<char>)> {
    match epoch_lease {
        None => None,
        Some((token, expired)) => if expired {
            Some((ErrorKind::LeaseExpired, "Lease for issue "@ + issue_id + " has expired or is invalid for assignee "@ + assignee))
        } else {
            match expected_token {
                Some(t) => if t != token {
                    Some((ErrorKind::LeaseConflict, "Fencing token mismatch: expected "@ + int_text(t as int) + ", got "@
                        + int_text(token as int)))
                } else {
                    None
                },
                None => None,
            }
        },
    }
}

/// Check a mutation against the current epoch's lease, given as its
/// fencing token and whether it has expired.
pub fn validate_epoch_lease(
    issue_id: &str,
    assignee: &str,
    epoch_lease: Option<(i64, bool)>,
    expected_fencing_token: Option<i64>,
) -> (r: Result<(), Error>)
    ensures
        match lease_refusal(issue_id@, assignee@, epoch_lease, expected_fencing_token) {
            None => r is Ok,
            Some((k, m)) => r matches Err(e) && e.is(k, m),
        },
{
    match epoch_lease {
        None => Ok(()),
        Some((token, expired)) => {
            if expired {
                let a = cat3("Lease for issue ", issue_id, " has expired or is invalid for assignee ");
                return Err(Error::LeaseExpired(cat(a.as_str(), assignee)));
            }
            if let Some(t) = expected_fencing_token {
                if t != token {
                    let x = i64_text(t);
                    let y = i64_text(token);
                    let a = cat3("Fencing token mismatch: expected ", x.as_str(), ", got ");
                    return Err(Error::LeaseConflict(cat(a.as_str(), y.as_str())));
                }
            }
            Ok(())
        },
    }
}

/// A renewal needs a live lease of the assignee, and its guarded update
/// must touch exactly that one row.
pub open spec fn renewal_refusal(issue_id: Seq<char>, assignee: Seq<char>, has_active_lease: bool, changed: usize) -> Option<Seq<char>> {
    if !has_active_lease {
        Some("No active lease found for issue "@ + issue_id + " and assignee "@ + assignee)
    } else if changed != 1 {
        Some("Lease for issue "@ + issue_id + " and assignee "@ + assignee + " is no longer active"@)
    } else {
        None
    }
}

/// Decide a renewal from whether an active lease was found and how many
/// rows its update touched.
pub fn validate_renewal(issue_id: &str, assignee: &str, has_active_lease: bool, changed: usize) -> (r: Result<(), Error>)
    ensures
        match renewal_refusal(issue_id@, assignee@, has_active_lease, changed) {
            None => r is Ok,
            Some(m) => r matches Err(e) && e.is(ErrorKind::LeaseExpired, m),
        },
{
    if !has_active_lease {
        let a = cat3("No active lease found for issue ", issue_id, " and assignee ");
        return Err(Error::LeaseExpired(cat(a.as_str(), assignee)));
    }
    if changed != 1 {
        let a = cat3("Lease for issue ", issue_id, " and assignee ");
        return Err(Error::LeaseExpired(cat3(a.as_str(), assignee, " is no longer active")));
    }
    Ok(())
}

/// The default TTL lies within the allowed range.
pub proof fn law_default_ttl_within_bounds()
    ensures
        MIN_LEASE_TTL <= DEFAULT_LEASE_TTL <= MAX_LEASE_TTL,
{
}

/// `OffsetDateTime::from_unix_timestamp_nanos(n)` formatted with the
/// RFC 3339 format description: the text, or `None` where the instant is
/// outside the crate's calendar or the format refuses it.
pub uninterp spec fn rfc3339_text(n: int) -> Option<Seq<char>>;

/// `time::OffsetDateTime::from_unix_timestamp_nanos(n)` followed by
/// `format(&Rfc3339)`; either failure gives `None`. The text itself is
/// named, not spelled out.
#[verifier::external_body]
pub(crate) fn format_rfc3339_nanos(n: i128) -> (r: Option<String>)
    ensures
        match r {
            Some(t) => rfc3339_text(n as int) == Some(t@),
            None => rfc3339_text(n as int) is None,
        },
{
    match time::OffsetDateTime::from_unix_timestamp_nanos(n) {
        Ok(t) => match t.format(&time::format_description::well_known::Rfc3339) {
            Ok(s) => Some(s),
            Err(_) => None,
        },
        Err(_) => None,
    }
}

/// An instant as the lease rows record it: RFC 3339 text, or `unknown`.
pub open spec fn stamp_text(n: int) -> Seq<char> {
    match rfc3339_text(n) {
        Some(t) => t,
        None => "unknown"@,
    }
}

pub(crate) fn stamp(n: i128) -> (r: String)
    ensures
        r@ == stamp_text(n as int),
{
    match format_rfc3339_nanos(n) {
        Some(t) => t,
        None => owned("unknown"),
    }
}

/// The clamped TTL in nanoseconds.
pub open spec fn ttl_nanos(ttl_seconds: u64) -> int {
    (if ttl_seconds < MIN_LEASE_TTL { MIN_LEASE_TTL } else if ttl_seconds > MAX_LEASE_TTL { MAX_LEASE_TTL } else { ttl_seconds }) * 1_000_000_000
}

/// The lease a claim or renewal at instant `now` (Unix nanoseconds)
/// records, with the time the row is written: the lease expires the
/// clamped TTL after `now`.
pub fn lease_claim_at(issue_id: &str, assignee: &str, ttl_seconds: u64, fencing_token: i64, now: i128) -> (r: (LeaseClaimResult, String))
    requires
        in_calendar(now as int),
    ensures
        r.0.issue_id@ == issue_id@,
        r.0.assignee@ == assignee@,
        r.0.fencing_token == fencing_token,
        r.0.expires_at@ == stamp_text(now + ttl_nanos(ttl_seconds)),
        r.1@ == stamp_text(now as int),
{
    let ttl = clamp_ttl(ttl_seconds);
    let expires = now + (ttl as i128) * 1_000_000_000;
    let result = LeaseClaimResult {
        issue_id: owned(issue_id),
        assignee: owned(assignee),
        fencing_token,
        expires_at: stamp(expires),
    };
    (result, stamp(now))
}

/// The lease a claim or renewal made now records (see `lease_claim_at`),
/// at some instant the clock gave.
pub fn lease_claim(issue_id: &str, assignee: &str, ttl_seconds: u64, fencing_token: i64) -> (r: (LeaseClaimResult, String))
    ensures
        r.0.issue_id@ == issue_id@,
        r.0.assignee@ == assignee@,
        r.0.fencing_token == fencing_token,
        exists|now: int| in_calendar(now) && r.0.expires_at@ == stamp_text(now + ttl_nanos(ttl_seconds)) && r.1@ == #[trigger] stamp_text(now),
{
    let now = now_unix_nanos();
    lease_claim_at(issue_id, assignee, ttl_seconds, fencing_token, now)
}

/// Whether the lease is expired now: its expiry time, as text, does not
/// sort after the clock's current RFC 3339 time (`unknown` where that
/// cannot be formatted).
pub fn lease_is_expired(lease: &Lease) -> (r: bool)
    ensures
        exists|now: int| in_calendar(now) && r == !seq_lt(#[trigger] stamp_text(now), lease.expires_at@),
{
    let now = now_unix_nanos();
    let t = stamp(now);
    lease_expired_at(lease, t.as_str())
}

/// Only the current claim epoch passes the fence: for an epoch-carrying
/// claim exactly one credential is accepted, so a credential superseded by
/// a later claim or renewal is refused, and the refusal is a conflict
/// (exit 4).
pub proof fn law_only_the_current_epoch_passes(issue_id: Seq<char>, epoch: i64, presented: Option<i64>)
    requires
        epoch > 0,
    ensures
        epoch_refusal(issue_id, epoch, presented) is None <==> presented == Some(epoch),
        epoch < i64::MAX ==> epoch_refusal(issue_id, (epoch + 1) as i64, Some(epoch)) is Some,
        forall|e: Error| #[trigger] e.kind() == ErrorKind::LeaseConflict ==> e.code() == 4,
{
}

} // verus!

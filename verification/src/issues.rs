//! Listing and creating issues: the query a listing runs for its filters,
//! and the shape of a unique reference. Running the query happens outside
//! this crate.
use vstd::prelude::*;
use crate::error::{Error, ErrorKind};
use crate::model::BaseStatus;
use crate::digest::{hex_encode, hex_lower};
use crate::text::{has_infix, byte_len, utf8_len, cat, cat3, chars_of, i64_text, int_text, join, join_seq, owned, push_str, str_eq, string_of, sv};

verus! {

broadcast use vstd::string::group_string_axioms;

/// The external-reference key under which a unique reference is recorded.
pub const UNIQUE_REF_EXTERNAL_KEY: &'static str = "unique-ref";

/// How an idempotent create ended.
#[derive(Debug, Clone, Copy, PartialEq, Eq, Structural)]
pub enum CreateOutcome {
    /// A new issue and its reference binding were committed.
    Created,
    /// The reference was already bound to an existing issue.
    Existing { closed: bool },
}

/// The columns and source every listing selects.
pub open spec fn list_head() -> Seq<char> {
    "SELECT id, title, description, priority, base_status, assignee, issue_type,
         created_at, updated_at, closed_at, close_reason, manual_blocked, source_repo,
         profile, schema_ref, notes, revision
         FROM issues WHERE 1=1"@
}

/// The ready-frontier condition: open, unassigned, not manually blocked,
/// no unclosed blocker, and no resource held by another issue under a live
/// lease (the `?` is the current time).
pub open spec fn ready_clause() -> Seq<char> {
    " AND base_status = 'open' AND (manual_blocked IS NULL OR manual_blocked = 0) AND assignee IS NULL AND NOT EXISTS (
            SELECT 1 FROM dependencies WHERE blocked_issue_id = issues.id AND kind = 'blocks'
            AND blocker_issue_id IN (SELECT id FROM issues WHERE base_status != 'closed')
        ) AND NOT EXISTS (
            SELECT 1 FROM issue_resource_keys candidate_key
            JOIN resource_locks held_lock ON held_lock.resource_key = candidate_key.resource_key
            WHERE candidate_key.issue_id = issues.id
              AND held_lock.issue_id != issues.id
              AND (held_lock.lease_fencing_token IS NULL OR EXISTS (
                  SELECT 1 FROM leases active_lease
                  WHERE active_lease.issue_id = held_lock.issue_id
                    AND active_lease.fencing_token = held_lock.lease_fencing_token
                    AND active_lease.expires_at > ?
              ))
        )"@
}

/// A ready listing counts every unfinished blocker: its blocker subquery
/// excludes only closed issues, so an issue blocked by an open, in-progress
/// or deferred issue is not ready.
pub proof fn law_ready_listing_waits_for_unclosed_blockers(
    status: Option<Seq<char>>,
    assignee: Option<Seq<char>>,
    blocked_only: bool,
    limit: i64,
    now: Seq<char>,
)
    ensures
        has_infix(list_query_spec(status, assignee, true, blocked_only, limit, now).0,
            "AND blocker_issue_id IN (SELECT id FROM issues WHERE base_status != 'closed')"@),
{
    reveal_strlit(" AND base_status = 'open' AND (manual_blocked IS NULL OR manual_blocked = 0) AND assignee IS NULL AND NOT EXISTS (
            SELECT 1 FROM dependencies WHERE blocked_issue_id = issues.id AND kind = 'blocks'
            ");
    reveal_strlit("AND blocker_issue_id IN (SELECT id FROM issues WHERE base_status != 'closed')");
    reveal_strlit("
        ) AND NOT EXISTS (
            SELECT 1 FROM issue_resource_keys candidate_key
            JOIN resource_locks held_lock ON held_lock.resource_key = candidate_key.resource_key
            WHERE candidate_key.issue_id = issues.id
              AND held_lock.issue_id != issues.id
              AND (held_lock.lease_fencing_token IS NULL OR EXISTS (
                  SELECT 1 FROM leases active_lease
                  WHERE active_lease.issue_id = held_lock.issue_id
                    AND active_lease.fencing_token = held_lock.lease_fencing_token
                    AND active_lease.expires_at > ?
              ))
        )");
    reveal_strlit(" AND base_status = 'open' AND (manual_blocked IS NULL OR manual_blocked = 0) AND assignee IS NULL AND NOT EXISTS (
            SELECT 1 FROM dependencies WHERE blocked_issue_id = issues.id AND kind = 'blocks'
            AND blocker_issue_id IN (SELECT id FROM issues WHERE base_status != 'closed')
        ) AND NOT EXISTS (
            SELECT 1 FROM issue_resource_keys candidate_key
            JOIN resource_locks held_lock ON held_lock.resource_key = candidate_key.resource_key
            WHERE candidate_key.issue_id = issues.id
              AND held_lock.issue_id != issues.id
              AND (held_lock.lease_fencing_token IS NULL OR EXISTS (
                  SELECT 1 FROM leases active_lease
                  WHERE active_lease.issue_id = held_lock.issue_id
                    AND active_lease.fencing_token = held_lock.lease_fencing_token
                    AND active_lease.expires_at > ?
              ))
        )");
    let a = " AND base_status = 'open' AND (manual_blocked IS NULL OR manual_blocked = 0) AND assignee IS NULL AND NOT EXISTS (
            SELECT 1 FROM dependencies WHERE blocked_issue_id = issues.id AND kind = 'blocks'
            "@;
    let n = "AND blocker_issue_id IN (SELECT id FROM issues WHERE base_status != 'closed')"@;
    let c = "
        ) AND NOT EXISTS (
            SELECT 1 FROM issue_resource_keys candidate_key
            JOIN resource_locks held_lock ON held_lock.resource_key = candidate_key.resource_key
            WHERE candidate_key.issue_id = issues.id
              AND held_lock.issue_id != issues.id
              AND (held_lock.lease_fencing_token IS NULL OR EXISTS (
                  SELECT 1 FROM leases active_lease
                  WHERE active_lease.issue_id = held_lock.issue_id
                    AND active_lease.fencing_token = held_lock.lease_fencing_token
                    AND active_lease.expires_at > ?
              ))
        )"@;
    assert(ready_clause() =~= a + n + c);
    let q = list_query_spec(status, assignee, true, blocked_only, limit, now).0;
    let (s1, p1) = match status {
        Some(st) => if st == "blocked"@ {
            (Seq::<char>::empty(), Seq::<Seq<char>>::empty())
        } else {
            (" AND base_status = ?"@, seq![st])
        },
        None => (Seq::<char>::empty(), Seq::<Seq<char>>::empty()),
    };
    let s2 = if blocked_only { " AND base_status = 'open' AND (manual_blocked = 1)"@ } else { Seq::<char>::empty() };
    let (s3, p3) = match assignee {
        Some(x) => if x.len() == 0 {
            (" AND assignee IS NULL"@, Seq::<Seq<char>>::empty())
        } else {
            (" AND assignee = ?"@, seq![x])
        },
        None => (Seq::<char>::empty(), Seq::<Seq<char>>::empty()),
    };
    let before = list_head() + s1 + s2 + s3 + a;
    let after = c + " ORDER BY priority ASC, created_at ASC, id ASC"@ + " LIMIT ?"@;
    assert(q =~= before + n + after);
    assert(q.subrange(before.len() as int, (before.len() + n.len()) as int) =~= n);
}

pub open spec fn opt_str(o: Option<&str>) -> Option<Seq<char>> {
    match o {
        Some(s) => Some(s@),
        None => None,
    }
}

/// The listing query and its parameters, in order: a status filter (the
/// word `blocked` is left to the blocked filter), the blocked filter, an
/// assignee filter (empty meaning unassigned), the ready-frontier filter,
/// then FIFO claim order and the limit.
pub open spec fn list_query_spec(
    status: Option<Seq<char>>,
    assignee: Option<Seq<char>>,
    ready_only: bool,
    blocked_only: bool,
    limit: i64,
    now: Seq<char>,
) -> (Seq<char>, Seq<Seq<char>>) {
    let (s1, p1) = match status {
        Some(st) => if st == "blocked"@ {
            (Seq::<char>::empty(), Seq::<Seq<char>>::empty())
        } else {
            (" AND base_status = ?"@, seq![st])
        },
        None => (Seq::<char>::empty(), Seq::<Seq<char>>::empty()),
    };
    let s2 = if blocked_only { " AND base_status = 'open' AND (manual_blocked = 1)"@ } else { Seq::<char>::empty() };
    let (s3, p3) = match assignee {
        Some(a) => if a.len() == 0 {
            (" AND assignee IS NULL"@, Seq::<Seq<char>>::empty())
        } else {
            (" AND assignee = ?"@, seq![a])
        },
        None => (Seq::<char>::empty(), Seq::<Seq<char>>::empty()),
    };
    let (s4, p4) = if ready_only { (ready_clause(), seq![now]) } else { (Seq::<char>::empty(), Seq::<Seq<char>>::empty()) };
    (list_head() + s1 + s2 + s3 + s4 + " ORDER BY priority ASC, created_at ASC, id ASC"@ + " LIMIT ?"@,
        p1 + p3 + p4 + seq![int_text(limit as int)])
}

/// Whether a status filter names a stored status.
pub open spec fn stored_status(s: Seq<char>) -> bool {
    s == "open"@ || s == "in_progress"@ || s == "deferred"@ || s == "closed"@
}

/// The status filters listing refuses: anything but `blocked` and the
/// stored statuses.
pub open spec fn refused_status(status: Option<Seq<char>>) -> bool {
    status matches Some(s) && s != "blocked"@ && !stored_status(s)
}

pub open spec fn status_refusal(s: Seq<char>) -> Seq<char> {
    "Invalid status: "@ + s + " (expected open, in_progress, deferred, closed or blocked)"@
}

/// Build the listing query for the filters; `now` is the current time in
/// RFC 3339, compared against lease expiry by the ready filter. A status
/// filter that is neither `blocked` nor a stored status is refused.
pub fn list_query(
    status_filter: Option<&str>,
    assignee_filter: Option<&str>,
    ready_only: bool,
    blocked_only: bool,
    limit: i64,
    now: &str,
) -> (r: Result<(String, Vec<String>), Error>)
    ensures
        match r {
            Ok(q) => !refused_status(opt_str(status_filter)) && (q.0@, sv(q.1@))
                == list_query_spec(opt_str(status_filter), opt_str(assignee_filter), ready_only, blocked_only, limit, now@),
            Err(e) => refused_status(opt_str(status_filter)) && e.is(ErrorKind::Validation, status_refusal(status_filter->0@)),
        },
{
    if let Some(status) = status_filter {
        if !str_eq(status, "blocked") && !str_eq(status, "open") && !str_eq(status, "in_progress")
            && !str_eq(status, "deferred") && !str_eq(status, "closed") {
            return Err(Error::Validation(cat3("Invalid status: ", status,
                " (expected open, in_progress, deferred, closed or blocked)")));
        }
    }
    let mut query = owned("SELECT id, title, description, priority, base_status, assignee, issue_type,
         created_at, updated_at, closed_at, close_reason, manual_blocked, source_repo,
         profile, schema_ref, notes, revision
         FROM issues WHERE 1=1");
    let mut params: Vec<String> = Vec::new();
    let ghost p0 = sv(params@);
    assert(p0 =~= Seq::<Seq<char>>::empty());
    if let Some(status) = status_filter {
        if !str_eq(status, "blocked") {
            push_str(&mut query, " AND base_status = ?");
            params.push(owned(status));
        }
    }
    let ghost q1 = query@;
    let ghost p1 = sv(params@);
    if blocked_only {
        push_str(&mut query, " AND base_status = 'open' AND (manual_blocked = 1)");
    }
    let ghost q2 = query@;
    if let Some(assignee) = assignee_filter {
        let cs = chars_of(assignee);
        proof {
            reveal_strlit("");
        }
        if cs.len() == 0 {
            push_str(&mut query, " AND assignee IS NULL");
        } else {
            push_str(&mut query, " AND assignee = ?");
            let ghost before = sv(params@);
            params.push(owned(assignee));
            assert(sv(params@) =~= before.push(assignee@));
        }
    }
    let ghost q3 = query@;
    let ghost p3 = sv(params@);
    if ready_only {
        push_str(&mut query, " AND base_status = 'open' AND (manual_blocked IS NULL OR manual_blocked = 0) AND assignee IS NULL AND NOT EXISTS (
            SELECT 1 FROM dependencies WHERE blocked_issue_id = issues.id AND kind = 'blocks'
            AND blocker_issue_id IN (SELECT id FROM issues WHERE base_status != 'closed')
        ) AND NOT EXISTS (
            SELECT 1 FROM issue_resource_keys candidate_key
            JOIN resource_locks held_lock ON held_lock.resource_key = candidate_key.resource_key
            WHERE candidate_key.issue_id = issues.id
              AND held_lock.issue_id != issues.id
              AND (held_lock.lease_fencing_token IS NULL OR EXISTS (
                  SELECT 1 FROM leases active_lease
                  WHERE active_lease.issue_id = held_lock.issue_id
                    AND active_lease.fencing_token = held_lock.lease_fencing_token
                    AND active_lease.expires_at > ?
              ))
        )");
        let ghost before = sv(params@);
        params.push(owned(now));
        assert(sv(params@) =~= before.push(now@));
    }
    push_str(&mut query, " ORDER BY priority ASC, created_at ASC, id ASC");
    push_str(&mut query, " LIMIT ?");
    let ghost before = sv(params@);
    params.push(i64_text(limit));
    assert(sv(params@) =~= before.push(int_text(limit as int)));
    proof {
        let spec = list_query_spec(opt_str(status_filter), opt_str(assignee_filter), ready_only, blocked_only, limit, now@);
        if status_filter is Some && status_filter->0@ != "blocked"@ {
            assert(p1 =~= seq![status_filter->0@]);
        } else {
            assert(p1 =~= Seq::<Seq<char>>::empty());
        }
        assert(query@ =~= spec.0);
        assert(sv(params@) =~= spec.1);
    }
    Ok((query, params))
}

/// A unique reference split at its first colon into namespace and key.
pub open spec fn unique_ref_parts(v: Seq<char>) -> Option<(Seq<char>, Seq<char>)> {
    if exists|i: int| 0 <= i < v.len() && v[i] == ':' {
        let i = choose|i: int| 0 <= i < v.len() && v[i] == ':' && forall|j: int| 0 <= j < i ==> v[j] != ':';
        Some((v.subrange(0, i), v.subrange(i + 1, v.len() as int)))
    } else {
        None
    }
}

/// Split a unique reference of the form `NAMESPACE:KEY` at its first
/// colon; without a colon the form is refused. Validating the two parts
/// belongs to the reference rules.
pub fn split_unique_ref(value: &str) -> (r: Result<(String, String), Error>)
    ensures
        match unique_ref_parts(value@) {
            Some((n, k)) => r matches Ok((a, b)) && a@ == n && b@ == k,
            None => r matches Err(e) && e.is(ErrorKind::Validation, "unique-ref must use NAMESPACE:KEY form"@),
        },
{
    let cs = chars_of(value);
    let mut i: usize = 0;
    while i < cs.len() && cs[i] != ':'
        invariant
            i <= cs@.len(),
            cs@ == value@,
            forall|j: int| 0 <= j < i ==> cs@[j] != ':',
        decreases cs@.len() - i,
    {
        i = i + 1;
    }
    if i == cs.len() {
        return Err(Error::Validation(owned("unique-ref must use NAMESPACE:KEY form")));
    }
    proof {
        let v = value@;
        assert(v[i as int] == ':');
        let k = choose|k: int| 0 <= k < v.len() && v[k] == ':' && forall|j: int| 0 <= j < k ==> v[j] != ':';
        if k < i {
            assert(v[k] != ':');
        }
        if k > i {
            assert(v[i as int] != ':');
        }
        assert(k == i);
    }
    let slice = cs.as_slice();
    let ns = string_of(&slice[0..i]);
    let key = string_of(&slice[i + 1..cs.len()]);
    Ok((ns, key))
}

/// Why an open issue is kept off the ready frontier: its assignee, a
/// manual block, unclosed blockers (`blocker_ids` holds at most five of the
/// `blocker_count`), and resource conflicts with other issues.
pub open spec fn exclusion_reasons_spec(
    assignee: Option<Seq<char>>,
    manual_blocked: bool,
    blocker_count: i64,
    blocker_ids: Seq<Seq<char>>,
    conflicts: i64,
) -> Seq<Seq<char>> {
    let a: Seq<Seq<char>> = match assignee {
        Some(x) => seq!["has assignee: "@ + x],
        None => Seq::empty(),
    };
    let b = if manual_blocked { a.push("manually blocked"@) } else { a };
    let c = if blocker_count > 0 {
        if blocker_ids.len() < blocker_count {
            b.push("blocked by "@ + int_text(blocker_count as int) + "+ unclosed issues (including: "@ + join_seq(blocker_ids, ", "@) + ")"@)
        } else {
            b.push("blocked by "@ + int_text(blocker_count as int) + " unclosed issue(s): "@ + join_seq(blocker_ids, ", "@))
        }
    } else {
        b
    };
    if conflicts > 0 {
        c.push("resource conflicts with "@ + int_text(conflicts as int) + " other issue(s)"@)
    } else {
        c
    }
}

/// The reasons an open issue is excluded (see `exclusion_reasons_spec`).
pub fn exclusion_reasons(
    assignee: Option<&str>,
    manual_blocked: Option<bool>,
    blocker_count: i64,
    blocker_ids: &Vec<String>,
    conflicts: i64,
) -> (r: Vec<String>)
    ensures
        sv(r@) == exclusion_reasons_spec(opt_str(assignee), manual_blocked == Some(true), blocker_count, sv(blocker_ids@), conflicts),
{
    let mut reasons: Vec<String> = Vec::new();
    let ghost s0 = sv(reasons@);
    if let Some(a) = assignee {
        reasons.push(cat("has assignee: ", a));
    }
    let ghost s1 = sv(reasons@);
    assert(s1 =~= match opt_str(assignee) {
        Some(x) => seq!["has assignee: "@ + x],
        None => Seq::<Seq<char>>::empty(),
    });
    let blocked = match manual_blocked {
        Some(b) => b,
        None => false,
    };
    if blocked {
        reasons.push(owned("manually blocked"));
    }
    let ghost s2 = sv(reasons@);
    assert(s2 =~= if blocked { s1.push("manually blocked"@) } else { s1 });
    if blocker_count > 0 {
        let ids = join(blocker_ids, ", ");
        let t = if (blocker_ids.len() as i128) < (blocker_count as i128) {
            let mut t = cat3("blocked by ", i64_text(blocker_count).as_str(), "+ unclosed issues (including: ");
            push_str(&mut t, ids.as_str());
            push_str(&mut t, ")");
            t
        } else {
            let mut t = cat3("blocked by ", i64_text(blocker_count).as_str(), " unclosed issue(s): ");
            push_str(&mut t, ids.as_str());
            t
        };
        reasons.push(t);
    }
    let ghost s3 = sv(reasons@);
    assert(blocker_count <= 0 ==> s3 =~= s2);
    if conflicts > 0 {
        reasons.push(cat3("resource conflicts with ", i64_text(conflicts).as_str(), " other issue(s)"));
    }
    assert(sv(reasons@) =~= exclusion_reasons_spec(opt_str(assignee), manual_blocked == Some(true), blocker_count, sv(blocker_ids@), conflicts));
    reasons
}

/// The lines the exclusion report prints for one open issue: ready, or
/// excluded with one line per reason.
pub open spec fn exclusion_lines_spec(id: Seq<char>, title: Seq<char>, reasons: Seq<Seq<char>>) -> Seq<Seq<char>> {
    if reasons.len() == 0 {
        seq!["  \u{2713} "@ + id + " ["@ + title + "] - READY"@]
    } else {
        seq!["  \u{2717} "@ + id + " ["@ + title + "] - EXCLUDED:"@] + reasons.map_values(|m: Seq<char>| "      - "@ + m)
    }
}

/// The report lines for one open issue (see `exclusion_lines_spec`).
pub fn exclusion_lines(id: &str, title: &str, reasons: &Vec<String>) -> (r: Vec<String>)
    ensures
        sv(r@) == exclusion_lines_spec(id@, title@, sv(reasons@)),
{
    let mut out: Vec<String> = Vec::new();
    if reasons.len() == 0 {
        let mut t = cat3("  \u{2713} ", id, " [");
        push_str(&mut t, title);
        push_str(&mut t, "] - READY");
        out.push(t);
        assert(sv(out@) =~= exclusion_lines_spec(id@, title@, sv(reasons@)));
        return out;
    }
    let mut t = cat3("  \u{2717} ", id, " [");
    push_str(&mut t, title);
    push_str(&mut t, "] - EXCLUDED:");
    out.push(t);
    let ghost head = sv(out@);
    let mut i: usize = 0;
    while i < reasons.len()
        invariant
            i <= reasons@.len(),
            head.len() == 1,
            sv(out@) == head + sv(reasons@).take(i as int).map_values(|m: Seq<char>| "      - "@ + m),
        decreases reasons@.len() - i,
    {
        let line = cat("      - ", reasons[i].as_str());
        let ghost before = sv(out@);
        out.push(line);
        assert(sv(out@) =~= before.push(line@));
        assert(sv(reasons@).take(i + 1).map_values(|m: Seq<char>| "      - "@ + m)
            =~= sv(reasons@).take(i as int).map_values(|m: Seq<char>| "      - "@ + m).push("      - "@ + reasons@[i as int]@));
        i = i + 1;
    }
    assert(sv(reasons@).take(reasons@.len() as int) =~= sv(reasons@));
    out
}

/// Whether an empty ready frontier calls for the starvation fallback, and
/// which issues it releases: none when no issue is open at all or no open,
/// unblocked issue is assigned; otherwise every such assigned issue, in
/// claim order.
pub fn starvation_fallback(open_count: i64, assigned_candidates: &Vec<String>) -> (r: Option<Vec<String>>)
    ensures
        open_count == 0 || assigned_candidates@.len() == 0 ==> r is None,
        !(open_count == 0 || assigned_candidates@.len() == 0) ==> (r matches Some(v) && v@ == assigned_candidates@),
{
    if open_count == 0 || assigned_candidates.len() == 0 {
        return None;
    }
    Some(assigned_candidates.clone())
}

/// The line the fallback log records for a recovery at `timestamp`.
pub fn fallback_log_entry(timestamp: &str, bead_ids: &Vec<String>) -> (r: String)
    ensures
        r@ == timestamp@ + " | Fallback triggered | Recovered beads: "@ + join_seq(sv(bead_ids@), ", "@) + "\n"@,
{
    let mut t = cat(timestamp, " | Fallback triggered | Recovered beads: ");
    push_str(&mut t, join(bead_ids, ", ").as_str());
    push_str(&mut t, "\n");
    t
}

/// Why a create request is refused before anything is written: an empty
/// or over-long title (4,096 bytes), a priority outside P0..P4, an empty
/// assignee, a description over 4 MiB, an empty issue type.
pub open spec fn create_problem(
    title: Seq<char>,
    priority: i64,
    assignee: Option<Seq<char>>,
    description: Option<Seq<char>>,
    issue_type: Option<Seq<char>>,
) -> Option<Seq<char>> {
    if title.len() == 0 {
        Some("Title cannot be empty"@)
    } else if utf8_len(title) > 4096 {
        Some("Title cannot exceed 4,096 bytes"@)
    } else if !(0 <= priority <= 4) {
        Some("Priority must be between 0 and 4"@)
    } else if assignee matches Some(a) && a.len() == 0 {
        Some("assignee cannot be empty"@)
    } else if description matches Some(d) && utf8_len(d) > 4 * 1024 * 1024 {
        Some("Description cannot exceed 4 MiB"@)
    } else if issue_type matches Some(t) && t.len() == 0 {
        Some("issue_type cannot be empty"@)
    } else {
        None
    }
}

/// Check a create request's fields (see `create_problem`); refusals are
/// validation errors.
pub fn validate_create_request(
    title: &str,
    priority: i64,
    assignee: Option<&str>,
    description: Option<&str>,
    issue_type: Option<&str>,
) -> (r: Result<(), Error>)
    ensures
        match create_problem(title@, priority, opt_str(assignee), opt_str(description), opt_str(issue_type)) {
            None => r is Ok,
            Some(m) => r matches Err(e) && e.is(ErrorKind::Validation, m),
        },
{
    if chars_of(title).len() == 0 {
        return Err(Error::Validation(owned("Title cannot be empty")));
    }
    if byte_len(title) > 4096 {
        return Err(Error::Validation(owned("Title cannot exceed 4,096 bytes")));
    }
    if !(0 <= priority && priority <= 4) {
        return Err(Error::Validation(owned("Priority must be between 0 and 4")));
    }
    if let Some(a) = assignee {
        if chars_of(a).len() == 0 {
            return Err(Error::Validation(owned("assignee cannot be empty")));
        }
    }
    if let Some(d) = description {
        if byte_len(d) > 4 * 1024 * 1024 {
            return Err(Error::Validation(owned("Description cannot exceed 4 MiB")));
        }
    }
    if let Some(t) = issue_type {
        if chars_of(t).len() == 0 {
            return Err(Error::Validation(owned("issue_type cannot be empty")));
        }
    }
    Ok(())
}

/// What a create finds behind an already bound unique reference: the bound
/// issue, closed or not, or an integrity failure when it is missing.
pub fn existing_create_outcome(issue_id: &str, bound_status: Option<BaseStatus>) -> (r: Result<CreateOutcome, Error>)
    ensures
        match bound_status {
            Some(s) => r == Ok::<CreateOutcome, Error>(CreateOutcome::Existing { closed: s == BaseStatus::Closed }),
            None => r matches Err(e) && e.is(ErrorKind::Integrity, "Unique reference binding points to missing issue "@ + issue_id@),
        },
{
    match bound_status {
        Some(s) => Ok(CreateOutcome::Existing { closed: s.is_closed() }),
        None => Err(Error::Integrity(cat("Unique reference binding points to missing issue ", issue_id))),
    }
}

/// How many fresh identifiers one creation draws before it gives up.
pub const MAX_ID_ATTEMPTS: u32 = 5;

/// `rand::thread_rng().gen::<[u8; 4]>()`, as a vector: four bytes from the
/// thread's random generator. Nothing is claimed of their values.
#[verifier::external_body]
fn random_suffix_bytes() -> (r: Vec<u8>)
    ensures
        r@.len() == 4,
{
    let bytes: [u8; 4] = rand::Rng::gen(&mut rand::thread_rng());
    bytes.to_vec()
}

/// A candidate identifier: the workspace prefix, a hyphen and the bytes in
/// lowercase hexadecimal.
pub open spec fn candidate_id_spec(prefix: Seq<char>, bytes: Seq<u8>) -> Seq<char> {
    prefix + "-"@ + hex_lower(bytes)
}

/// The candidate identifier for `prefix` and the given suffix bytes.
pub fn candidate_id(prefix: &str, bytes: &[u8]) -> (r: String)
    ensures
        r@ == candidate_id_spec(prefix@, bytes@),
{
    let hex = hex_encode(bytes);
    cat3(prefix, "-", hex.as_str())
}

/// A fresh candidate identifier: the prefix, a hyphen and eight lowercase
/// hexadecimal digits of four random bytes.
pub fn draw_candidate_id(prefix: &str) -> (r: String)
    ensures
        exists|b: Seq<u8>| b.len() == 4 && r@ == candidate_id_spec(prefix@, b),
{
    let bytes = random_suffix_bytes();
    let r = candidate_id(prefix, bytes.as_slice());
    assert(bytes@.len() == 4 && r@ == candidate_id_spec(prefix@, bytes@));
    r
}

/// What a creation does after drawing candidate number `attempt` (from 0)
/// and asking the store whether it is taken.
#[derive(Debug, Clone)]
pub enum IdStep {
    /// The candidate is free: it becomes the issue's identifier.
    Accept(String),
    /// The candidate is taken: draw another.
    Retry,
    /// Every attempt was taken.
    GiveUp(Error),
}

/// The message when every candidate was taken.
pub open spec fn id_exhausted_text() -> Seq<char> {
    "Failed to generate unique ID after "@ + int_text(MAX_ID_ATTEMPTS as int) + " attempts"@
}

/// A free candidate is accepted; a taken one is retried until the last of
/// `MAX_ID_ATTEMPTS` attempts, after which the creation fails internally.
pub fn unique_id_step(attempt: u32, candidate: String, exists: bool) -> (r: IdStep)
    ensures
        !exists ==> (r matches IdStep::Accept(id) && id@ == candidate@),
        exists && attempt + 1 < MAX_ID_ATTEMPTS ==> r is Retry,
        exists && attempt + 1 >= MAX_ID_ATTEMPTS ==> (r matches IdStep::GiveUp(e) && e.is(ErrorKind::Internal, id_exhausted_text())),
{
    if !exists {
        IdStep::Accept(candidate)
    } else if attempt < MAX_ID_ATTEMPTS - 1 {
        IdStep::Retry
    } else {
        let n = crate::text::u64_text(MAX_ID_ATTEMPTS as u64);
        IdStep::GiveUp(Error::Internal(cat3("Failed to generate unique ID after ", n.as_str(), " attempts")))
    }
}

/// The ready frontier is the set of open issues with nothing left holding
/// them: an open issue has no exclusion reason exactly when it has no
/// assignee, no manual block, no unclosed blocker and no resource conflict.
pub proof fn law_ready_iff_no_exclusion_reason(
    assignee: Option<Seq<char>>,
    manual_blocked: bool,
    blocker_count: i64,
    blocker_ids: Seq<Seq<char>>,
    conflicts: i64,
)
    ensures
        exclusion_reasons_spec(assignee, manual_blocked, blocker_count, blocker_ids, conflicts).len() == 0
            <==> (assignee is None && !manual_blocked && blocker_count <= 0 && conflicts <= 0),
{
}

} // verus!

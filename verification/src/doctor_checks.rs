//! What each doctor check concludes from the facts it gathered: the counts
//! its queries returned, the files it found, the pointer it read. Running
//! the queries and reading the files happen outside this crate.
use vstd::prelude::*;
use crate::error::{Error, ErrorKind};
use crate::reconcile::{RelationshipVerdict, SyncRelationship, REMOTE_ADVANCED_MARKER, REMOTE_ADVANCED_REMEDY};
use crate::doctor::{StaleInProgressIssue, StaleInProgressReport, chrono_now, chrono_rfc3339, chrono_seconds, parse_chrono_rfc3339, seconds_between, whole_seconds_between};
use crate::text::{cat, cat3, chars_of, first_line, first_line_of, i64_text, int_text, join, join_seq, owned, push_str, str_eq, string_of, sv, trim, trim_seq, u64_text};

verus! {

broadcast use vstd::string::group_string_axioms;

/// `Found {n} {what}`.
pub open spec fn found_text(n: i64, what: Seq<char>) -> Seq<char> {
    "Found "@ + int_text(n as int) + " "@ + what
}

/// The problems a list of counts reports: `Found {n} {what}` for each
/// positive count, in order.
pub open spec fn found_problems(counts: Seq<(i64, Seq<char>)>) -> Seq<Seq<char>>
    decreases counts.len(),
{
    if counts.len() == 0 {
        Seq::empty()
    } else {
        let prev = found_problems(counts.drop_last());
        let c = counts.last();
        if c.0 > 0 {
            prev.push(found_text(c.0, c.1))
        } else {
            prev
        }
    }
}

pub open spec fn counts_view(counts: Seq<(i64, &'static str)>) -> Seq<(i64, Seq<char>)> {
    counts.map_values(|c: (i64, &'static str)| (c.0, c.1@))
}

/// The problem texts of the positive counts, in order.
fn found_list(counts: &Vec<(i64, &'static str)>) -> (r: Vec<String>)
    ensures
        sv(r@) == found_problems(counts_view(counts@)),
{
    let mut out: Vec<String> = Vec::new();
    let mut i: usize = 0;
    while i < counts.len()
        invariant
            i <= counts@.len(),
            sv(out@) == found_problems(counts_view(counts@.take(i as int))),
        decreases counts@.len() - i,
    {
        let (n, what) = counts[i];
        assert(counts_view(counts@.take(i + 1)).drop_last() =~= counts_view(counts@.take(i as int)));
        assert(counts_view(counts@.take(i + 1)).last() == (n, what@));
        if n > 0 {
            let mut t = cat("Found ", i64_text(n).as_str());
            push_str(&mut t, " ");
            push_str(&mut t, what);
            let ghost before = sv(out@);
            out.push(t);
            assert(sv(out@) =~= before.push(found_text(n, what@)));
        }
        i = i + 1;
    }
    assert(counts@.take(counts@.len() as int) =~= counts@);
    out
}

/// A check that lists its problems: clean when there are none, otherwise
/// an integrity error naming them all.
pub open spec fn listed_answer(problems: Seq<Seq<char>>, heading: Seq<char>, clean: Seq<char>) -> Result<Seq<char>, Seq<char>> {
    if problems.len() == 0 {
        Ok(clean)
    } else {
        Err(heading + join_seq(problems, "; "@))
    }
}

/// The answer as the check returns it: its message, or an error of `kind`.
pub open spec fn answers(r: Result<String, Error>, a: Result<Seq<char>, Seq<char>>, kind: ErrorKind) -> bool {
    match a {
        Ok(m) => r matches Ok(s) && s@ == m,
        Err(m) => r matches Err(e) && e.is(kind, m),
    }
}

fn listed(problems: &Vec<String>, heading: &str, clean: String) -> (r: Result<String, Error>)
    ensures
        answers(r, listed_answer(sv(problems@), heading@, clean@), ErrorKind::Integrity),
{
    if problems.len() == 0 {
        Ok(clean)
    } else {
        let listed = join(problems, "; ");
        Err(Error::Integrity(cat(heading, listed.as_str())))
    }
}

/// Schema validity: titles, priorities, closed-state metadata, dangling
/// dependencies and orphaned comments.
pub open spec fn schema_counts(titles: i64, priorities: i64, close_metadata: i64, dangling: i64, orphaned: i64) -> Seq<(i64, Seq<char>)> {
    seq![
        (titles, "issues with invalid titles"@),
        (priorities, "issues with invalid priority values"@),
        (close_metadata, "issues with inconsistent closed status metadata"@),
        (dangling, "dependencies with dangling issue references"@),
        (orphaned, "orphaned comments referencing non-existent issues"@),
    ]
}

/// The schema-validity check from its five counts and the issue count.
pub fn schema_validity_answer(
    invalid_titles: i64,
    invalid_priorities: i64,
    invalid_close_metadata: i64,
    dangling_dependencies: i64,
    orphaned_comments: i64,
    issue_count: i64,
) -> (r: Result<String, Error>)
    ensures
        answers(r, listed_answer(
            found_problems(schema_counts(invalid_titles, invalid_priorities, invalid_close_metadata, dangling_dependencies, orphaned_comments)),
            "Schema validity issues: "@,
            "Schema validity OK: "@ + int_text(issue_count as int) + " issues validated"@,
        ), ErrorKind::Integrity),
{
    let counts: Vec<(i64, &'static str)> = vec![
        (invalid_titles, "issues with invalid titles"),
        (invalid_priorities, "issues with invalid priority values"),
        (invalid_close_metadata, "issues with inconsistent closed status metadata"),
        (dangling_dependencies, "dependencies with dangling issue references"),
        (orphaned_comments, "orphaned comments referencing non-existent issues"),
    ];
    assert(counts_view(counts@) =~= schema_counts(invalid_titles, invalid_priorities, invalid_close_metadata, dangling_dependencies, orphaned_comments));
    let problems = found_list(&counts);
    let clean = cat3("Schema validity OK: ", i64_text(issue_count).as_str(), " issues validated");
    listed(&problems, "Schema validity issues: ", clean)
}

pub open spec fn comment_counts(null_ids: i64, empty_bodies: i64, invalid_replies: i64) -> Seq<(i64, Seq<char>)> {
    seq![
        (null_ids, "comments with null issue_id"@),
        (empty_bodies, "comments with empty body"@),
        (invalid_replies, "comments with invalid reply_to references"@),
    ]
}

/// The comments-integrity check from its three counts and the comment count.
pub fn comments_integrity_answer(null_issue_ids: i64, empty_bodies: i64, invalid_replies: i64, comment_count: i64) -> (r: Result<String, Error>)
    ensures
        answers(r, listed_answer(
            found_problems(comment_counts(null_issue_ids, empty_bodies, invalid_replies)),
            "Comments integrity issues: "@,
            "Comments integrity OK: "@ + int_text(comment_count as int) + " comments validated"@,
        ), ErrorKind::Integrity),
{
    let counts: Vec<(i64, &'static str)> = vec![
        (null_issue_ids, "comments with null issue_id"),
        (empty_bodies, "comments with empty body"),
        (invalid_replies, "comments with invalid reply_to references"),
    ];
    assert(counts_view(counts@) =~= comment_counts(null_issue_ids, empty_bodies, invalid_replies));
    let problems = found_list(&counts);
    let clean = cat3("Comments integrity OK: ", i64_text(comment_count).as_str(), " comments validated");
    listed(&problems, "Comments integrity issues: ", clean)
}

pub open spec fn outcome_counts(orphaned: i64, missing_events: i64, receipt_ids: i64, hashes: i64, evidence: i64) -> Seq<(i64, Seq<char>)> {
    seq![
        (orphaned, "attempt outcomes referencing non-existent issues"@),
        (missing_events, "attempt outcomes without corresponding attempt_resolved events"@),
        (receipt_ids, "attempt outcomes with invalid receipt_id format (should start with 'ao-')"@),
        (hashes, "attempt outcomes with invalid canonical_request_hash (expected 64-char hex)"@),
        (evidence, "attempt outcomes with malformed evidence_refs_json"@),
    ]
}

/// The attempt-outcomes check: a legacy workspace without the table is
/// fine; otherwise its five counts, and the outcome count when clean.
pub fn attempt_outcomes_answer(
    table_exists: bool,
    orphaned: i64,
    missing_events: i64,
    invalid_receipt_ids: i64,
    invalid_hashes: i64,
    invalid_evidence: i64,
    outcome_count: i64,
) -> (r: Result<String, Error>)
    ensures
        !table_exists ==> (r matches Ok(m) && m@ == "Attempt outcomes table not present (legacy workspace)"@),
        table_exists ==> answers(r, listed_answer(
            found_problems(outcome_counts(orphaned, missing_events, invalid_receipt_ids, invalid_hashes, invalid_evidence)),
            "Attempt outcomes integrity issues: "@,
            "Attempt outcomes integrity OK: "@ + int_text(outcome_count as int) + " outcomes validated"@,
        ), ErrorKind::Integrity),
{
    if !table_exists {
        return Ok(owned("Attempt outcomes table not present (legacy workspace)"));
    }
    let counts: Vec<(i64, &'static str)> = vec![
        (orphaned, "attempt outcomes referencing non-existent issues"),
        (missing_events, "attempt outcomes without corresponding attempt_resolved events"),
        (invalid_receipt_ids, "attempt outcomes with invalid receipt_id format (should start with 'ao-')"),
        (invalid_hashes, "attempt outcomes with invalid canonical_request_hash (expected 64-char hex)"),
        (invalid_evidence, "attempt outcomes with malformed evidence_refs_json"),
    ];
    assert(counts_view(counts@) =~= outcome_counts(orphaned, missing_events, invalid_receipt_ids, invalid_hashes, invalid_evidence));
    let problems = found_list(&counts);
    let clean = cat3("Attempt outcomes integrity OK: ", i64_text(outcome_count).as_str(), " outcomes validated");
    listed(&problems, "Attempt outcomes integrity issues: ", clean)
}

/// SQLite's integrity answer: `ok` passes on to the foreign-key answer,
/// anything else is an integrity failure.
pub open spec fn database_answer(integrity: Option<Seq<char>>, fk_check: Seq<char>) -> Result<Seq<char>, Seq<char>> {
    match integrity {
        Some(m) => if m == "ok"@ {
            if fk_check == "ok"@ {
                Ok("Database integrity check passed"@)
            } else {
                Err("Foreign key constraint violations: "@ + fk_check)
            }
        } else {
            Err("Database integrity check failed: "@ + m)
        },
        None => Err("Integrity check returned no result"@),
    }
}

/// The database-integrity check from `PRAGMA integrity_check`'s first row
/// and `PRAGMA foreign_key_check`'s first column (`ok` when it has no row).
pub fn database_integrity_answer(integrity: Option<&str>, fk_check: &str) -> (r: Result<String, Error>)
    ensures
        answers(r, database_answer(crate::git_commit::opt_str(integrity), fk_check@), ErrorKind::Integrity),
{
    match integrity {
        Some(m) => {
            if str_eq(m, "ok") {
                if str_eq(fk_check, "ok") {
                    Ok(owned("Database integrity check passed"))
                } else {
                    Err(Error::Integrity(cat("Foreign key constraint violations: ", fk_check)))
                }
            } else {
                Err(Error::Integrity(cat("Database integrity check failed: ", m)))
            }
        },
        None => Err(Error::Integrity(owned("Integrity check returned no result"))),
    }
}

/// The workspace-config check: the config file, the database, and the
/// checkpoint and receipts directories must exist, in that order.
pub open spec fn workspace_answer(config: bool, db: bool, checkpoint: bool, receipts: bool, uuid: Seq<char>, prefix: Seq<char>) -> Result<Seq<char>, Seq<char>> {
    if !config {
        Err("config.json not found"@)
    } else if !db {
        Err("beads.db not found"@)
    } else if !checkpoint {
        Err("checkpoint directory not found"@)
    } else if !receipts {
        Err("receipts directory not found"@)
    } else {
        Ok("Workspace config valid: UUID="@ + uuid + ", prefix="@ + prefix)
    }
}

pub fn workspace_config_answer(
    config_exists: bool,
    db_exists: bool,
    checkpoint_dir_exists: bool,
    receipts_dir_exists: bool,
    uuid: &str,
    prefix: &str,
) -> (r: Result<String, Error>)
    ensures
        answers(r, workspace_answer(config_exists, db_exists, checkpoint_dir_exists, receipts_dir_exists, uuid@, prefix@), ErrorKind::Workspace),
{
    if !config_exists {
        return Err(Error::Workspace(owned("config.json not found")));
    }
    if !db_exists {
        return Err(Error::Workspace(owned("beads.db not found")));
    }
    if !checkpoint_dir_exists {
        return Err(Error::Workspace(owned("checkpoint directory not found")));
    }
    if !receipts_dir_exists {
        return Err(Error::Workspace(owned("receipts directory not found")));
    }
    let mut m = cat("Workspace config valid: UUID=", uuid);
    push_str(&mut m, ", prefix=");
    push_str(&mut m, prefix);
    Ok(m)
}

/// The temporary-files check from the number of `.tmp` files found.
pub fn temporary_files_answer(temp_count: u64) -> (r: Result<String, Error>)
    ensures
        temp_count == 0 ==> (r matches Ok(m) && m@ == "No orphaned temporary files found"@),
        temp_count > 0 ==> (r matches Err(e) && e.is(ErrorKind::Workspace,
            "Found "@ + int_text(temp_count as int) + " temporary file(s) that can be cleaned up with --repair"@)),
{
    if temp_count == 0 {
        Ok(owned("No orphaned temporary files found"))
    } else {
        Err(Error::Workspace(cat3("Found ", u64_text(temp_count).as_str(), " temporary file(s) that can be cleaned up with --repair")))
    }
}

/// The refusal for events from another store without a fork receipt.
pub open spec fn divergence_text(mismatched: i64) -> Seq<char> {
    "Workspace has "@ + int_text(mismatched as int)
        + " events from a different store UUID without a fork receipt. This indicates a cloned workspace that needs explicit forking. Run 'bead sync fork --actor <WHO> [--reason <WHY>]' to create a distinct identity."@
}

/// The same-UUID divergence check: a forked workspace is fine; events from
/// another store without a fork receipt are an integrity failure.
/// `mismatched_events` counts only when the workspace has events.
pub fn uuid_divergence_answer(fork_receipts: i64, total_events: i64, mismatched_events: i64) -> (r: Result<String, Error>)
    ensures
        fork_receipts > 0 ==> (r matches Ok(m) && m@ == "Workspace is a fork ("@ + int_text(fork_receipts as int) + " fork receipts)"@),
        fork_receipts <= 0 && total_events > 0 && mismatched_events > 0 ==> (r matches Err(e)
            && e.is(ErrorKind::Integrity, divergence_text(mismatched_events))),
        fork_receipts <= 0 && !(total_events > 0 && mismatched_events > 0) ==> (r matches Ok(m)
            && m@ == "No UUID divergence detected"@),
{
    if fork_receipts > 0 {
        return Ok(cat3("Workspace is a fork (", i64_text(fork_receipts).as_str(), " fork receipts)"));
    }
    if total_events > 0 && mismatched_events > 0 {
        return Err(Error::Integrity(cat3("Workspace has ", i64_text(mismatched_events).as_str(),
            " events from a different store UUID without a fork receipt. This indicates a cloned workspace that needs explicit forking. Run 'bead sync fork --actor <WHO> [--reason <WHY>]' to create a distinct identity.")));
    }
    Ok(owned("No UUID divergence detected"))
}

/// One inconsistent issue as the tier check lists it.
pub open spec fn tier_example(t: (String, i64, i64)) -> Seq<char> {
    t.0@ + " (failures="@ + int_text(t.1 as int) + ", tier="@ + int_text(t.2 as int) + ")"@
}

/// The tier-consistency warning for the (at most twenty) inconsistent
/// issues the query returned: the count, the first five, and how many more.
pub open spec fn tier_warning(bad: Seq<(String, i64, i64)>) -> Seq<char> {
    let shown = if bad.len() < 5 { bad.len() as int } else { 5 };
    "Found "@ + int_text(bad.len() as int) + " issues with inconsistent attempt_tier vs consecutive_failures: "@
        + join_seq(bad.take(shown).map_values(|t: (String, i64, i64)| tier_example(t)), ", "@)
        + (if bad.len() > 5 { " (and "@ + int_text(bad.len() - 5) + " more)"@ } else { Seq::<char>::empty() })
        + ". This may indicate manual tier adjustments or legacy data. To reset: bead update <id> --reset-attempt-tier"@
}

/// The attempt-tier consistency check: not applicable without the
/// outcomes table; a warning listing inconsistent issues; else the count.
pub fn attempt_tier_answer(table_exists: bool, inconsistent: &Vec<(String, i64, i64)>, issue_count: i64) -> (r: Result<String, Error>)
    ensures
        !table_exists ==> (r matches Ok(m) && m@ == "Attempt tier consistency not applicable (legacy workspace)"@),
        table_exists && inconsistent@.len() == 0 ==> (r matches Ok(m)
            && m@ == "Attempt tier consistency OK: "@ + int_text(issue_count as int) + " issues validated"@),
        table_exists && inconsistent@.len() > 0 ==> (r matches Err(e) && e.is(ErrorKind::Workspace, tier_warning(inconsistent@))),
{
    if !table_exists {
        return Ok(owned("Attempt tier consistency not applicable (legacy workspace)"));
    }
    if inconsistent.len() == 0 {
        return Ok(cat3("Attempt tier consistency OK: ", i64_text(issue_count).as_str(), " issues validated"));
    }
    let shown: usize = if inconsistent.len() < 5 { inconsistent.len() } else { 5 };
    let mut examples: Vec<String> = Vec::new();
    let mut i: usize = 0;
    while i < shown
        invariant
            shown <= inconsistent@.len(),
            i <= shown,
            sv(examples@) == inconsistent@.take(i as int).map_values(|t: (String, i64, i64)| tier_example(t)),
        decreases shown - i,
    {
        let (id, failures, tier) = &inconsistent[i];
        let mut t = cat(id.as_str(), " (failures=");
        push_str(&mut t, i64_text(*failures).as_str());
        push_str(&mut t, ", tier=");
        push_str(&mut t, i64_text(*tier).as_str());
        push_str(&mut t, ")");
        let ghost before = sv(examples@);
        examples.push(t);
        assert(sv(examples@) =~= before.push(tier_example(inconsistent@[i as int])));
        assert(inconsistent@.take(i + 1).map_values(|t: (String, i64, i64)| tier_example(t))
            =~= inconsistent@.take(i as int).map_values(|t: (String, i64, i64)| tier_example(t)).push(tier_example(inconsistent@[i as int])));
        i = i + 1;
    }
    let mut m = cat3("Found ", u64_text(inconsistent.len() as u64).as_str(), " issues with inconsistent attempt_tier vs consecutive_failures: ");
    push_str(&mut m, join(&examples, ", ").as_str());
    if inconsistent.len() > 5 {
        push_str(&mut m, " (and ");
        push_str(&mut m, u64_text((inconsistent.len() - 5) as u64).as_str());
        push_str(&mut m, " more)");
    }
    push_str(&mut m, ". This may indicate manual tier adjustments or legacy data. To reset: bead update <id> --reset-attempt-tier");
    proof {
        if inconsistent@.len() <= 5 {
            assert(m@ =~= tier_warning(inconsistent@));
        } else {
            assert(m@ =~= tier_warning(inconsistent@));
        }
    }
    Err(Error::Workspace(m))
}

/// The first `n` characters of `s` (all of them when it is shorter).
pub open spec fn prefix_of(s: Seq<char>, n: int) -> Seq<char> {
    if s.len() <= n { s } else { s.take(n) }
}

fn take_chars(s: &str, n: usize) -> (r: String)
    ensures
        r@ == prefix_of(s@, n as int),
{
    let cs = chars_of(s);
    let mut kept: Vec<char> = Vec::new();
    let mut i: usize = 0;
    while i < cs.len() && i < n
        invariant
            cs@ == s@,
            i <= cs@.len(),
            i <= n,
            kept@ == cs@.take(i as int),
        decreases cs@.len() - i,
    {
        kept.push(cs[i]);
        assert(cs@.take(i + 1) =~= cs@.take(i as int).push(cs@[i as int]));
        i = i + 1;
    }
    assert(cs@.len() <= n ==> cs@.take(cs@.len() as int) =~= cs@);
    string_of(kept.as_slice())
}

/// The fields of the `current.json` pointer the checkpoint check reads;
/// `None` where the pointer lacks the field or it has another type.
#[derive(Debug, Clone)]
pub struct PointerFacts {
    pub generation_id: Option<String>,
    pub snapshot_sequence: Option<i64>,
    pub root_path: Option<String>,
    pub root_sha256: Option<String>,
    pub total_record_count: Option<i64>,
}

pub open spec fn text_or_empty(o: Option<String>) -> Seq<char> {
    match o {
        Some(s) => s@,
        None => Seq::empty(),
    }
}

pub open spec fn int_or_zero(o: Option<i64>) -> int {
    match o {
        Some(n) => n as int,
        None => 0,
    }
}

/// The forensic checkpoint check, in order: the sync relationship
/// (remote-advanced is a workspace diagnostic, a covered-ahead integrity
/// failure names its qualifier), then the stored generation, the covered
/// sequence, dirtiness, the root object's presence and its hash.
/// `actual_hash` is `None` when the root object could not be hashed.
pub open spec fn forensic_answer(
    relationship: SyncRelationship,
    qualifier: Option<Seq<char>>,
    p: PointerFacts,
    covered: i64,
    stored_generation: Seq<char>,
    current: i64,
    root_exists: bool,
    actual_hash: Option<Seq<char>>,
) -> Result<Seq<char>, (ErrorKind, Seq<char>)> {
    let generation = text_or_empty(p.generation_id);
    let pointer_sequence = int_or_zero(p.snapshot_sequence);
    let root_hash = text_or_empty(p.root_sha256);
    let root = text_or_empty(p.root_path);
    if relationship == SyncRelationship::RemoteAdvanced {
        Err((ErrorKind::Workspace, REMOTE_ADVANCED_MARKER@ + ": pulled checkpoint (covered "@ + int_text(pointer_sequence)
            + ") is ahead of the live store (live "@ + int_text(current as int) + "); "@ + REMOTE_ADVANCED_REMEDY@))
    } else if relationship == SyncRelationship::CoveredAheadIntegrityFailure {
        Err((ErrorKind::Integrity, "covered-ahead integrity failure: "@ + match qualifier {
            Some(q) => q,
            None => "the checkpoint is ahead of the live store but failed its qualification"@,
        }))
    } else if stored_generation.len() > 0 && stored_generation != generation {
        Err((ErrorKind::Integrity, "Generation ID mismatch: database="@ + stored_generation + ", pointer="@ + generation))
    } else if pointer_sequence != covered {
        Err((ErrorKind::Integrity, "Sequence mismatch: pointer="@ + int_text(pointer_sequence) + ", database="@ + int_text(covered as int)))
    } else if covered < current {
        Err((ErrorKind::Workspace, "Checkpoint is dirty: covered="@ + int_text(covered as int) + ", current="@ + int_text(current as int)))
    } else if !root_exists {
        Err((ErrorKind::Integrity, "Root object file missing: "@ + root))
    } else if actual_hash matches Some(h) && root_hash != h {
        Err((ErrorKind::Integrity, "Root hash mismatch: pointer="@ + root_hash + ", actual="@ + actual_hash->0))
    } else {
        Ok("Forensic checkpoint valid: gen="@ + generation + ", covered="@ + int_text(covered as int) + ", records="@
            + int_text(int_or_zero(p.total_record_count)) + ", hash="@ + prefix_of(root_hash, 8))
    }
}

pub open spec fn answers_kind(r: Result<String, Error>, a: Result<Seq<char>, (ErrorKind, Seq<char>)>) -> bool {
    match a {
        Ok(m) => r matches Ok(s) && s@ == m,
        Err((k, m)) => r matches Err(e) && e.is(k, m),
    }
}

fn text_of(o: &Option<String>) -> (r: String)
    ensures
        r@ == text_or_empty(*o),
{
    match o {
        Some(s) => s.clone(),
        None => String::new(),
    }
}

fn int_of(o: Option<i64>) -> (r: i64)
    ensures
        r as int == int_or_zero(o),
{
    match o {
        Some(n) => n,
        None => 0,
    }
}

/// The forensic checkpoint check (see `forensic_answer`).
pub fn forensic_checkpoint_answer(
    relationship: &RelationshipVerdict,
    pointer: &PointerFacts,
    covered_sequence: i64,
    stored_generation: &str,
    current_sequence: i64,
    root_exists: bool,
    actual_hash: Option<&str>,
) -> (r: Result<String, Error>)
    ensures
        answers_kind(r, forensic_answer(relationship.relationship, crate::git::opt_text(relationship.failed_qualifier), *pointer,
            covered_sequence, stored_generation@, current_sequence, root_exists, crate::git_commit::opt_str(actual_hash))),
{
    let generation = text_of(&pointer.generation_id);
    let pointer_sequence = int_of(pointer.snapshot_sequence);
    let root_hash = text_of(&pointer.root_sha256);
    let root = text_of(&pointer.root_path);
    match relationship.relationship {
        SyncRelationship::RemoteAdvanced => {
            let mut m = cat(REMOTE_ADVANCED_MARKER, ": pulled checkpoint (covered ");
            push_str(&mut m, i64_text(pointer_sequence).as_str());
            push_str(&mut m, ") is ahead of the live store (live ");
            push_str(&mut m, i64_text(current_sequence).as_str());
            push_str(&mut m, "); ");
            push_str(&mut m, REMOTE_ADVANCED_REMEDY);
            return Err(Error::Workspace(m));
        },
        SyncRelationship::CoveredAheadIntegrityFailure => {
            let q = match &relationship.failed_qualifier {
                Some(q) => q.clone(),
                None => owned("the checkpoint is ahead of the live store but failed its qualification"),
            };
            return Err(Error::Integrity(cat("covered-ahead integrity failure: ", q.as_str())));
        },
        _ => {},
    }
    proof {
        reveal_strlit("");
        assert(stored_generation@.len() == 0 ==> stored_generation@ =~= ""@);
    }
    if !str_eq(stored_generation, "") && !str_eq(stored_generation, generation.as_str()) {
        let mut m = cat("Generation ID mismatch: database=", stored_generation);
        push_str(&mut m, ", pointer=");
        push_str(&mut m, generation.as_str());
        return Err(Error::Integrity(m));
    }
    if pointer_sequence != covered_sequence {
        let mut m = cat("Sequence mismatch: pointer=", i64_text(pointer_sequence).as_str());
        push_str(&mut m, ", database=");
        push_str(&mut m, i64_text(covered_sequence).as_str());
        return Err(Error::Integrity(m));
    }
    if covered_sequence < current_sequence {
        let mut m = cat("Checkpoint is dirty: covered=", i64_text(covered_sequence).as_str());
        push_str(&mut m, ", current=");
        push_str(&mut m, i64_text(current_sequence).as_str());
        return Err(Error::Workspace(m));
    }
    if !root_exists {
        return Err(Error::Integrity(cat("Root object file missing: ", root.as_str())));
    }
    if let Some(h) = actual_hash {
        if !str_eq(root_hash.as_str(), h) {
            let mut m = cat("Root hash mismatch: pointer=", root_hash.as_str());
            push_str(&mut m, ", actual=");
            push_str(&mut m, h);
            return Err(Error::Integrity(m));
        }
    }
    let mut m = cat("Forensic checkpoint valid: gen=", generation.as_str());
    push_str(&mut m, ", covered=");
    push_str(&mut m, i64_text(covered_sequence).as_str());
    push_str(&mut m, ", records=");
    push_str(&mut m, i64_text(int_of(pointer.total_record_count)).as_str());
    push_str(&mut m, ", hash=");
    push_str(&mut m, take_chars(root_hash.as_str(), 8).as_str());
    Ok(m)
}

/// `serde_json::from_str::<serde_json::Value>(s)` succeeds: `s` is one JSON
/// document. The grammar is named, not spelled out.
pub uninterp spec fn parses_as_json(s: Seq<char>) -> bool;

/// Whether the JSON value `s` parses to is an object
/// (`serde_json::Value::is_object`). Meaningful where `s` parses.
pub uninterp spec fn json_is_object(s: Seq<char>) -> bool;

/// `serde_json::from_str::<serde_json::Value>(s)`: `None` when `s` does not
/// parse, otherwise whether the value is an object.
#[verifier::external_body]
pub(crate) fn json_kind(s: &str) -> (r: Option<bool>)
    ensures
        r is Some <==> parses_as_json(s@),
        r matches Some(b) ==> b == json_is_object(s@),
{
    match serde_json::from_str::<serde_json::Value>(s) {
        Ok(v) => Some(v.is_object()),
        Err(_) => None,
    }
}

/// The legacy `issues.jsonl` checkpoint check: a missing file reports the
/// event count; a dirty checkpoint, an unparsable first line, or a stored
/// hash that differs from the file's are refused. `first_line_text` is the
/// file's text when it could be read; `actual_hash` is `None` when the file
/// could not be hashed.
pub open spec fn legacy_answer(
    jsonl_exists: bool,
    text: Option<Seq<char>>,
    covered: i64,
    current: i64,
    stored_hash: Seq<char>,
    actual_hash: Option<Seq<char>>,
) -> Result<Seq<char>, (ErrorKind, Seq<char>)> {
    if !jsonl_exists {
        Ok("No checkpoint file found ("@ + int_text(current as int) + " events)"@)
    } else if covered < current {
        Err((ErrorKind::Workspace, "Checkpoint is dirty: covered="@ + int_text(covered as int) + ", current="@ + int_text(current as int)))
    } else if text matches Some(t) && trim_seq(first_line(t)).len() > 0 && !parses_as_json(trim_seq(first_line(t))) {
        Err((ErrorKind::Integrity, "issues.jsonl contains invalid JSON"@))
    } else if stored_hash.len() > 0 {
        if actual_hash matches Some(h) && stored_hash != h {
            Err((ErrorKind::Integrity, "Checkpoint hash mismatch: stored="@ + stored_hash + ", actual="@ + actual_hash->0))
        } else {
            Ok("Checkpoint state clean: covered="@ + int_text(covered as int) + ", hash="@ + prefix_of(stored_hash, 8))
        }
    } else {
        Ok("Checkpoint state clean: covered="@ + int_text(covered as int) + ", no hash"@)
    }
}

/// The legacy checkpoint check (see `legacy_answer`).
pub fn legacy_checkpoint_answer(
    jsonl_exists: bool,
    text: Option<&str>,
    covered_sequence: i64,
    current_sequence: i64,
    stored_hash: &str,
    actual_hash: Option<&str>,
) -> (r: Result<String, Error>)
    ensures
        answers_kind(r, legacy_answer(jsonl_exists, crate::git_commit::opt_str(text), covered_sequence, current_sequence,
            stored_hash@, crate::git_commit::opt_str(actual_hash))),
{
    if !jsonl_exists {
        return Ok(cat3("No checkpoint file found (", i64_text(current_sequence).as_str(), " events)"));
    }
    if covered_sequence < current_sequence {
        let mut m = cat("Checkpoint is dirty: covered=", i64_text(covered_sequence).as_str());
        push_str(&mut m, ", current=");
        push_str(&mut m, i64_text(current_sequence).as_str());
        return Err(Error::Workspace(m));
    }
    proof {
        reveal_strlit("");
        assert(stored_hash@.len() == 0 ==> stored_hash@ =~= ""@);
    }
    if let Some(t) = text {
        let line = first_line_of(t);
        let trimmed = trim(line.as_str());
        assert(trimmed@.len() == 0 ==> trimmed@ =~= ""@);
        if !str_eq(trimmed.as_str(), "") && json_kind(trimmed.as_str()).is_none() {
            return Err(Error::Integrity(owned("issues.jsonl contains invalid JSON")));
        }
    }
    if !str_eq(stored_hash, "") {
        if let Some(h) = actual_hash {
            if !str_eq(stored_hash, h) {
                let mut m = cat("Checkpoint hash mismatch: stored=", stored_hash);
                push_str(&mut m, ", actual=");
                push_str(&mut m, h);
                return Err(Error::Integrity(m));
            }
        }
        let mut m = cat("Checkpoint state clean: covered=", i64_text(covered_sequence).as_str());
        push_str(&mut m, ", hash=");
        push_str(&mut m, take_chars(stored_hash, 8).as_str());
        Ok(m)
    } else {
        Ok(cat3("Checkpoint state clean: covered=", i64_text(covered_sequence).as_str(), ", no hash"))
    }
}

/// How old the last export is at instant `now`, in whole seconds, when
/// its time parses.
pub open spec fn export_age(export_time: Option<Seq<char>>, now: (int, int)) -> Option<int> {
    match export_time {
        Some(t) => match chrono_rfc3339(t) {
            Ok(then) => Some(whole_seconds_between(now, then)),
            Err(_) => None,
        },
        None => None,
    }
}

/// The age of the last export at instant `now` (whole seconds and
/// nanoseconds).
pub fn export_age_at(export_time: Option<&str>, now: (i64, u32)) -> (r: Option<i64>)
    requires
        chrono_seconds(now.0 as int),
        now.1 < 2_000_000_000,
    ensures
        match export_age(crate::git_commit::opt_str(export_time), (now.0 as int, now.1 as int)) {
            Some(a) => r matches Some(b) && b as int == a,
            None => r is None,
        },
{
    match export_time {
        Some(t) => match parse_chrono_rfc3339(t) {
            Ok(then) => Some(seconds_between(now, then)),
            Err(_) => None,
        },
        None => None,
    }
}

/// The age of the last export now, by the clock: that of `export_age_at`
/// at some instant.
pub fn export_age_now(export_time: Option<&str>) -> (r: Option<i64>)
    ensures
        exists|now: (int, int)| chrono_seconds(now.0) && 0 <= now.1 < 2_000_000_000
            && match #[trigger] export_age(crate::git_commit::opt_str(export_time), now) {
                Some(a) => r matches Some(b) && b as int == a,
                None => r is None,
            },
{
    let now = chrono_now();
    let r = export_age_at(export_time, now);
    assert(chrono_seconds(now.0 as int) && 0 <= now.1 < 2_000_000_000);
    r
}

/// The freshness note appended to a passing checkpoint check: the age in
/// seconds for a forensic checkpoint; for a legacy one, hours once it is
/// over an hour old.
pub open spec fn freshness_note(forensic: bool, age: Option<i64>) -> Seq<char> {
    match age {
        Some(a) => if !forensic && a > 3600 {
            " ("@ + int_text(a as int / 3600) + " hours old, stale)"@
        } else {
            " ("@ + int_text(a as int) + " seconds old)"@
        },
        None => " (age unknown)"@,
    }
}

/// The checkpoint-freshness check: the forensic or legacy check's message
/// with the freshness note; a failure passes through unchanged.
pub fn checkpoint_freshness_answer(check: Result<String, Error>, forensic: bool, age: Option<i64>) -> (r: Result<String, Error>)
    ensures
        match check {
            Ok(m) => r matches Ok(s) && s@ == m@ + freshness_note(forensic, age),
            Err(e) => r == Err::<String, Error>(e),
        },
{
    let m = match check {
        Ok(m) => m,
        Err(e) => {
            return Err(e);
        },
    };
    let note = match age {
        Some(a) => {
            if !forensic && a > 3600 {
                cat3(" (", i64_text(a / 3600).as_str(), " hours old, stale)")
            } else {
                cat3(" (", i64_text(a).as_str(), " seconds old)")
            }
        },
        None => owned(" (age unknown)"),
    };
    Ok(cat(m.as_str(), note.as_str()))
}

pub open spec fn name_or_none(o: Option<String>) -> Seq<char> {
    match o {
        Some(s) => s@,
        None => "none"@,
    }
}

/// The backup-generations check: each pointer naming a generation counts
/// one; a non-empty objects directory makes it a sharded backup.
/// `object_count` is `None` when there is no readable objects directory.
pub open spec fn generations_answer(dir_exists: bool, current: Option<String>, previous: Option<String>, object_count: Option<u64>) -> Seq<char> {
    let count = (if current is Some { 1int } else { 0 }) + (if previous is Some { 1int } else { 0 });
    if !dir_exists {
        "No checkpoint directory found"@
    } else if object_count matches Some(n) && n > 0 {
        "Sharded backup: "@ + int_text(count) + " generations (latest: "@ + name_or_none(current) + ", previous: "@
            + name_or_none(previous) + "), "@ + int_text(object_count->0 as int) + " objects"@
    } else {
        "Backup generations: "@ + int_text(count) + " (latest: "@ + name_or_none(current) + ", previous: "@ + name_or_none(previous) + ")"@
    }
}

/// The backup-generations check (see `generations_answer`); it never fails.
pub fn backup_generations_answer(
    dir_exists: bool,
    current_generation: Option<String>,
    previous_generation: Option<String>,
    object_count: Option<u64>,
) -> (r: Result<String, Error>)
    ensures
        r matches Ok(m) && m@ == generations_answer(dir_exists, current_generation, previous_generation, object_count),
{
    if !dir_exists {
        return Ok(owned("No checkpoint directory found"));
    }
    let count: u64 = (if current_generation.is_some() { 1 } else { 0 }) + (if previous_generation.is_some() { 1 } else { 0 });
    let latest = match &current_generation {
        Some(g) => g.clone(),
        None => owned("none"),
    };
    let prev = match &previous_generation {
        Some(g) => g.clone(),
        None => owned("none"),
    };
    match object_count {
        Some(n) => {
            if n > 0 {
                let mut m = cat3("Sharded backup: ", u64_text(count).as_str(), " generations (latest: ");
                push_str(&mut m, latest.as_str());
                push_str(&mut m, ", previous: ");
                push_str(&mut m, prev.as_str());
                push_str(&mut m, "), ");
                push_str(&mut m, u64_text(n).as_str());
                push_str(&mut m, " objects");
                return Ok(m);
            }
        },
        None => {},
    }
    let mut m = cat3("Backup generations: ", u64_text(count).as_str(), " (latest: ");
    push_str(&mut m, latest.as_str());
    push_str(&mut m, ", previous: ");
    push_str(&mut m, prev.as_str());
    push_str(&mut m, ")");
    Ok(m)
}

/// `serde_json::from_str::<Vec<String>>(s)`: the strings of a JSON array
/// of strings, or `None` when `s` is not one.
pub uninterp spec fn json_string_list(s: Seq<char>) -> Option<Seq<Seq<char>>>;

/// `serde_json::from_str::<Vec<String>>(s)`, with the error dropped.
#[verifier::external_body]
fn parse_string_list(s: &str) -> (r: Option<Vec<String>>)
    ensures
        match r {
            Some(v) => json_string_list(s@) == Some(sv(v@)),
            None => json_string_list(s@) is None,
        },
{
    serde_json::from_str::<Vec<String>>(s).ok()
}

/// How many colons a reference holds.
pub open spec fn colons(r: Seq<char>) -> nat {
    r.filter(|c: char| c == ':').len()
}

/// An evidence list is well formed when it is a JSON array of strings each
/// of the form `NAMESPACE:VALUE` (exactly one colon).
pub open spec fn evidence_ok(row: Seq<char>) -> bool {
    match json_string_list(row) {
        Some(refs) => forall|k: int| 0 <= k < refs.len() ==> colons(#[trigger] refs[k]) == 1,
        None => false,
    }
}

/// The malformed evidence lists among the first `n` rows.
pub open spec fn malformed_count(rows: Seq<Seq<char>>, n: nat) -> nat
    decreases n,
{
    if n == 0 {
        0
    } else {
        malformed_count(rows, (n - 1) as nat) + if evidence_ok(rows[n - 1]) { 0nat } else { 1nat }
    }
}

fn colon_count(s: &str) -> (r: u64)
    ensures
        r as nat == colons(s@),
{
    let cs = chars_of(s);
    let mut n: u64 = 0;
    let mut i: usize = 0;
    while i < cs.len()
        invariant
            cs@ == s@,
            i <= cs@.len(),
            n as nat == cs@.take(i as int).filter(|c: char| c == ':').len(),
            n <= i,
        decreases cs@.len() - i,
    {
        proof {
            reveal_with_fuel(Seq::filter, 1);
            assert(cs@.take(i + 1).drop_last() =~= cs@.take(i as int));
        }
        if cs[i] == ':' {
            n = n + 1;
        }
        i = i + 1;
    }
    assert(cs@.take(cs@.len() as int) =~= cs@);
    n
}

/// The number of stored evidence lists that are malformed (see
/// `evidence_ok`).
pub fn malformed_evidence_count(rows: &Vec<String>) -> (r: u64)
    ensures
        r as nat == malformed_count(sv(rows@), rows@.len()),
{
    let mut bad: u64 = 0;
    let mut i: usize = 0;
    while i < rows.len()
        invariant
            i <= rows@.len(),
            bad as nat == malformed_count(sv(rows@), i as nat),
            bad <= i,
        decreases rows@.len() - i,
    {
        let ok = match parse_string_list(rows[i].as_str()) {
            None => false,
            Some(refs) => {
                let mut all = true;
                let mut k: usize = 0;
                while k < refs.len()
                    invariant
                        k <= refs@.len(),
                        all == forall|m: int| 0 <= m < k ==> colons(#[trigger] sv(refs@)[m]) == 1,
                    decreases refs@.len() - k,
                {
                    let c = colon_count(refs[k].as_str());
                    assert(sv(refs@)[k as int] == refs@[k as int]@);
                    if c != 1 {
                        all = false;
                    }
                    k = k + 1;
                }
                assert(sv(refs@).len() == refs@.len());
                all
            },
        };
        assert(sv(rows@)[i as int] == rows@[i as int]@);
        assert(ok == evidence_ok(sv(rows@)[i as int]));
        if !ok {
            bad = bad + 1;
        }
        i = i + 1;
    }
    bad
}

/// The stale-claim configuration version this build understands.
pub const STALE_IN_PROGRESS_CONFIG_VERSION: u32 = 1;

/// The inactivity interval of ordinary claims when a workspace has no
/// `doctor.stale_in_progress` section: a day.
pub const DEFAULT_STALE_IN_PROGRESS_MAX_AGE_SECONDS: u64 = 86400;

/// The versioned stale-claim configuration.
#[derive(Debug, Clone)]
pub struct StaleInProgressConfig {
    pub version: u32,
    pub max_age_seconds: u64,
}

impl Default for StaleInProgressConfig {
    fn default() -> (r: Self)
        ensures
            r.version == STALE_IN_PROGRESS_CONFIG_VERSION,
            r.max_age_seconds == DEFAULT_STALE_IN_PROGRESS_MAX_AGE_SECONDS,
    {
        StaleInProgressConfig { version: STALE_IN_PROGRESS_CONFIG_VERSION, max_age_seconds: DEFAULT_STALE_IN_PROGRESS_MAX_AGE_SECONDS }
    }
}

/// How a key of `config.json` is filled.
#[derive(Debug, Clone, Copy, PartialEq, Eq, Structural)]
pub enum KeySlot {
    Absent,
    Null,
    NotObject,
    Object,
}

/// What `config.json` says about the stale-claim check: how `doctor` and
/// `doctor.stale_in_progress` are filled, and the section's version and
/// interval when they are unsigned integers.
#[derive(Debug, Clone)]
pub struct StaleConfigFacts {
    pub doctor: KeySlot,
    pub stale_in_progress: KeySlot,
    pub version: Option<u64>,
    pub max_age_seconds: Option<u64>,
}

/// The configuration `config.json` selects, or why it is refused. A
/// missing or null section keeps the default; once present, the section
/// must state the supported version and an interval of 1 to `i64::MAX`
/// seconds. `facts` is `Err` with the parser's message when the file is
/// not JSON.
pub open spec fn stale_config_spec(facts: Result<StaleConfigFacts, Seq<char>>) -> Result<(u32, u64), Seq<char>> {
    match facts {
        Err(m) => Err("Invalid .beads/config.json while loading doctor.stale_in_progress: "@ + m),
        Ok(f) => if f.doctor == KeySlot::Absent || f.doctor == KeySlot::Null {
            Ok((STALE_IN_PROGRESS_CONFIG_VERSION, DEFAULT_STALE_IN_PROGRESS_MAX_AGE_SECONDS))
        } else if f.doctor == KeySlot::NotObject {
            Err(".beads/config.json doctor must be an object"@)
        } else if f.stale_in_progress == KeySlot::Absent || f.stale_in_progress == KeySlot::Null {
            Ok((STALE_IN_PROGRESS_CONFIG_VERSION, DEFAULT_STALE_IN_PROGRESS_MAX_AGE_SECONDS))
        } else if f.stale_in_progress == KeySlot::NotObject {
            Err(".beads/config.json doctor.stale_in_progress must be an object"@)
        } else {
            match f.version {
                None => Err(".beads/config.json doctor.stale_in_progress.version must be an integer"@),
                Some(v) => if v != 1 {
                    Err("Unsupported doctor.stale_in_progress version "@ + int_text(v as int) + " (supported: 1)"@)
                } else {
                    match f.max_age_seconds {
                        None => Err(".beads/config.json doctor.stale_in_progress.max_age_seconds must be an integer"@),
                        Some(a) => if a == 0 || a > 0x7fff_ffff_ffff_ffff {
                            Err(".beads/config.json doctor.stale_in_progress.max_age_seconds must be between 1 and i64::MAX"@)
                        } else {
                            Ok((STALE_IN_PROGRESS_CONFIG_VERSION, a))
                        },
                    }
                },
            }
        }
    }
}

pub open spec fn facts_view(f: Result<StaleConfigFacts, String>) -> Result<StaleConfigFacts, Seq<char>> {
    match f {
        Ok(x) => Ok(x),
        Err(m) => Err(m@),
    }
}

/// Select the stale-claim configuration (see `stale_config_spec`);
/// refusals are workspace errors.
pub fn stale_in_progress_config(facts: Result<StaleConfigFacts, String>) -> (r: Result<StaleInProgressConfig, Error>)
    ensures
        match stale_config_spec(facts_view(facts)) {
            Ok((v, a)) => r matches Ok(c) && c.version == v && c.max_age_seconds == a,
            Err(m) => r matches Err(e) && e.is(ErrorKind::Workspace, m),
        },
{
    let f = match facts {
        Err(m) => {
            return Err(Error::Workspace(cat("Invalid .beads/config.json while loading doctor.stale_in_progress: ", m.as_str())));
        },
        Ok(f) => f,
    };
    match f.doctor {
        KeySlot::Absent | KeySlot::Null => {
            return Ok(StaleInProgressConfig::default());
        },
        KeySlot::NotObject => {
            return Err(Error::Workspace(owned(".beads/config.json doctor must be an object")));
        },
        KeySlot::Object => {},
    }
    match f.stale_in_progress {
        KeySlot::Absent | KeySlot::Null => {
            return Ok(StaleInProgressConfig::default());
        },
        KeySlot::NotObject => {
            return Err(Error::Workspace(owned(".beads/config.json doctor.stale_in_progress must be an object")));
        },
        KeySlot::Object => {},
    }
    let version = match f.version {
        None => {
            return Err(Error::Workspace(owned(".beads/config.json doctor.stale_in_progress.version must be an integer")));
        },
        Some(v) => v,
    };
    if version != 1 {
        return Err(Error::Workspace(cat3("Unsupported doctor.stale_in_progress version ", u64_text(version).as_str(), " (supported: 1)")));
    }
    let max_age = match f.max_age_seconds {
        None => {
            return Err(Error::Workspace(owned(".beads/config.json doctor.stale_in_progress.max_age_seconds must be an integer")));
        },
        Some(a) => a,
    };
    if max_age == 0 || max_age > 0x7fff_ffff_ffff_ffffu64 {
        return Err(Error::Workspace(owned(".beads/config.json doctor.stale_in_progress.max_age_seconds must be between 1 and i64::MAX")));
    }
    Ok(StaleInProgressConfig { version: STALE_IN_PROGRESS_CONFIG_VERSION, max_age_seconds: max_age })
}

/// The audit detail of an issue's last claim, as the lease question reads
/// it.
#[derive(Debug, Clone)]
pub enum ClaimDetail {
    /// The detail is not JSON.
    Unparsable,
    /// The detail's `with_lease` flag, its `action` text, and whether it
    /// carries a non-null `new_fencing_token`.
    Parsed { with_lease: Option<bool>, action: Option<String>, new_fencing_token: bool },
}

/// An in-progress issue as the stale-claim check reads it: its latest
/// event time, its last claim (sequence and detail), the last release,
/// close or reopen after it, and whether any lease row exists.
#[derive(Debug, Clone)]
pub struct StaleClaimRow {
    pub id: String,
    pub last_event_at: String,
    pub last_claim_sequence: Option<i64>,
    pub last_claim_detail: Option<ClaimDetail>,
    pub last_exit_sequence: Option<i64>,
    pub has_lease_row: bool,
}

/// Whether the current claim epoch was a leased claim. Without a claim, or
/// after a later exit, it is not; without a detail a lease row decides; an
/// unparsable detail counts as leased; a `with_lease` flag decides;
/// otherwise the fencing-token action, a new fencing token or a lease row
/// makes it leased.
pub open spec fn epoch_leased(r: StaleClaimRow) -> bool {
    match r.last_claim_sequence {
        None => false,
        Some(c) => if r.last_exit_sequence matches Some(x) && x > c {
            false
        } else {
            match r.last_claim_detail {
                None => r.has_lease_row,
                Some(ClaimDetail::Unparsable) => true,
                Some(ClaimDetail::Parsed { with_lease, action, new_fencing_token }) => match with_lease {
                    Some(b) => b,
                    None => crate::git::opt_text(action) == Some("claim_with_fencing_token"@) || new_fencing_token || r.has_lease_row,
                },
            }
        },
    }
}

/// Whether the row's current claim epoch was leased (see `epoch_leased`).
pub fn claim_epoch_leased(row: &StaleClaimRow) -> (r: bool)
    ensures
        r == epoch_leased(*row),
{
    let c = match row.last_claim_sequence {
        None => {
            return false;
        },
        Some(c) => c,
    };
    if let Some(x) = row.last_exit_sequence {
        if x > c {
            return false;
        }
    }
    match &row.last_claim_detail {
        None => row.has_lease_row,
        Some(ClaimDetail::Unparsable) => true,
        Some(ClaimDetail::Parsed { with_lease, action, new_fencing_token }) => match with_lease {
            Some(b) => *b,
            None => {
                let fenced = match action {
                    Some(a) => str_eq(a.as_str(), "claim_with_fencing_token"),
                    None => false,
                };
                fenced || *new_fencing_token || row.has_lease_row
            },
        },
    }
}

/// A stale issue as plain values: id, last event time, age, remedy.
pub open spec fn stale_issue_view(i: StaleInProgressIssue) -> (Seq<char>, Seq<char>, int, Seq<char>) {
    (i.id@, i.last_event_at@, i.age_seconds as int, i.remedy@)
}

/// The stale ordinary claims among the first `n` rows at instant `now`:
/// rows whose epoch is not leased and whose latest event is strictly more
/// than `max_age` seconds old, with a release remedy; the first unparsable
/// event time among the rows examined is refused.
pub open spec fn stale_rows_spec(rows: Seq<StaleClaimRow>, now: (int, int), max_age: u64, n: nat)
    -> Result<Seq<(Seq<char>, Seq<char>, int, Seq<char>)>, Seq<char>>
    decreases n,
{
    if n == 0 {
        Ok(Seq::empty())
    } else {
        match stale_rows_spec(rows, now, max_age, (n - 1) as nat) {
            Err(m) => Err(m),
            Ok(prev) => {
                let r = rows[n - 1];
                if epoch_leased(r) {
                    Ok(prev)
                } else {
                    match chrono_rfc3339(r.last_event_at@) {
                        Err(m) => Err("Invalid latest event timestamp for in-progress issue "@ + r.id@ + ": "@ + m),
                        Ok(then) => {
                            let age = whole_seconds_between(now, then);
                            if age <= max_age as int {
                                Ok(prev)
                            } else {
                                Ok(prev.push((r.id@, r.last_event_at@, age, "bead release "@ + r.id@)))
                            }
                        },
                    }
                }
            },
        }
    }
}

proof fn lemma_stale_rows_error_sticks(rows: Seq<StaleClaimRow>, now: (int, int), max_age: u64, from: nat, to: nat)
    requires
        from <= to <= rows.len(),
        stale_rows_spec(rows, now, max_age, from) is Err,
    ensures
        stale_rows_spec(rows, now, max_age, to) == stale_rows_spec(rows, now, max_age, from),
    decreases to - from,
{
    if from < to {
        lemma_stale_rows_error_sticks(rows, now, max_age, from, (to - 1) as nat);
    }
}

/// The stale-claim report at instant `now` (whole seconds and
/// nanoseconds); an unparsable event time is an integrity error.
pub fn stale_in_progress_at(config: &StaleInProgressConfig, rows: &Vec<StaleClaimRow>, now: (i64, u32)) -> (r: Result<StaleInProgressReport, Error>)
    requires
        chrono_seconds(now.0 as int),
        now.1 < 2_000_000_000,
    ensures
        match stale_rows_spec(rows@, (now.0 as int, now.1 as int), config.max_age_seconds, rows@.len()) {
            Ok(v) => r matches Ok(rep) && rep.config_version == config.version && rep.max_age_seconds == config.max_age_seconds
                && rep.stale_issues@.map_values(|i: StaleInProgressIssue| stale_issue_view(i)) == v,
            Err(m) => r matches Err(e) && e.is(ErrorKind::Integrity, m),
        },
{
    let ghost nw = (now.0 as int, now.1 as int);
    let mut out: Vec<StaleInProgressIssue> = Vec::new();
    assert(out@.map_values(|x: StaleInProgressIssue| stale_issue_view(x)) =~= Seq::<(Seq<char>, Seq<char>, int, Seq<char>)>::empty());
    let mut i: usize = 0;
    while i < rows.len()
        invariant
            i <= rows@.len(),
            nw == (now.0 as int, now.1 as int),
            chrono_seconds(now.0 as int),
            now.1 < 2_000_000_000,
            stale_rows_spec(rows@, nw, config.max_age_seconds, i as nat)
                == Ok::<Seq<(Seq<char>, Seq<char>, int, Seq<char>)>, Seq<char>>(out@.map_values(|x: StaleInProgressIssue| stale_issue_view(x))),
        decreases rows@.len() - i,
    {
        let row = &rows[i];
        if !claim_epoch_leased(row) {
            match parse_chrono_rfc3339(row.last_event_at.as_str()) {
                Err(m) => {
                    let mut t = cat3("Invalid latest event timestamp for in-progress issue ", row.id.as_str(), ": ");
                    push_str(&mut t, m.as_str());
                    proof {
                        lemma_stale_rows_error_sticks(rows@, nw, config.max_age_seconds, (i + 1) as nat, rows@.len());
                    }
                    return Err(Error::Integrity(t));
                },
                Ok(then) => {
                    let age = seconds_between(now, then);
                    if (age as i128) > (config.max_age_seconds as i128) {
                        let issue = StaleInProgressIssue {
                            id: row.id.clone(),
                            last_event_at: row.last_event_at.clone(),
                            age_seconds: age as u64,
                            remedy: cat("bead release ", row.id.as_str()),
                        };
                        let ghost before = out@.map_values(|x: StaleInProgressIssue| stale_issue_view(x));
                        out.push(issue);
                        assert(out@.map_values(|x: StaleInProgressIssue| stale_issue_view(x))
                            =~= before.push((row.id@, row.last_event_at@, age as int, "bead release "@ + row.id@)));
                    }
                },
            }
        }
        i = i + 1;
    }
    Ok(StaleInProgressReport { config_version: config.version, max_age_seconds: config.max_age_seconds, stale_issues: out })
}

/// The stale-claim report now, by the clock: that of `stale_in_progress_at`
/// at some instant.
pub fn stale_in_progress(config: &StaleInProgressConfig, rows: &Vec<StaleClaimRow>) -> (r: Result<StaleInProgressReport, Error>)
    ensures
        exists|now: (int, int)| chrono_seconds(now.0) && 0 <= now.1 < 2_000_000_000
            && match #[trigger] stale_rows_spec(rows@, now, config.max_age_seconds, rows@.len()) {
                Ok(v) => r matches Ok(rep) && rep.config_version == config.version && rep.max_age_seconds == config.max_age_seconds
                    && rep.stale_issues@.map_values(|i: StaleInProgressIssue| stale_issue_view(i)) == v,
                Err(m) => r matches Err(e) && e.is(ErrorKind::Integrity, m),
            },
{
    let now = chrono_now();
    let r = stale_in_progress_at(config, rows, now);
    assert(chrono_seconds(now.0 as int) && 0 <= now.1 < 2_000_000_000);
    r
}

} // verus!

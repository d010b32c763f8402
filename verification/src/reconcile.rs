//! The sync relationship between the live store and the durable
//! checkpoint, the remote-advanced qualifiers, and what `sync reconcile`
//! refuses. Reading the pointer, the objects and the database happens
//! outside this crate; each qualifier's answer is decided here.
use vstd::prelude::*;
use crate::error::{Error, ErrorKind};
use crate::text::{cat, cat3, i64_text, int_text, owned, push_str, str_eq};

verus! {

broadcast use vstd::string::group_string_axioms;

/// Stable machine-readable marker for the remote-advanced state.
pub const REMOTE_ADVANCED_MARKER: &'static str = "remote-advanced";

/// The remedy every remote-advanced report names.
pub const REMOTE_ADVANCED_REMEDY: &'static str = "run `bead sync reconcile --actor <you>` to merge the pulled checkpoint into the live store";

/// The relationship between the live store (sequence L) and the checkpoint
/// (covered sequence C).
#[derive(Debug, Clone, Copy, PartialEq, Eq, Structural)]
pub enum SyncRelationship {
    /// No pointer exists.
    Absent,
    /// `C < L`: the live store has unflushed work.
    Behind,
    /// `C == L`.
    Aligned,
    /// `C > L` and every remote-advanced qualifier holds.
    RemoteAdvanced,
    /// `C > L` with a failed qualifier, or a pointer too damaged to compare.
    CoveredAheadIntegrityFailure,
}

/// The stable name of a relationship.
pub open spec fn relationship_name(r: SyncRelationship) -> Seq<char> {
    match r {
        SyncRelationship::Absent => "absent"@,
        SyncRelationship::Behind => "behind"@,
        SyncRelationship::Aligned => "aligned"@,
        SyncRelationship::RemoteAdvanced => "remote-advanced"@,
        SyncRelationship::CoveredAheadIntegrityFailure => "covered-ahead-integrity-failure"@,
    }
}

impl SyncRelationship {
    /// The stable name of the relationship.
    pub fn as_str(self) -> (r: &'static str)
        ensures
            r@ == relationship_name(self),
    {
        match self {
            SyncRelationship::Absent => "absent",
            SyncRelationship::Behind => "behind",
            SyncRelationship::Aligned => "aligned",
            SyncRelationship::RemoteAdvanced => "remote-advanced",
            SyncRelationship::CoveredAheadIntegrityFailure => "covered-ahead-integrity-failure",
        }
    }
}

/// What classification concluded, with the first failed qualifier for an
/// integrity failure.
#[derive(Debug, Clone)]
pub struct RelationshipVerdict {
    pub relationship: SyncRelationship,
    pub failed_qualifier: Option<String>,
}

impl RelationshipVerdict {
    /// A relationship with no failed qualifier.
    pub fn of(relationship: SyncRelationship) -> (r: Self)
        ensures
            r.relationship == relationship,
            r.failed_qualifier is None,
    {
        RelationshipVerdict { relationship, failed_qualifier: None }
    }

    /// An integrity failure naming its qualifier.
    pub fn failing(qualifier: String) -> (r: Self)
        ensures
            r.relationship == SyncRelationship::CoveredAheadIntegrityFailure,
            r.failed_qualifier == Some(qualifier),
    {
        RelationshipVerdict {
            relationship: SyncRelationship::CoveredAheadIntegrityFailure,
            failed_qualifier: Some(qualifier),
        }
    }
}

/// The refusal for a pointer without an integer snapshot sequence.
pub open spec fn no_sequence_qualifier() -> Seq<char> {
    "verified pointer: current.json does not declare an integer snapshot_sequence"@
}

/// The answer the sequences alone decide, or `None` when the checkpoint
/// is ahead and the remote-advanced qualifiers must be evaluated.
pub open spec fn sequence_verdict(pointer_present: bool, covered: Option<i64>, live: i64) -> Option<(SyncRelationship, Option<Seq<char>>)> {
    if !pointer_present {
        Some((SyncRelationship::Absent, None))
    } else {
        match covered {
            None => Some((SyncRelationship::CoveredAheadIntegrityFailure, Some(no_sequence_qualifier()))),
            Some(c) => if c < live {
                Some((SyncRelationship::Behind, None))
            } else if c == live {
                Some((SyncRelationship::Aligned, None))
            } else {
                None
            },
        }
    }
}

pub open spec fn verdict_view(v: RelationshipVerdict) -> (SyncRelationship, Option<Seq<char>>) {
    (v.relationship, match v.failed_qualifier {
        Some(q) => Some(q@),
        None => None,
    })
}

/// Classify from the pointer's presence, its covered sequence, and the live
/// sequence. Only `C > L` (returned as `None`) needs the qualifiers.
pub fn classify_by_sequence(pointer_present: bool, covered: Option<i64>, live: i64) -> (r: Option<RelationshipVerdict>)
    ensures
        match r {
            Some(v) => sequence_verdict(pointer_present, covered, live) == Some(verdict_view(v)),
            None => sequence_verdict(pointer_present, covered, live) is None,
        },
{
    if !pointer_present {
        return Some(RelationshipVerdict::of(SyncRelationship::Absent));
    }
    match covered {
        None => Some(RelationshipVerdict::failing(owned(
            "verified pointer: current.json does not declare an integer snapshot_sequence",
        ))),
        Some(c) => {
            if c < live {
                Some(RelationshipVerdict::of(SyncRelationship::Behind))
            } else if c == live {
                Some(RelationshipVerdict::of(SyncRelationship::Aligned))
            } else {
                None
            }
        },
    }
}

/// The first failed qualifier among the answers, in specification order.
pub open spec fn first_problem(answers: Seq<Option<Seq<char>>>) -> Option<Seq<char>>
    decreases answers.len(),
{
    if answers.len() == 0 {
        None
    } else if answers[0] is Some {
        answers[0]
    } else {
        first_problem(answers.drop_first())
    }
}

/// The relationship the sequences and the qualifier answers decide: the
/// sequences alone unless the checkpoint is ahead; then remote-advanced
/// when no qualifier failed, else an integrity failure naming the first.
pub open spec fn classified(
    pointer_present: bool,
    covered: Option<i64>,
    live: i64,
    answers: Seq<Option<Seq<char>>>,
) -> (SyncRelationship, Option<Seq<char>>) {
    match sequence_verdict(pointer_present, covered, live) {
        Some(v) => v,
        None => match first_problem(answers) {
            Some(q) => (SyncRelationship::CoveredAheadIntegrityFailure, Some(q)),
            None => (SyncRelationship::RemoteAdvanced, None),
        },
    }
}

/// Classify from the pointer's presence, its covered sequence, the live
/// sequence and the remote-advanced qualifiers' answers, given in
/// specification order (verified pointer, valid staged stream, same
/// origin, event-stream superset, honest recorded state; `None` where a
/// qualifier holds). The answers are read only when the checkpoint is
/// ahead of the live store, and only up to the first failure, so a caller
/// may stop evaluating qualifiers there.
pub fn classify_verdict(
    pointer_present: bool,
    covered: Option<i64>,
    live: i64,
    qualifier_problems: &Vec<Option<String>>,
) -> (r: RelationshipVerdict)
    ensures
        verdict_view(r) == classified(pointer_present, covered, live, qualifier_problems@.map_values(|o: Option<String>| opt_view(o))),
{
    let ghost answers = qualifier_problems@.map_values(|o: Option<String>| opt_view(o));
    if let Some(v) = classify_by_sequence(pointer_present, covered, live) {
        return v;
    }
    assert(answers.skip(0) =~= answers);
    let mut i: usize = 0;
    while i < qualifier_problems.len()
        invariant
            i <= qualifier_problems@.len(),
            sequence_verdict(pointer_present, covered, live) is None,
            answers == qualifier_problems@.map_values(|o: Option<String>| opt_view(o)),
            first_problem(answers) == first_problem(answers.skip(i as int)),
        decreases qualifier_problems@.len() - i,
    {
        assert(answers.skip(i as int)[0] == answers[i as int]);
        assert(answers.skip(i as int).drop_first() =~= answers.skip(i + 1));
        match &qualifier_problems[i] {
            Some(q) => {
                let named = q.clone();
                assert(named@ == q@);
                return RelationshipVerdict::failing(named);
            },
            None => {},
        }
        i = i + 1;
    }
    assert(answers.skip(i as int) =~= Seq::<Option<Seq<char>>>::empty());
    RelationshipVerdict::of(SyncRelationship::RemoteAdvanced)
}

/// A verdict names a failed qualifier exactly when it is an integrity
/// failure, and a checkpoint ahead of the live store is either
/// remote-advanced or an integrity failure.
pub proof fn law_failed_qualifier_only_on_integrity_failure(
    pointer_present: bool,
    covered: Option<i64>,
    live: i64,
    answers: Seq<Option<Seq<char>>>,
)
    ensures
        classified(pointer_present, covered, live, answers).1 is Some
            <==> classified(pointer_present, covered, live, answers).0 == SyncRelationship::CoveredAheadIntegrityFailure,
        (pointer_present && (covered matches Some(c) && c > live)) ==> {
            ||| classified(pointer_present, covered, live, answers).0 == SyncRelationship::RemoteAdvanced
            ||| classified(pointer_present, covered, live, answers).0 == SyncRelationship::CoveredAheadIntegrityFailure
        },
{
}

/// The supported pointer modes.
pub open spec fn mode_supported(mode: Option<Seq<char>>) -> bool {
    mode == Some("monolithic"@) || mode == Some("sharded"@)
}

/// `{:?}` of a string: quoted, with `str::escape_debug` applied.
pub uninterp spec fn debug_text(s: Seq<char>) -> Seq<char>;

/// `format!("{:?}", s)` for a string slice.
#[verifier::external_body]
pub(crate) fn debug_quoted(s: &str) -> (r: String)
    ensures
        r@ == debug_text(s@),
{
    format!("{:?}", s)
}

/// `{:?}` of an optional string: `None`, or `Some(` the quoted text `)`.
pub open spec fn debug_option(m: Option<Seq<char>>) -> Seq<char> {
    match m {
        None => "None"@,
        Some(s) => "Some("@ + debug_text(s) + ")"@,
    }
}

/// Qualifier 1's pointer-shape half: a supported mode, a non-empty store
/// UUID, a non-negative snapshot sequence (missing values read as empty
/// and zero).
pub open spec fn pointer_shape_problem(mode: Option<Seq<char>>, store_uuid: Seq<char>, snapshot: i64) -> Option<Seq<char>> {
    if !mode_supported(mode) {
        Some("verified pointer: unsupported or missing mode: "@ + debug_option(mode))
    } else if store_uuid.len() == 0 {
        Some("verified pointer: empty store UUID"@)
    } else if snapshot < 0 {
        Some("verified pointer: negative snapshot sequence "@ + int_text(snapshot as int))
    } else {
        None
    }
}

pub open spec fn str_opt_view(o: Option<&str>) -> Option<Seq<char>> {
    match o {
        Some(s) => Some(s@),
        None => None,
    }
}

/// Check the pointer's shape (see `pointer_shape_problem`).
pub fn verify_pointer_shape(mode: Option<&str>, store_uuid: &str, snapshot: i64) -> (r: Option<String>)
    ensures
        match r {
            Some(m) => pointer_shape_problem(str_opt_view(mode), store_uuid@, snapshot) == Some(m@),
            None => pointer_shape_problem(str_opt_view(mode), store_uuid@, snapshot) is None,
        },
{
    let supported = match mode {
        Some(m) => str_eq(m, "monolithic") || str_eq(m, "sharded"),
        None => false,
    };
    if !supported {
        let shown = match mode {
            None => owned("None"),
            Some(m) => {
                let q = debug_quoted(m);
                cat3("Some(", q.as_str(), ")")
            },
        };
        return Some(cat("verified pointer: unsupported or missing mode: ", shown.as_str()));
    }
    if store_uuid.is_empty() {
        return Some(owned("verified pointer: empty store UUID"));
    }
    if snapshot < 0 {
        let t = i64_text(snapshot);
        return Some(cat("verified pointer: negative snapshot sequence ", t.as_str()));
    }
    None
}

/// Qualifier 1, root object: it must be readable and hash as the pointer says.
pub fn root_object_problem(root_path: &str, readable: bool, hash_matches: bool) -> (r: Option<String>)
    ensures
        !readable ==> (r matches Some(m) && m@ == "verified pointer: root object missing: "@ + root_path@),
        readable && !hash_matches ==> (r matches Some(m) && m@ == "verified pointer: root hash mismatch: "@ + root_path@),
        readable && hash_matches ==> r is None,
{
    if !readable {
        return Some(cat("verified pointer: root object missing: ", root_path));
    }
    if !hash_matches {
        return Some(cat("verified pointer: root hash mismatch: ", root_path));
    }
    None
}

/// Qualifier 1, tombstones: no tombstoned path may still exist.
pub fn tombstone_problem(first_existing: Option<&str>) -> (r: Option<String>)
    ensures
        match first_existing {
            Some(p) => (r matches Some(m) && m@ == "verified pointer: unresolved tombstone: "@ + p@),
            None => r is None,
        },
{
    match first_existing {
        Some(p) => Some(cat("verified pointer: unresolved tombstone: ", p)),
        None => None,
    }
}

/// Qualifier 1, compatibility view: a monolithic checkpoint's
/// `forensic.jsonl` must be byte-identical to the selected root.
pub fn view_problem(monolithic: bool, view_identical: bool) -> (r: Option<String>)
    ensures
        r is Some <==> (monolithic && !view_identical),
        r matches Some(m) ==> m@ == "verified pointer: forensic.jsonl compatibility view is not byte-identical to the pointer-selected root"@,
{
    if monolithic && !view_identical {
        return Some(owned("verified pointer: forensic.jsonl compatibility view is not byte-identical to the pointer-selected root"));
    }
    None
}

/// Qualifier 3: the checkpoint comes from this workspace.
pub fn origin_problem(checkpoint_uuid: &str, workspace_uuid: &str) -> (r: Option<String>)
    ensures
        r is None <==> checkpoint_uuid@ == workspace_uuid@,
        r matches Some(m) ==> m@ == "same origin: checkpoint store UUID "@ + checkpoint_uuid@
            + " does not match the workspace UUID "@ + workspace_uuid@
            + " (a foreign checkpoint is `sync import-only --merge` input, never a reconcile)"@,
{
    if str_eq(checkpoint_uuid, workspace_uuid) {
        return None;
    }
    let mut m = cat3("same origin: checkpoint store UUID ", checkpoint_uuid, " does not match the workspace UUID ");
    push_str(&mut m, workspace_uuid);
    push_str(&mut m, " (a foreign checkpoint is `sync import-only --merge` input, never a reconcile)");
    Some(m)
}

/// Qualifier 5: the database must not claim to cover more than it holds.
pub fn recorded_state_problem(state_covered: Option<i64>, live: i64) -> (r: Option<String>)
    ensures
        r is Some <==> (state_covered matches Some(c) && c > live),
        r matches Some(m) ==> m@ == "honest recorded state: database claims covered sequence "@
            + int_text(state_covered->0 as int) + " over a live sequence of "@ + int_text(live as int),
{
    match state_covered {
        Some(c) => {
            if c > live {
                let mut m = owned("honest recorded state: database claims covered sequence ");
                let t = i64_text(c);
                push_str(&mut m, t.as_str());
                push_str(&mut m, " over a live sequence of ");
                let u = i64_text(live);
                push_str(&mut m, u.as_str());
                return Some(m);
            }
            None
        },
        None => None,
    }
}

/// One event as the live store holds it.
#[derive(Debug, Clone)]
pub struct EventRecord {
    pub origin_store_uuid: String,
    pub origin_event_sequence: i64,
    pub issue_id: Option<String>,
    pub kind: String,
    pub actor: String,
    pub time: String,
    pub detail: String,
}

/// One event as a checkpoint's staged stream holds it.
#[derive(Debug, Clone)]
pub struct SerializedEvent {
    pub origin_store_uuid: String,
    pub origin_event_sequence: i64,
    pub issue_id: Option<String>,
    pub kind: String,
    pub actor: Option<String>,
    pub time: String,
    pub detail: String,
}

pub open spec fn opt_view(o: Option<String>) -> Option<Seq<char>> {
    match o {
        Some(s) => Some(s@),
        None => None,
    }
}

/// Public content equality: issue, kind, actor (a missing staged actor
/// reads as `system`), time, and detail.
pub open spec fn same_public_content(live: EventRecord, staged: SerializedEvent) -> bool {
    &&& opt_view(live.issue_id) == opt_view(staged.issue_id)
    &&& live.kind@ == staged.kind@
    &&& live.actor@ == (match staged.actor {
        Some(a) => a@,
        None => "system"@,
    })
    &&& live.time@ == staged.time@
    &&& live.detail@ == staged.detail@
}

fn opt_eq(a: &Option<String>, b: &Option<String>) -> (r: bool)
    ensures
        r == (opt_view(*a) == opt_view(*b)),
{
    match (a, b) {
        (Some(x), Some(y)) => str_eq(x.as_str(), y.as_str()),
        (None, None) => true,
        _ => false,
    }
}

/// Whether a live event and a staged event carry the same public content.
pub fn public_content_matches(live: &EventRecord, staged: &SerializedEvent) -> (r: bool)
    ensures
        r == same_public_content(*live, *staged),
{
    let actor_matches = match &staged.actor {
        Some(a) => str_eq(live.actor.as_str(), a.as_str()),
        None => str_eq(live.actor.as_str(), "system"),
    };
    opt_eq(&live.issue_id, &staged.issue_id) && str_eq(live.kind.as_str(), staged.kind.as_str())
        && actor_matches && str_eq(live.time.as_str(), staged.time.as_str())
        && str_eq(live.detail.as_str(), staged.detail.as_str())
}

/// Whether a staged event carries the wire identity `(uuid, sequence)`.
pub open spec fn has_identity(e: SerializedEvent, uuid: Seq<char>, seq: i64) -> bool {
    e.origin_store_uuid@ == uuid && e.origin_event_sequence == seq
}

/// The last staged event with a given identity (a later duplicate replaces
/// an earlier one), if any.
pub open spec fn staged_with(staged: Seq<SerializedEvent>, uuid: Seq<char>, seq: i64) -> Option<SerializedEvent>
    decreases staged.len(),
{
    if staged.len() == 0 {
        None
    } else if has_identity(staged.last(), uuid, seq) {
        Some(staged.last())
    } else {
        staged_with(staged.drop_last(), uuid, seq)
    }
}

/// What is wrong with one live event against the staged stream, if anything.
pub open spec fn live_event_problem(staged: Seq<SerializedEvent>, e: EventRecord) -> Option<Seq<char>> {
    match staged_with(staged, e.origin_store_uuid@, e.origin_event_sequence) {
        None => Some("event-stream superset: live event identity ("@ + e.origin_store_uuid@ + ", "@
            + int_text(e.origin_event_sequence as int) + ") is absent from the pulled checkpoint"@),
        Some(s) => if !same_public_content(e, s) {
            Some("event-stream superset: live event identity ("@ + e.origin_store_uuid@ + ", "@
                + int_text(e.origin_event_sequence as int) + ") has different content than the pulled checkpoint"@)
        } else {
            None
        },
    }
}

/// The problem of the first live event the staged stream does not cover.
pub open spec fn superset_problem(staged: Seq<SerializedEvent>, live: Seq<EventRecord>) -> Option<Seq<char>>
    decreases live.len(),
{
    if live.len() == 0 {
        None
    } else if live_event_problem(staged, live[0]) is Some {
        live_event_problem(staged, live[0])
    } else {
        superset_problem(staged, live.drop_first())
    }
}

fn find_staged(staged: &Vec<SerializedEvent>, uuid: &str, seq: i64) -> (r: Option<usize>)
    ensures
        match r {
            Some(k) => k < staged@.len() && staged_with(staged@, uuid@, seq) == Some(staged@[k as int]),
            None => staged_with(staged@, uuid@, seq) is None,
        },
{
    let mut k: usize = staged.len();
    assert(staged@.take(k as int) =~= staged@);
    while k > 0
        invariant
            k <= staged@.len(),
            staged_with(staged@, uuid@, seq) == staged_with(staged@.take(k as int), uuid@, seq),
        decreases k,
    {
        let ghost pre = staged@.take(k as int);
        assert(pre.last() == staged@[k - 1]);
        assert(pre.drop_last() =~= staged@.take(k - 1));
        if staged[k - 1].origin_event_sequence == seq && str_eq(staged[k - 1].origin_store_uuid.as_str(), uuid) {
            return Some(k - 1);
        }
        k = k - 1;
    }
    None
}

/// Qualifier 4: every live event appears in the staged stream under its
/// wire identity with identical public content; the first that does not
/// is named. An empty live stream qualifies trivially.
pub fn verify_superset(live: &Vec<EventRecord>, staged: &Vec<SerializedEvent>) -> (r: Option<String>)
    ensures
        match r {
            Some(m) => superset_problem(staged@, live@) == Some(m@),
            None => superset_problem(staged@, live@) is None,
        },
{
    let mut i: usize = 0;
    assert(live@.skip(0) =~= live@);
    while i < live.len()
        invariant
            i <= live@.len(),
            superset_problem(staged@, live@) == superset_problem(staged@, live@.skip(i as int)),
        decreases live@.len() - i,
    {
        let e = &live[i];
        let ghost rest = live@.skip(i as int);
        assert(rest[0] == *e);
        assert(rest.drop_first() =~= live@.skip(i + 1));
        match find_staged(staged, e.origin_store_uuid.as_str(), e.origin_event_sequence) {
            None => {
                let mut m = cat3("event-stream superset: live event identity (", e.origin_store_uuid.as_str(), ", ");
                let t = i64_text(e.origin_event_sequence);
                push_str(&mut m, t.as_str());
                push_str(&mut m, ") is absent from the pulled checkpoint");
                return Some(m);
            },
            Some(k) => {
                if !public_content_matches(e, &staged[k]) {
                    let mut m = cat3("event-stream superset: live event identity (", e.origin_store_uuid.as_str(), ", ");
                    let t = i64_text(e.origin_event_sequence);
                    push_str(&mut m, t.as_str());
                    push_str(&mut m, ") has different content than the pulled checkpoint");
                    return Some(m);
                }
            },
        }
        i = i + 1;
    }
    assert(live@.skip(i as int) =~= Seq::<EventRecord>::empty());
    None
}

/// What `sync reconcile` does with a answer: only remote-advanced proceeds.
pub open spec fn reconcile_refusal(v: (SyncRelationship, Option<Seq<char>>)) -> Option<(ErrorKind, Seq<char>)> {
    match v.0 {
        SyncRelationship::RemoteAdvanced => None,
        SyncRelationship::CoveredAheadIntegrityFailure => Some((ErrorKind::Integrity, "sync reconcile refused: covered-ahead integrity failure - "@
            + match v.1 {
                Some(q) => q,
                None => "first failed qualifier unavailable"@,
            })),
        SyncRelationship::Behind => Some((ErrorKind::CliUsage, "sync reconcile refused: the live store is ahead of the checkpoint (relationship `behind`) - run `bead sync flush-only` first"@)),
        _ => Some((ErrorKind::CliUsage, "sync reconcile refused: there is nothing to reconcile (relationship `"@
            + relationship_name(v.0) + "`)"@)),
    }
}

/// Whether a reconcile proceeds to the merge import of the pulled
/// checkpoint, or is refused: an integrity failure names its first failed
/// qualifier, any other relationship than remote-advanced is a usage error
/// naming it and its remedy. The import itself runs outside this crate.
pub fn reconcile_checkpoint(verdict: &RelationshipVerdict) -> (r: Result<(), Error>)
    ensures
        match reconcile_refusal(verdict_view(*verdict)) {
            None => r is Ok,
            Some((kind, m)) => (r matches Err(e) && e.is(kind, m)),
        },
{
    match verdict.relationship {
        SyncRelationship::RemoteAdvanced => Ok(()),
        SyncRelationship::CoveredAheadIntegrityFailure => {
            let q = match &verdict.failed_qualifier {
                Some(q) => q.clone(),
                None => owned("first failed qualifier unavailable"),
            };
            Err(Error::Integrity(cat("sync reconcile refused: covered-ahead integrity failure - ", q.as_str())))
        },
        SyncRelationship::Behind => Err(Error::CliUsage(owned(
            "sync reconcile refused: the live store is ahead of the checkpoint (relationship `behind`) - run `bead sync flush-only` first",
        ))),
        SyncRelationship::Aligned | SyncRelationship::Absent => {
            let name = verdict.relationship.as_str();
            Err(Error::CliUsage(cat3("sync reconcile refused: there is nothing to reconcile (relationship `", name, "`)")))
        },
    }
}

/// A reconcile proceeds exactly when the checkpoint is remote-advanced;
/// every other relationship is refused with a message.
pub proof fn law_reconcile_proceeds_only_when_remote_advanced(v: (SyncRelationship, Option<Seq<char>>))
    ensures
        (reconcile_refusal(v) is None) <==> v.0 == SyncRelationship::RemoteAdvanced,
{
}

} // verus!

//! Historical redaction: which fields a finding may address, the checks a
//! request passes before anything is read, the byte-range replacement with
//! the marker, and the framed record hash a receipt binds. The transaction
//! that reads and writes the store runs outside this crate.
use vstd::prelude::*;
use crate::digest::{is_hex_lower, sha256_hex, sha256_hex_of};
use crate::text::{cat3, chars_of, join_seq, owned, str_eq, sv, int_text, u64_text};

verus! {

broadcast use {vstd::string::group_string_axioms, vstd::utf8::group_utf8_lib};

/// Why a redaction was refused.
#[derive(Debug, Clone)]
pub enum RedactionError {
    /// The request is malformed.
    Usage(String),
    /// No live finding matches.
    NotFound(String),
    /// The target changed, or the request conflicts with a committed one.
    Conflict(String),
    /// The store or the target is damaged.
    Integrity(String),
}

/// A fingerprint is 64 lowercase hexadecimal digits.
pub open spec fn fingerprint_shape(f: Seq<char>) -> bool {
    f.len() == 64 && forall|i: int| 0 <= i < f.len() ==> is_hex_lower(#[trigger] f[i])
}

/// Refuse a fingerprint that is not 64-character lowercase SHA-256 hex.
pub fn validate_fingerprint(fingerprint: &str) -> (r: Result<(), RedactionError>)
    ensures
        fingerprint_shape(fingerprint@) ==> r is Ok,
        !fingerprint_shape(fingerprint@) ==> (r matches Err(RedactionError::Usage(m))
            && m@ == "finding fingerprint must be 64-character lowercase SHA-256 hex"@),
{
    let cs = chars_of(fingerprint);
    let mut ok = cs.len() == 64;
    let mut i: usize = 0;
    while i < cs.len()
        invariant
            i <= cs@.len(),
            cs@ == fingerprint@,
            ok == (cs@.len() == 64 && forall|k: int| 0 <= k < i ==> is_hex_lower(#[trigger] cs@[k])),
        decreases cs@.len() - i,
    {
        let c = cs[i];
        if !(('0' <= c && c <= '9') || ('a' <= c && c <= 'f')) {
            ok = false;
        }
        i = i + 1;
    }
    if ok {
        Ok(())
    } else {
        Err(RedactionError::Usage(owned("finding fingerprint must be 64-character lowercase SHA-256 hex")))
    }
}

/// The first blocking finding the secret scan reported in a request's
/// reason: the rule that fired and the finding's fingerprint, never the
/// matched bytes.
#[derive(Debug, Clone)]
pub struct BlockingFinding {
    pub rule_id: String,
    pub fingerprint: String,
}

/// The refusal of a reason that carries a blocking finding.
pub open spec fn blocked_reason_text(f: BlockingFinding) -> Seq<char> {
    "redaction reason contains a blocking finding (rule "@ + f.rule_id@ + ", fingerprint "@
        + f.fingerprint@ + "); matched bytes are not shown"@
}

/// Check a redaction request before anything is read, in order: the shape
/// of the finding fingerprint, the actor's validity (`actor_check`), the
/// reason's validity (`reason_check`), then the secret scan of the reason,
/// whose first blocking finding (if any) is `reason_finding`. The first
/// failure is the answer. The scan's refusal names the rule and the
/// finding's fingerprint and never echoes the reason.
pub fn validate_request(
    fingerprint: &str,
    actor_check: Result<(), RedactionError>,
    reason_check: Result<(), RedactionError>,
    reason_finding: Option<&BlockingFinding>,
) -> (r: Result<(), RedactionError>)
    ensures
        !fingerprint_shape(fingerprint@) ==> (r matches Err(RedactionError::Usage(m))
            && m@ == "finding fingerprint must be 64-character lowercase SHA-256 hex"@),
        fingerprint_shape(fingerprint@) ==> match actor_check {
            Err(e) => r == Err::<(), RedactionError>(e),
            Ok(()) => match reason_check {
                Err(e) => r == Err::<(), RedactionError>(e),
                Ok(()) => match reason_finding {
                    None => r is Ok,
                    Some(f) => r matches Err(RedactionError::Usage(m)) && m@ == blocked_reason_text(*f),
                },
            },
        },
{
    match validate_fingerprint(fingerprint) {
        Err(e) => {
            return Err(e);
        },
        Ok(()) => {},
    }
    if let Err(e) = actor_check {
        return Err(e);
    }
    if let Err(e) = reason_check {
        return Err(e);
    }
    match reason_finding {
        None => Ok(()),
        Some(f) => {
            let head = cat3("redaction reason contains a blocking finding (rule ", f.rule_id.as_str(), ", fingerprint ");
            let tail = cat3(head.as_str(), f.fingerprint.as_str(), "); matched bytes are not shown");
            Err(RedactionError::Usage(tail))
        },
    }
}

/// How a redactable field's row is maintained: whether it is an issue row
/// (whose revision advances), the column naming the affected issue, and the
/// column holding the row's own integrity hash.
#[derive(Debug, Clone)]
pub struct TargetSpec {
    pub is_issue_row: bool,
    pub issue_id_column: Option<&'static str>,
    pub integrity_hash_column: Option<&'static str>,
}

/// The fields a finding may address, per table.
pub open spec fn redactable(table: Seq<char>, field: Seq<char>) -> bool {
    if table == "issues"@ {
        field == "title"@ || field == "description"@ || field == "notes"@ || field == "close_reason"@
    } else if table == "events"@ {
        field == "detail"@
    } else if table == "comments"@ {
        field == "body"@
    } else if table == "issue_data"@ || table == "external_references"@ {
        field == "value"@
    } else if table == "recurrence_templates"@ {
        field == "title"@ || field == "description"@ || field == "base_title_template"@ || field == "base_description"@
            || field == "labels_json"@
    } else if table == "attempt_outcomes"@ {
        field == "reason"@ || field == "evidence_refs_json"@ || field == "model"@ || field == "harness"@ || field == "harness_version"@
    } else if table == "provenance_receipts"@ {
        field == "actor"@
    } else {
        false
    }
}

/// The redactable fields, over every table and field: the text columns of
/// issues (title, description, notes, close reason), event details, comment
/// bodies, issue data and external reference values, the text of
/// recurrence templates, the free text of attempt outcomes, and the actor
/// of provenance receipts. Every one of them but an issue's own and a
/// template's, an event's and a receipt's names its issue by `issue_id`.
pub proof fn law_redactable_fields(table: Seq<char>, field: Seq<char>)
    ensures
        redactable(table, field) <==> {
            ||| table == "issues"@ && (field == "title"@ || field == "description"@ || field == "notes"@ || field == "close_reason"@)
            ||| table == "events"@ && field == "detail"@
            ||| table == "comments"@ && field == "body"@
            ||| table == "issue_data"@ && field == "value"@
            ||| table == "external_references"@ && field == "value"@
            ||| table == "recurrence_templates"@ && (field == "title"@ || field == "description"@
                || field == "base_title_template"@ || field == "base_description"@ || field == "labels_json"@)
            ||| table == "attempt_outcomes"@ && (field == "reason"@ || field == "evidence_refs_json"@ || field == "model"@
                || field == "harness"@ || field == "harness_version"@)
            ||| table == "provenance_receipts"@ && field == "actor"@
        },
        redactable(table, field) && (table == "comments"@ || table == "issue_data"@ || table == "external_references"@
            || table == "attempt_outcomes"@) ==> issue_column_of(table) == Some("issue_id"@),
{
    reveal_strlit("issues");
    reveal_strlit("events");
    reveal_strlit("comments");
    reveal_strlit("issue_data");
    reveal_strlit("external_references");
    reveal_strlit("recurrence_templates");
    reveal_strlit("attempt_outcomes");
    reveal_strlit("provenance_receipts");
    let names = seq!["issues"@, "events"@, "comments"@, "issue_data"@, "external_references"@,
        "recurrence_templates"@, "attempt_outcomes"@, "provenance_receipts"@];
    assert forall|i: int, j: int| 0 <= i < j < 8 implies names[i] != names[j] by {
        if names[i].len() == names[j].len() {
            assert(names[i][0] != names[j][0] || names[i][1] != names[j][1]);
        }
    }
}

pub open spec fn issue_column_of(table: Seq<char>) -> Option<Seq<char>> {
    if table == "issues"@ {
        Some("id"@)
    } else if table == "comments"@ || table == "issue_data"@ || table == "external_references"@ || table == "attempt_outcomes"@ {
        Some("issue_id"@)
    } else {
        None
    }
}

pub open spec fn hash_column_of(table: Seq<char>) -> Option<Seq<char>> {
    if table == "events"@ {
        Some("event_sha256"@)
    } else if table == "provenance_receipts"@ {
        Some("receipt_sha256"@)
    } else {
        None
    }
}

pub open spec fn static_opt(o: Option<&'static str>) -> Option<Seq<char>> {
    match o {
        Some(s) => Some(s@),
        None => None,
    }
}

fn any_of(x: &str, options: &Vec<&str>) -> (r: bool)
    ensures
        r == exists|i: int| 0 <= i < options@.len() && #[trigger] options@[i]@ == x@,
{
    let mut i: usize = 0;
    while i < options.len()
        invariant
            i <= options@.len(),
            forall|k: int| 0 <= k < i ==> (#[trigger] options@[k])@ != x@,
        decreases options@.len() - i,
    {
        if str_eq(options[i], x) {
            return true;
        }
        i = i + 1;
    }
    false
}

/// The maintenance facts of a redactable field, or `None` for a field no
/// redaction may touch.
pub fn target_spec(table: &str, field: &str) -> (r: Option<TargetSpec>)
    ensures
        redactable(table@, field@) <==> r is Some,
        r matches Some(t) ==> t.is_issue_row == (table@ == "issues"@)
            && static_opt(t.issue_id_column) == issue_column_of(table@)
            && static_opt(t.integrity_hash_column) == hash_column_of(table@),
{
    let allowed = if str_eq(table, "issues") {
        let v = vec!["title", "description", "notes", "close_reason"];
        let a = any_of(field, &v);
        assert(a == (field@ == "title"@ || field@ == "description"@ || field@ == "notes"@ || field@ == "close_reason"@)) by {
            if field@ == "title"@ { assert(v@[0]@ == field@); }
            if field@ == "description"@ { assert(v@[1]@ == field@); }
            if field@ == "notes"@ { assert(v@[2]@ == field@); }
            if field@ == "close_reason"@ { assert(v@[3]@ == field@); }
        }
        a
    } else if str_eq(table, "events") {
        str_eq(field, "detail")
    } else if str_eq(table, "comments") {
        str_eq(field, "body")
    } else if str_eq(table, "issue_data") || str_eq(table, "external_references") {
        str_eq(field, "value")
    } else if str_eq(table, "recurrence_templates") {
        let v = vec!["title", "description", "base_title_template", "base_description", "labels_json"];
        let a = any_of(field, &v);
        assert(a == (field@ == "title"@ || field@ == "description"@ || field@ == "base_title_template"@
            || field@ == "base_description"@ || field@ == "labels_json"@)) by {
            if field@ == "title"@ { assert(v@[0]@ == field@); }
            if field@ == "description"@ { assert(v@[1]@ == field@); }
            if field@ == "base_title_template"@ { assert(v@[2]@ == field@); }
            if field@ == "base_description"@ { assert(v@[3]@ == field@); }
            if field@ == "labels_json"@ { assert(v@[4]@ == field@); }
        }
        a
    } else if str_eq(table, "attempt_outcomes") {
        let v = vec!["reason", "evidence_refs_json", "model", "harness", "harness_version"];
        let a = any_of(field, &v);
        assert(a == (field@ == "reason"@ || field@ == "evidence_refs_json"@ || field@ == "model"@ || field@ == "harness"@
            || field@ == "harness_version"@)) by {
            if field@ == "reason"@ { assert(v@[0]@ == field@); }
            if field@ == "evidence_refs_json"@ { assert(v@[1]@ == field@); }
            if field@ == "model"@ { assert(v@[2]@ == field@); }
            if field@ == "harness"@ { assert(v@[3]@ == field@); }
            if field@ == "harness_version"@ { assert(v@[4]@ == field@); }
        }
        a
    } else if str_eq(table, "provenance_receipts") {
        str_eq(field, "actor")
    } else {
        false
    };
    if !allowed {
        return None;
    }
    let issue_id_column = if str_eq(table, "issues") {
        Some("id")
    } else if str_eq(table, "comments") || str_eq(table, "issue_data") || str_eq(table, "external_references")
        || str_eq(table, "attempt_outcomes") {
        Some("issue_id")
    } else {
        None
    };
    let integrity_hash_column = if str_eq(table, "events") {
        Some("event_sha256")
    } else if str_eq(table, "provenance_receipts") {
        Some("receipt_sha256")
    } else {
        None
    };
    Some(TargetSpec { is_issue_row: str_eq(table, "issues"), issue_id_column, integrity_hash_column })
}

/// `f1 IS ?n AND f2 IS ?n+1 ...`: the row-identity predicate with
/// positional parameters numbered from `first`.
pub open spec fn identity_predicate_spec(fields: Seq<Seq<char>>, first: int) -> Seq<char> {
    join_seq(Seq::new(fields.len(), |i: int| fields[i] + " IS ?"@ + int_text(first + i)), " AND "@)
}

/// The row-identity predicate over `fields`, parameters numbered from
/// `first_parameter`.
pub fn identity_predicate(fields: &Vec<String>, first_parameter: usize) -> (r: String)
    requires
        first_parameter + fields@.len() <= usize::MAX,
    ensures
        r@ == identity_predicate_spec(sv(fields@), first_parameter as int),
{
    let mut parts: Vec<String> = Vec::new();
    let mut i: usize = 0;
    while i < fields.len()
        invariant
            i <= fields@.len(),
            first_parameter + fields@.len() <= usize::MAX,
            sv(parts@) == Seq::new(i as nat, |k: int| sv(fields@)[k] + " IS ?"@ + int_text(first_parameter + k)),
        decreases fields@.len() - i,
    {
        let n = u64_text((first_parameter + i) as u64);
        let part = cat3(fields[i].as_str(), " IS ?", n.as_str());
        let ghost before = sv(parts@);
        parts.push(part);
        assert(sv(parts@) =~= before.push(fields@[i as int]@ + " IS ?"@ + int_text(first_parameter + i)));
        assert(sv(parts@) =~= Seq::new((i + 1) as nat, |k: int| sv(fields@)[k] + " IS ?"@ + int_text(first_parameter + k)));
        i = i + 1;
    }
    crate::text::join(&parts, " AND ")
}

/// The text with the bytes `start..end` replaced by `marker`, when both
/// offsets lie on character boundaries in order; `None` otherwise.
pub open spec fn spliced(current: Seq<char>, start: int, end: int, marker: Seq<char>) -> Option<Seq<char>> {
    let b = vstd::utf8::encode_utf8(current);
    if start <= end && end <= b.len() && vstd::utf8::is_char_boundary(b, start) && vstd::utf8::is_char_boundary(b, end) {
        Some(vstd::utf8::decode_utf8(b.subrange(0, start)) + marker + vstd::utf8::decode_utf8(b.subrange(end, b.len() as int)))
    } else {
        None
    }
}

/// Replace exactly the finding's byte range with the marker; a range that
/// no longer falls on character boundaries is a conflict.
pub fn splice_marker(current: &str, start: usize, end: usize, marker: &str) -> (r: Result<String, RedactionError>)
    ensures
        match spliced(current@, start as int, end as int, marker@) {
            Some(t) => r matches Ok(s) && s@ == t,
            None => r matches Err(RedactionError::Conflict(m)) && m@ == "finding byte range is no longer a UTF-8 boundary"@,
        },
{
    proof {
        vstd::utf8::encode_utf8_valid_utf8(current@);
    }
    if !(start <= end && current.is_char_boundary(start) && current.is_char_boundary(end)) {
        return Err(RedactionError::Conflict(owned("finding byte range is no longer a UTF-8 boundary")));
    }
    let (head, _) = current.split_at(start);
    let (_, tail) = current.split_at(end);
    proof {
        let b = vstd::utf8::encode_utf8(current@);
        vstd::utf8::encode_utf8_decode_utf8(head@);
        vstd::utf8::encode_utf8_decode_utf8(tail@);
        assert(head@ == vstd::utf8::decode_utf8(b.subrange(0, start as int)));
        assert(tail@ == vstd::utf8::decode_utf8(b.subrange(end as int, b.len() as int)));
    }
    Ok(cat3(head, marker, tail))
}

/// A column value as the store holds it; a real number is carried by the
/// bits of its IEEE 754 representation.
#[derive(Debug, Clone)]
pub enum RecordValue {
    Null,
    Integer(i64),
    Real(u64),
    Text(String),
    Blob(Vec<u8>),
}

/// The eight big-endian bytes of a 64-bit word.
pub open spec fn be_bytes(n: u64) -> Seq<u8> {
    seq![(n >> 56u64) as u8, (n >> 48u64) as u8, (n >> 40u64) as u8, (n >> 32u64) as u8,
        (n >> 24u64) as u8, (n >> 16u64) as u8, (n >> 8u64) as u8, n as u8]
}

fn push_be(out: &mut Vec<u8>, n: u64)
    ensures
        final(out)@ == old(out)@ + be_bytes(n),
{
    out.push((n >> 56u64) as u8);
    out.push((n >> 48u64) as u8);
    out.push((n >> 40u64) as u8);
    out.push((n >> 32u64) as u8);
    out.push((n >> 24u64) as u8);
    out.push((n >> 16u64) as u8);
    out.push((n >> 8u64) as u8);
    out.push(n as u8);
    assert(final(out)@ =~= old(out)@ + be_bytes(n));
}

/// One framed part: its length as eight big-endian bytes, then the bytes.
pub open spec fn part(bytes: Seq<u8>) -> Seq<u8> {
    be_bytes(bytes.len() as u64) + bytes
}

fn push_part(out: &mut Vec<u8>, bytes: &[u8])
    ensures
        final(out)@ == old(out)@ + part(bytes@),
{
    push_be(out, bytes.len() as u64);
    let ghost mid = out@;
    let mut i: usize = 0;
    while i < bytes.len()
        invariant
            i <= bytes@.len(),
            out@ == mid + bytes@.take(i as int),
        decreases bytes@.len() - i,
    {
        out.push(bytes[i]);
        assert(bytes@.take(i + 1) =~= bytes@.take(i as int).push(bytes@[i as int]));
        i = i + 1;
    }
    assert(bytes@.take(bytes@.len() as int) =~= bytes@);
    assert(out@ =~= old(out)@ + part(bytes@));
}

pub open spec fn utf8(s: Seq<char>) -> Seq<u8> {
    vstd::utf8::encode_utf8(s)
}

/// One value's framed parts: its kind's tag, then its bytes.
pub open spec fn value_parts(v: RecordValue) -> Seq<u8> {
    match v {
        RecordValue::Null => part(utf8("null"@)),
        RecordValue::Integer(n) => part(utf8("integer"@)) + part(be_bytes(n as u64)),
        RecordValue::Real(bits) => part(utf8("real"@)) + part(be_bytes(bits)),
        RecordValue::Text(t) => part(utf8("text"@)) + part(utf8(t@)),
        RecordValue::Blob(b) => part(utf8("blob"@)) + part(b@),
    }
}

/// The columns paired with their values, as far as both go.
pub open spec fn record_parts(columns: Seq<Seq<char>>, values: Seq<RecordValue>, n: nat) -> Seq<u8>
    decreases n,
{
    if n == 0 {
        Seq::empty()
    } else {
        record_parts(columns, values, (n - 1) as nat) + part(utf8(columns[n - 1])) + value_parts(values[n - 1])
    }
}

pub open spec fn pairs(columns: Seq<Seq<char>>, values: Seq<RecordValue>) -> nat {
    if columns.len() < values.len() { columns.len() } else { values.len() }
}

/// The hashed input of a target record: a version tag, the table, then each
/// column with its value, every part framed by its length.
pub open spec fn record_hash_input(table: Seq<char>, columns: Seq<Seq<char>>, values: Seq<RecordValue>) -> Seq<u8> {
    part(utf8("bead-rs-redaction-record-v1"@)) + part(utf8(table)) + record_parts(columns, values, pairs(columns, values))
}

fn be_of(n: u64) -> (r: Vec<u8>)
    ensures
        r@ == be_bytes(n),
{
    let mut v: Vec<u8> = Vec::new();
    push_be(&mut v, n);
    assert(v@ =~= be_bytes(n));
    v
}

/// The lowercase hexadecimal SHA-256 of a target record's framed values.
pub fn hash_target_values(table: &str, columns: &Vec<String>, values: &Vec<RecordValue>) -> (r: String)
    ensures
        r@ == sha256_hex(record_hash_input(table@, sv(columns@), values@)),
{
    let mut input: Vec<u8> = Vec::new();
    push_part(&mut input, "bead-rs-redaction-record-v1".as_bytes());
    push_part(&mut input, table.as_bytes());
    let n: usize = if columns.len() < values.len() { columns.len() } else { values.len() };
    let mut i: usize = 0;
    while i < n
        invariant
            n == pairs(sv(columns@), values@),
            n <= columns@.len(),
            n <= values@.len(),
            i <= n,
            input@ == part(utf8("bead-rs-redaction-record-v1"@)) + part(utf8(table@)) + record_parts(sv(columns@), values@, i as nat),
        decreases n - i,
    {
        push_part(&mut input, columns[i].as_str().as_bytes());
        match &values[i] {
            RecordValue::Null => {
                push_part(&mut input, "null".as_bytes());
            },
            RecordValue::Integer(v) => {
                push_part(&mut input, "integer".as_bytes());
                let b = be_of(*v as u64);
                push_part(&mut input, b.as_slice());
            },
            RecordValue::Real(bits) => {
                push_part(&mut input, "real".as_bytes());
                let b = be_of(*bits);
                push_part(&mut input, b.as_slice());
            },
            RecordValue::Text(t) => {
                push_part(&mut input, "text".as_bytes());
                push_part(&mut input, t.as_str().as_bytes());
            },
            RecordValue::Blob(b) => {
                push_part(&mut input, "blob".as_bytes());
                push_part(&mut input, b.as_slice());
            },
        }
        assert(input@ =~= part(utf8("bead-rs-redaction-record-v1"@)) + part(utf8(table@)) + record_parts(sv(columns@), values@, (i + 1) as nat));
        i = i + 1;
    }
    sha256_hex_of(input.as_slice())
}

/// The receipt hash of a provenance receipt row: the SHA-256 of its six
/// fields' bytes, unframed, in column order.
pub open spec fn provenance_input(parts: Seq<Seq<char>>) -> Seq<u8>
    decreases parts.len(),
{
    if parts.len() == 0 {
        Seq::empty()
    } else {
        provenance_input(parts.drop_last()) + utf8(parts.last())
    }
}

/// The lowercase hexadecimal receipt hash of a provenance receipt:
/// `receipt_id`, `kind`, `source_root_sha256`, `actor`, `created_at` and
/// `result`, hashed back to back.
pub fn provenance_receipt_hash(fields: &Vec<String>) -> (r: String)
    ensures
        r@ == sha256_hex(provenance_input(sv(fields@))),
{
    let mut input: Vec<u8> = Vec::new();
    let mut i: usize = 0;
    while i < fields.len()
        invariant
            i <= fields@.len(),
            input@ == provenance_input(sv(fields@).take(i as int)),
        decreases fields@.len() - i,
    {
        let bytes = fields[i].as_str().as_bytes();
        let ghost mid = input@;
        let mut j: usize = 0;
        while j < bytes.len()
            invariant
                j <= bytes@.len(),
                input@ == mid + bytes@.take(j as int),
            decreases bytes@.len() - j,
        {
            input.push(bytes[j]);
            assert(bytes@.take(j + 1) =~= bytes@.take(j as int).push(bytes@[j as int]));
            j = j + 1;
        }
        assert(bytes@.take(bytes@.len() as int) =~= bytes@);
        assert(sv(fields@).take(i + 1).drop_last() =~= sv(fields@).take(i as int));
        i = i + 1;
    }
    assert(sv(fields@).take(fields@.len() as int) =~= sv(fields@));
    sha256_hex_of(input.as_slice())
}

/// Whether a column name is made of ASCII letters, digits and `_`.
pub open spec fn plain_column(c: Seq<char>) -> bool {
    forall|i: int| 0 <= i < c.len() ==> #[trigger] c[i] == '_' || ('a' <= c[i] && c[i] <= 'z') || ('A' <= c[i] && c[i] <= 'Z')
        || ('0' <= c[i] && c[i] <= '9')
}

fn is_plain(c: &str) -> (r: bool)
    ensures
        r == plain_column(c@),
{
    let cs = chars_of(c);
    let mut i: usize = 0;
    while i < cs.len()
        invariant
            i <= cs@.len(),
            cs@ == c@,
            forall|k: int| 0 <= k < i ==> #[trigger] cs@[k] == '_' || ('a' <= cs@[k] && cs@[k] <= 'z')
                || ('A' <= cs@[k] && cs@[k] <= 'Z') || ('0' <= cs@[k] && cs@[k] <= '9'),
        decreases cs@.len() - i,
    {
        let x = cs[i];
        if !(x == '_' || ('a' <= x && x <= 'z') || ('A' <= x && x <= 'Z') || ('0' <= x && x <= '9')) {
            return false;
        }
        i = i + 1;
    }
    true
}

/// The columns that are hashed: every column but the row's own integrity
/// hash column.
pub open spec fn hashed_columns(columns: Seq<Seq<char>>, excluded: Option<Seq<char>>) -> Seq<Seq<char>> {
    columns.filter(|c: Seq<char>| Some(c) != excluded)
}

/// The columns a record hash covers, refusing an empty layout or a column
/// name that is not plain.
pub fn hashed_column_layout(columns: &Vec<String>, excluded: Option<&str>) -> (r: Result<Vec<String>, RedactionError>)
    ensures
        ({
            let kept = hashed_columns(sv(columns@), crate::git_commit::opt_str(excluded));
            if kept.len() > 0 && forall|i: int| 0 <= i < kept.len() ==> plain_column(#[trigger] kept[i]) {
                r matches Ok(v) && sv(v@) == kept
            } else {
                r matches Err(RedactionError::Integrity(m)) && m@ == "redaction target has an unsafe column layout"@
            }
        }),
{
    let ghost ex = crate::git_commit::opt_str(excluded);
    let ghost keep = |c: Seq<char>| Some(c) != ex;
    let mut kept: Vec<String> = Vec::new();
    let mut plain = true;
    let mut i: usize = 0;
    while i < columns.len()
        invariant
            i <= columns@.len(),
            ex == crate::git_commit::opt_str(excluded),
            keep == (|c: Seq<char>| Some(c) != ex),
            sv(kept@) == sv(columns@).take(i as int).filter(keep),
            plain == forall|k: int| 0 <= k < kept@.len() ==> plain_column(#[trigger] sv(kept@)[k]),
        decreases columns@.len() - i,
    {
        proof {
            assert(sv(columns@).take(i + 1).drop_last() =~= sv(columns@).take(i as int));
            reveal_with_fuel(Seq::filter, 1);
        }
        let c = columns[i].as_str();
        let skip = match excluded {
            Some(x) => str_eq(c, x),
            None => false,
        };
        if !skip {
            let ok = is_plain(c);
            let ghost before = sv(kept@);
            kept.push(columns[i].clone());
            assert(sv(kept@) =~= before.push(c@));
            if !ok {
                plain = false;
            }
            assert(plain == forall|k: int| 0 <= k < kept@.len() ==> plain_column(#[trigger] sv(kept@)[k])) by {
                if !plain {
                    if ok {
                        let k = choose|k: int| 0 <= k < before.len() && !plain_column(#[trigger] before[k]);
                        assert(sv(kept@)[k] == before[k]);
                    } else {
                        assert(!plain_column(sv(kept@)[before.len() as int]));
                    }
                }
            }
        }
        i = i + 1;
    }
    assert(sv(columns@).take(columns@.len() as int) =~= sv(columns@));
    if kept.len() > 0 && plain {
        Ok(kept)
    } else {
        Err(RedactionError::Integrity(owned("redaction target has an unsafe column layout")))
    }
}

/// An identical request replays the committed receipt; a different actor
/// or reason for an already redacted finding conflicts.
pub fn replay_check(committed_actor: &str, committed_reason: &str, actor: &str, reason: &str) -> (r: Result<(), RedactionError>)
    ensures
        (committed_actor@ == actor@ && committed_reason@ == reason@) ==> r is Ok,
        !(committed_actor@ == actor@ && committed_reason@ == reason@) ==> (r matches Err(RedactionError::Conflict(m))
            && m@ == "finding already has a receipt for a different request"@),
{
    if !str_eq(committed_actor, actor) || !str_eq(committed_reason, reason) {
        return Err(RedactionError::Conflict(owned("finding already has a receipt for a different request")));
    }
    Ok(())
}

/// A redaction must change the target's record hash.
pub fn hash_changed_check(prior: &str, sanitized: &str) -> (r: Result<(), RedactionError>)
    ensures
        prior@ != sanitized@ ==> r is Ok,
        prior@ == sanitized@ ==> (r matches Err(RedactionError::Integrity(m)) && m@ == "redaction did not change the target record hash"@),
{
    if str_eq(prior, sanitized) {
        return Err(RedactionError::Integrity(owned("redaction did not change the target record hash")));
    }
    Ok(())
}

/// Whether the 64-bit pattern is a NaN.
pub open spec fn nan_bits(b: u64) -> bool {
    (b & 0x7ff0_0000_0000_0000u64) == 0x7ff0_0000_0000_0000u64 && (b & 0x000f_ffff_ffff_ffffu64) != 0
}

/// Whether the 64-bit pattern is a zero of either sign.
pub open spec fn zero_bits(b: u64) -> bool {
    (b & 0x7fff_ffff_ffff_ffffu64) == 0
}

/// Equality of two column values as the store's value type compares them:
/// by variant and content, real numbers by IEEE 754 equality (no NaN is
/// equal to anything, and the two zeros are equal).
pub open spec fn same_value(a: RecordValue, b: RecordValue) -> bool {
    match (a, b) {
        (RecordValue::Null, RecordValue::Null) => true,
        (RecordValue::Integer(x), RecordValue::Integer(y)) => x == y,
        (RecordValue::Real(x), RecordValue::Real(y)) => !nan_bits(x) && !nan_bits(y) && (x == y || (zero_bits(x) && zero_bits(y))),
        (RecordValue::Text(x), RecordValue::Text(y)) => x@ == y@,
        (RecordValue::Blob(x), RecordValue::Blob(y)) => x@ == y@,
        _ => false,
    }
}

fn bytes_eq(x: &Vec<u8>, y: &Vec<u8>) -> (r: bool)
    ensures
        r == (x@ == y@),
{
    if x.len() != y.len() {
        return false;
    }
    let mut i: usize = 0;
    while i < x.len()
        invariant
            i <= x@.len(),
            x@.len() == y@.len(),
            forall|k: int| 0 <= k < i ==> x@[k] == y@[k],
        decreases x@.len() - i,
    {
        if x[i] != y[i] {
            assert(x@[i as int] != y@[i as int]);
            return false;
        }
        i = i + 1;
    }
    assert(x@ =~= y@);
    true
}

fn value_eq(a: &RecordValue, b: &RecordValue) -> (r: bool)
    ensures
        r == same_value(*a, *b),
{
    match (a, b) {
        (RecordValue::Null, RecordValue::Null) => true,
        (RecordValue::Integer(x), RecordValue::Integer(y)) => *x == *y,
        (RecordValue::Real(x), RecordValue::Real(y)) => {
            let nan_x = (*x & 0x7ff0_0000_0000_0000u64) == 0x7ff0_0000_0000_0000u64 && (*x & 0x000f_ffff_ffff_ffffu64) != 0;
            let nan_y = (*y & 0x7ff0_0000_0000_0000u64) == 0x7ff0_0000_0000_0000u64 && (*y & 0x000f_ffff_ffff_ffffu64) != 0;
            let zeros = (*x & 0x7fff_ffff_ffff_ffffu64) == 0 && (*y & 0x7fff_ffff_ffff_ffffu64) == 0;
            !nan_x && !nan_y && (*x == *y || zeros)
        },
        (RecordValue::Text(x), RecordValue::Text(y)) => str_eq(x.as_str(), y.as_str()),
        (RecordValue::Blob(x), RecordValue::Blob(y)) => bytes_eq(x, y),
        _ => false,
    }
}

/// Where a live finding sits: the table and field of its record, the
/// values that identify the row, and the finding's byte range.
#[derive(Debug, Clone)]
pub struct FindingLocation {
    pub table: String,
    pub field: String,
    pub identity_values: Vec<RecordValue>,
    pub start: usize,
    pub end: usize,
}

/// The two locations name the same bytes of the same record.
pub open spec fn same_location(a: FindingLocation, b: FindingLocation) -> bool {
    &&& a.table@ == b.table@
    &&& a.field@ == b.field@
    &&& a.identity_values@.len() == b.identity_values@.len()
    &&& forall|k: int| 0 <= k < a.identity_values@.len() ==> same_value(#[trigger] a.identity_values@[k], b.identity_values@[k])
    &&& a.start == b.start
    &&& a.end == b.end
}

fn location_eq(a: &FindingLocation, b: &FindingLocation) -> (r: bool)
    ensures
        r == same_location(*a, *b),
{
    if !str_eq(a.table.as_str(), b.table.as_str()) || !str_eq(a.field.as_str(), b.field.as_str())
        || a.start != b.start || a.end != b.end || a.identity_values.len() != b.identity_values.len() {
        return false;
    }
    let mut i: usize = 0;
    while i < a.identity_values.len()
        invariant
            i <= a.identity_values@.len(),
            a.identity_values@.len() == b.identity_values@.len(),
            forall|k: int| 0 <= k < i ==> same_value(#[trigger] a.identity_values@[k], b.identity_values@[k]),
        decreases a.identity_values@.len() - i,
    {
        if !value_eq(&a.identity_values[i], &b.identity_values[i]) {
            return false;
        }
        i = i + 1;
    }
    true
}

/// The locate step of a redaction: the live finding the transaction found
/// must be the one the preview located (when there was a preview), and
/// there must be one.
pub open spec fn locate_refusal(expected: Option<FindingLocation>, current: Option<FindingLocation>) -> Option<RedactionRefusal> {
    match (expected, current) {
        (Some(_), None) => Some((RefusalKind::Conflict, "finding changed before the redaction transaction"@)),
        (Some(e), Some(c)) => if !same_location(c, e) {
            Some((RefusalKind::Conflict, "finding selector changed before the redaction transaction"@))
        } else {
            None
        },
        (None, None) => Some((RefusalKind::NotFound, "no current live finding matches that fingerprint"@)),
        (None, Some(_)) => None,
    }
}

/// The kind of a redaction refusal, without its message.
#[derive(Debug, Clone, Copy, PartialEq, Eq, Structural)]
pub enum RefusalKind {
    Usage,
    NotFound,
    Conflict,
    Integrity,
}

/// A refusal as plain values.
pub type RedactionRefusal = (RefusalKind, Seq<char>);

/// The error is of this kind and carries this message.
pub open spec fn refuses(e: RedactionError, r: RedactionRefusal) -> bool {
    match e {
        RedactionError::Usage(m) => r.0 == RefusalKind::Usage && m@ == r.1,
        RedactionError::NotFound(m) => r.0 == RefusalKind::NotFound && m@ == r.1,
        RedactionError::Conflict(m) => r.0 == RefusalKind::Conflict && m@ == r.1,
        RedactionError::Integrity(m) => r.0 == RefusalKind::Integrity && m@ == r.1,
    }
}

/// Check the live finding the redaction transaction located against the
/// one the caller's preview located (see `locate_refusal`).
pub fn locate_check(expected: Option<&FindingLocation>, current: Option<&FindingLocation>) -> (r: Result<(), RedactionError>)
    ensures
        match locate_refusal(match expected { Some(x) => Some(*x), None => None }, match current { Some(x) => Some(*x), None => None }) {
            None => r is Ok,
            Some(f) => r matches Err(e) && refuses(e, f),
        },
{
    match (expected, current) {
        (Some(_), None) => Err(RedactionError::Conflict(owned("finding changed before the redaction transaction"))),
        (Some(e), Some(c)) => {
            if !location_eq(c, e) {
                Err(RedactionError::Conflict(owned("finding selector changed before the redaction transaction")))
            } else {
                Ok(())
            }
        },
        (None, None) => Err(RedactionError::NotFound(owned("no current live finding matches that fingerprint"))),
        (None, Some(_)) => Ok(()),
    }
}

/// The rescan of the current field text must find the fingerprint again,
/// at the located byte range and under the same rule.
pub open spec fn rescan_refusal(rescanned: Option<(usize, usize, Seq<char>)>, start: usize, end: usize, rule_id: Seq<char>) -> Option<Seq<char>> {
    match rescanned {
        None => Some("finding changed before the redaction transaction"@),
        Some((s, e, r)) => if s != start || e != end || r != rule_id {
            Some("finding selector changed before the redaction transaction"@)
        } else {
            None
        },
    }
}

/// Check the rescan of the current field text (the matching finding's
/// range and rule, if the fingerprint was found again) against the
/// location; both refusals are conflicts.
pub fn rescan_check(rescanned: Option<(usize, usize, &str)>, start: usize, end: usize, rule_id: &str) -> (r: Result<(), RedactionError>)
    ensures
        match rescan_refusal(match rescanned { Some((s, e, x)) => Some((s, e, x@)), None => None }, start, end, rule_id@) {
            None => r is Ok,
            Some(m) => r matches Err(RedactionError::Conflict(t)) && t@ == m,
        },
{
    match rescanned {
        None => Err(RedactionError::Conflict(owned("finding changed before the redaction transaction"))),
        Some((s, e, x)) => {
            if s != start || e != end || !str_eq(x, rule_id) {
                Err(RedactionError::Conflict(owned("finding selector changed before the redaction transaction")))
            } else {
                Ok(())
            }
        },
    }
}

/// A column value as plain values.
pub enum ValueView {
    Null,
    Integer(i64),
    Real(u64),
    Text(Seq<char>),
    Blob(Seq<u8>),
}

pub open spec fn value_view(v: RecordValue) -> ValueView {
    match v {
        RecordValue::Null => ValueView::Null,
        RecordValue::Integer(n) => ValueView::Integer(n),
        RecordValue::Real(b) => ValueView::Real(b),
        RecordValue::Text(t) => ValueView::Text(t@),
        RecordValue::Blob(b) => ValueView::Blob(b@),
    }
}

pub open spec fn values_view(v: Seq<RecordValue>) -> Seq<ValueView> {
    v.map_values(|x: RecordValue| value_view(x))
}

/// `k` is the first position of `name` among the columns.
pub open spec fn first_at(cols: Seq<Seq<char>>, name: Seq<char>, k: int) -> bool {
    0 <= k < cols.len() && cols[k] == name && forall|j: int| 0 <= j < k ==> cols[j] != name
}

/// The record a redaction would leave: the target field's value replaced
/// by the sanitized text and, for an issue row, its revision advanced by
/// one; a missing field or revision column, or a revision that is not an
/// integer, is an integrity failure.
pub open spec fn sanitized_spec(cols: Seq<Seq<char>>, vals: Seq<ValueView>, field: Seq<char>, text: Seq<char>, is_issue_row: bool)
    -> Result<Seq<ValueView>, Seq<char>>
{
    if !(exists|k: int| first_at(cols, field, k)) {
        Err("redaction preview target field disappeared"@)
    } else {
        let f = choose|k: int| first_at(cols, field, k);
        let v1 = vals.update(f, ValueView::Text(text));
        if !is_issue_row {
            Ok(v1)
        } else if !(exists|k: int| first_at(cols, "revision"@, k)) {
            Err("issue redaction preview has no revision"@)
        } else {
            let ri = choose|k: int| first_at(cols, "revision"@, k);
            match v1[ri] {
                ValueView::Integer(n) => Ok(v1.update(ri, ValueView::Integer((n + 1) as i64))),
                _ => Err("issue redaction preview has invalid revision"@),
            }
        }
    }
}

proof fn lemma_first_at_unique(cols: Seq<Seq<char>>, name: Seq<char>, a: int, b: int)
    requires
        first_at(cols, name, a),
        first_at(cols, name, b),
    ensures
        a == b,
{
}

fn first_column(columns: &Vec<String>, name: &str) -> (r: Option<usize>)
    ensures
        match r {
            Some(k) => first_at(sv(columns@), name@, k as int),
            None => !(exists|k: int| first_at(sv(columns@), name@, k)),
        },
{
    let mut i: usize = 0;
    while i < columns.len()
        invariant
            i <= columns@.len(),
            forall|j: int| 0 <= j < i ==> sv(columns@)[j] != name@,
        decreases columns@.len() - i,
    {
        if str_eq(columns[i].as_str(), name) {
            return Some(i);
        }
        i = i + 1;
    }
    proof {
        if exists|k: int| first_at(sv(columns@), name@, k) {
            let k = choose|k: int| first_at(sv(columns@), name@, k);
            assert(sv(columns@)[k] != name@);
        }
    }
    None
}

fn copy_value(v: &RecordValue) -> (r: RecordValue)
    ensures
        value_view(r) == value_view(*v),
{
    match v {
        RecordValue::Null => RecordValue::Null,
        RecordValue::Integer(n) => RecordValue::Integer(*n),
        RecordValue::Real(b) => RecordValue::Real(*b),
        RecordValue::Text(t) => RecordValue::Text(t.clone()),
        RecordValue::Blob(b) => RecordValue::Blob(b.clone()),
    }
}

/// The values of the record a redaction would leave (see
/// `sanitized_spec`), whose hash the preview reports.
pub fn sanitized_record(
    columns: &Vec<String>,
    values: &Vec<RecordValue>,
    field: &str,
    sanitized: &str,
    is_issue_row: bool,
) -> (r: Result<Vec<RecordValue>, RedactionError>)
    requires
        columns@.len() == values@.len(),
        forall|k: int| 0 <= k < values@.len() && sv(columns@)[k] == "revision"@ ==>
            (#[trigger] values@[k] matches RecordValue::Integer(n) ==> n < i64::MAX),
    ensures
        match sanitized_spec(sv(columns@), values_view(values@), field@, sanitized@, is_issue_row) {
            Ok(v) => r matches Ok(out) && values_view(out@) == v,
            Err(m) => r matches Err(RedactionError::Integrity(t)) && t@ == m,
        },
{
    proof {
        reveal_strlit("revision");
    }
    let f = match first_column(columns, field) {
        Some(f) => f,
        None => {
            return Err(RedactionError::Integrity(owned("redaction preview target field disappeared")));
        },
    };
    let mut out: Vec<RecordValue> = Vec::new();
    let mut i: usize = 0;
    while i < values.len()
        invariant
            i <= values@.len(),
            values_view(out@) == values_view(values@).take(i as int),
        decreases values@.len() - i,
    {
        out.push(copy_value(&values[i]));
        assert(values_view(values@).take(i + 1) =~= values_view(values@).take(i as int).push(value_view(values@[i as int])));
        assert(values_view(out@) =~= values_view(values@).take(i + 1));
        i = i + 1;
    }
    assert(values_view(values@).take(values@.len() as int) =~= values_view(values@));
    let ghost vv = values_view(values@);
    proof {
        let c = choose|k: int| first_at(sv(columns@), field@, k);
        lemma_first_at_unique(sv(columns@), field@, c, f as int);
    }
    out.set(f, RecordValue::Text(owned(sanitized)));
    assert(values_view(out@) =~= vv.update(f as int, ValueView::Text(sanitized@)));
    if !is_issue_row {
        return Ok(out);
    }
    let ri = match first_column(columns, "revision") {
        Some(k) => k,
        None => {
            return Err(RedactionError::Integrity(owned("issue redaction preview has no revision")));
        },
    };
    proof {
        let c = choose|k: int| first_at(sv(columns@), "revision"@, k);
        lemma_first_at_unique(sv(columns@), "revision"@, c, ri as int);
    }
    let ghost v1 = values_view(out@);
    let n = match &out[ri] {
        RecordValue::Integer(n) => *n,
        _ => {
            return Err(RedactionError::Integrity(owned("issue redaction preview has invalid revision")));
        },
    };
    out.set(ri, RecordValue::Integer(n + 1));
    assert(values_view(out@) =~= v1.update(ri as int, ValueView::Integer((n + 1) as i64)));
    Ok(out)
}

/// How long a redaction waits for the workspace maintenance lock, in
/// seconds.
pub const MAINTENANCE_LOCK_TIMEOUT_SECS: u64 = 30;

/// How long it sleeps between attempts, in milliseconds.
pub const MAINTENANCE_LOCK_POLL_MILLIS: u64 = 10;

/// What one attempt to take the maintenance lock without blocking gave.
#[derive(Debug, Clone, Copy, PartialEq, Eq, Structural)]
pub enum LockAttempt {
    Acquired,
    /// Another holder has it.
    Busy,
    /// Any other failure.
    Failed,
}

/// What to do after an attempt.
#[derive(Debug)]
pub enum LockStep {
    Held,
    /// Sleep for the poll interval and try again.
    Retry,
    Refused(RedactionError),
}

/// Taking the maintenance lock: an acquired lock is held; a busy lock is
/// retried until the deadline has passed, then refused as busy; any other
/// failure is refused at once.
pub fn maintenance_lock_step(attempt: LockAttempt, deadline_passed: bool) -> (r: LockStep)
    ensures
        attempt == LockAttempt::Acquired ==> r is Held,
        attempt == LockAttempt::Busy && !deadline_passed ==> r is Retry,
        attempt == LockAttempt::Busy && deadline_passed ==> (r matches LockStep::Refused(RedactionError::Integrity(m))
            && m@ == "workspace maintenance lock is busy"@),
        attempt == LockAttempt::Failed ==> (r matches LockStep::Refused(RedactionError::Integrity(m))
            && m@ == "could not acquire workspace maintenance lock"@),
{
    match attempt {
        LockAttempt::Acquired => LockStep::Held,
        LockAttempt::Busy => {
            if deadline_passed {
                LockStep::Refused(RedactionError::Integrity(owned("workspace maintenance lock is busy")))
            } else {
                LockStep::Retry
            }
        },
        LockAttempt::Failed => LockStep::Refused(RedactionError::Integrity(owned("could not acquire workspace maintenance lock"))),
    }
}

} // verus!

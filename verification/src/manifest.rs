//! Bulk transaction manifests: the closed v1 operation set, document
//! validation (local id syntax and uniqueness, static resolution of `$name`
//! references, updates that change something), and the per-operation
//! bookkeeping the executor needs. Reading JSON and running the operations
//! against the store happen outside this crate.
use vstd::prelude::*;
use crate::error::Error;
use crate::text::{cat, cat3, chars_of, int_text, list_contains, owned, push_str, str_eq, string_of, sv, u64_text, utf8_len, byte_len};

verus! {

broadcast use vstd::string::group_string_axioms;

/// The only manifest version this implementation accepts.
pub const MANIFEST_VERSION: i64 = 1;

/// Maximum number of bytes of one manifest file.
pub const MAX_MANIFEST_BYTES: u64 = 8388608;

/// Maximum length of one `local_id` in UTF-8 bytes.
pub const MAX_LOCAL_ID_BYTES: usize = 64;

/// `create`.
#[derive(Debug, Clone)]
pub struct CreateOp {
    pub local_id: Option<String>,
    pub title: String,
    pub description: Option<String>,
    pub priority: i64,
    pub issue_type: Option<String>,
    pub assignee: Option<String>,
    pub labels: Vec<String>,
    pub resource_keys: Vec<String>,
    pub unique_ref: Option<String>,
}

/// `update`.
#[derive(Debug, Clone)]
pub struct UpdateOp {
    pub id: String,
    pub status: Option<String>,
    pub assignee: Option<String>,
    pub clear_assignee: bool,
    pub notes: Option<String>,
    pub if_revision: Option<i64>,
}

/// `label_add` and `label_remove`.
#[derive(Debug, Clone)]
pub struct LabelOp {
    pub id: String,
    pub label: String,
}

/// `dep_add`.
#[derive(Debug, Clone)]
pub struct DepAddOp {
    pub blocked: String,
    pub blocker: String,
    pub kind: String,
}

/// `dep_remove`.
#[derive(Debug, Clone)]
pub struct DepRemoveOp {
    pub blocked: String,
    pub blocker: String,
    pub kind: Option<String>,
}

/// `close`.
#[derive(Debug, Clone)]
pub struct CloseOp {
    pub id: String,
    pub reason: String,
    pub if_revision: Option<i64>,
}

/// The v1 operation set: each variant is exactly one existing command.
#[derive(Debug, Clone)]
pub enum ManifestOp {
    Create(CreateOp),
    Update(UpdateOp),
    LabelAdd(LabelOp),
    LabelRemove(LabelOp),
    DepAdd(DepAddOp),
    DepRemove(DepRemoveOp),
    Close(CloseOp),
}

/// One document-validated manifest.
#[derive(Debug, Clone)]
pub struct Manifest {
    pub version: i64,
    pub operations: Vec<ManifestOp>,
}

/// The command name of an operation.
pub open spec fn kind_of(op: ManifestOp) -> Seq<char> {
    match op {
        ManifestOp::Create(_) => "create"@,
        ManifestOp::Update(_) => "update"@,
        ManifestOp::LabelAdd(_) => "label_add"@,
        ManifestOp::LabelRemove(_) => "label_remove"@,
        ManifestOp::DepAdd(_) => "dep_add"@,
        ManifestOp::DepRemove(_) => "dep_remove"@,
        ManifestOp::Close(_) => "close"@,
    }
}

impl ManifestOp {
    /// The command kind name used in reports and error context.
    pub fn kind(&self) -> (r: &'static str)
        ensures
            r@ == kind_of(*self),
    {
        match self {
            ManifestOp::Create(_) => "create",
            ManifestOp::Update(_) => "update",
            ManifestOp::LabelAdd(_) => "label_add",
            ManifestOp::LabelRemove(_) => "label_remove",
            ManifestOp::DepAdd(_) => "dep_add",
            ManifestOp::DepRemove(_) => "dep_remove",
            ManifestOp::Close(_) => "close",
        }
    }
}

/// The priority a create without one receives.
pub fn default_priority() -> (r: i64)
    ensures
        r == 2,
{
    2
}

/// The dependency kind a `dep_add` without one receives.
pub fn default_dep_kind() -> (r: String)
    ensures
        r@ == "blocks"@,
{
    owned("blocks")
}

/// The least index `i` in `lo..n` where `f(i)` is `Some`, and its value.
pub open spec fn first_some(f: spec_fn(int) -> Option<Seq<char>>, lo: int, n: int) -> Option<Seq<char>>
    decreases n - lo,
{
    if lo >= n {
        None
    } else if f(lo) is Some {
        f(lo)
    } else {
        first_some(f, lo + 1, n)
    }
}

/// The local ids the creates before position `i` declare.
pub open spec fn defined_before(ops: Seq<ManifestOp>, i: int) -> Set<Seq<char>> {
    Set::new(|name: Seq<char>| exists|k: int| 0 <= k < i && #[trigger] declares(ops[k], name))
}

/// Whether an operation is a create declaring `name`.
pub open spec fn declares(op: ManifestOp, name: Seq<char>) -> bool {
    match op {
        ManifestOp::Create(c) => match c.local_id {
            Some(id) => id@ == name,
            None => false,
        },
        _ => false,
    }
}

pub open spec fn is_id_char(c: char) -> bool {
    ('a' <= c && c <= 'z') || ('A' <= c && c <= 'Z') || ('0' <= c && c <= '9') || c == '_' || c == '.'
        || c == '-'
}

/// `local_id` syntax: 1 to 64 bytes of ASCII letters, digits, `_`, `.`, `-`.
pub open spec fn local_id_ok(id: Seq<char>) -> bool {
    &&& id.len() > 0
    &&& utf8_len(id) <= 64
    &&& forall|k: int| 0 <= k < id.len() ==> is_id_char(#[trigger] id[k])
}

pub open spec fn op_prefix(i: int) -> Seq<char> {
    "operation "@ + int_text(i)
}

/// What is wrong with the local id declared at position `i`, if anything.
pub open spec fn local_id_problem(ops: Seq<ManifestOp>, i: int) -> Option<Seq<char>> {
    match ops[i] {
        ManifestOp::Create(c) => match c.local_id {
            Some(id) => if !local_id_ok(id@) {
                Some(op_prefix(i) + ": local_id must be 1-64 bytes of letters, digits, '_', '.', or '-' and must not contain '$'"@)
            } else if defined_before(ops, i).contains(id@) {
                Some(op_prefix(i) + ": local_id '"@ + id@ + "' is already defined"@)
            } else {
                None
            },
            None => None,
        },
        _ => None,
    }
}

fn id_chars_ok(id: &str) -> (r: bool)
    ensures
        r == local_id_ok(id@),
{
    let cs = chars_of(id);
    if cs.len() == 0 {
        return false;
    }
    if byte_len(id) > MAX_LOCAL_ID_BYTES {
        return false;
    }
    let mut k: usize = 0;
    while k < cs.len()
        invariant
            k <= cs@.len(),
            cs@ == id@,
            forall|j: int| 0 <= j < k ==> is_id_char(#[trigger] cs@[j]),
        decreases cs@.len() - k,
    {
        let c = cs[k];
        let ok = ('a' <= c && c <= 'z') || ('A' <= c && c <= 'Z') || ('0' <= c && c <= '9')
            || c == '_' || c == '.' || c == '-';
        if !ok {
            return false;
        }
        k = k + 1;
    }
    true
}

proof fn lemma_defined_step(ops: Seq<ManifestOp>, i: int)
    requires
        0 <= i < ops.len(),
    ensures
        defined_before(ops, i + 1) == match ops[i] {
            ManifestOp::Create(c) => match c.local_id {
                Some(id) => defined_before(ops, i).insert(id@),
                None => defined_before(ops, i),
            },
            _ => defined_before(ops, i),
        },
{
    let want = match ops[i] {
        ManifestOp::Create(c) => match c.local_id {
            Some(id) => defined_before(ops, i).insert(id@),
            None => defined_before(ops, i),
        },
        _ => defined_before(ops, i),
    };
    assert forall|n: Seq<char>| defined_before(ops, i + 1).contains(n) implies want.contains(n) by {
        let k = choose|k: int| 0 <= k < i + 1 && #[trigger] declares(ops[k], n);
        if k < i {
            assert(defined_before(ops, i).contains(n));
        }
    }
    assert forall|n: Seq<char>| want.contains(n) implies defined_before(ops, i + 1).contains(n) by {
        if defined_before(ops, i).contains(n) {
            let k = choose|k: int| 0 <= k < i && #[trigger] declares(ops[k], n);
            assert(declares(ops[k], n));
        } else {
            assert(declares(ops[i], n));
        }
    }
    assert(defined_before(ops, i + 1) =~= want);
}

proof fn lemma_first_some_step(f: spec_fn(int) -> Option<Seq<char>>, lo: int, n: int)
    requires
        lo < n,
        f(lo) is None,
    ensures
        first_some(f, lo, n) == first_some(f, lo + 1, n),
{
}

/// `local_id` syntax and uniqueness: the first create whose local id is
/// malformed or already declared is refused.
pub fn validate_local_ids(operations: &Vec<ManifestOp>) -> (r: Result<(), Error>)
    ensures
        r is Ok <==> first_some(|i: int| local_id_problem(operations@, i), 0, operations@.len() as int) is None,
        r matches Err(e) ==> e is Integrity
            && first_some(|i: int| local_id_problem(operations@, i), 0, operations@.len() as int) == Some(e.text()),
{
    let ghost ops = operations@;
    let ghost f = |i: int| local_id_problem(ops, i);
    let ghost n = ops.len() as int;
    let mut seen: Vec<String> = Vec::new();
    let mut i: usize = 0;
    while i < operations.len()
        invariant
            i <= ops.len(),
            ops == operations@,
            n == ops.len(),
            f == (|i: int| local_id_problem(ops, i)),
            first_some(f, 0, n) == first_some(f, i as int, n),
            sv(seen@).to_set() == defined_before(ops, i as int),
        decreases ops.len() - i,
    {
        proof {
            lemma_defined_step(ops, i as int);
        }
        match &operations[i] {
            ManifestOp::Create(create) => {
                match &create.local_id {
                    Some(local_id) => {
                        if !id_chars_ok(local_id.as_str()) {
                            let mut m = owned("operation ");
                            let t = u64_text(i as u64);
                            push_str(&mut m, t.as_str());
                            push_str(&mut m, ": local_id must be 1-64 bytes of letters, digits, '_', '.', or '-' and must not contain '$'");
                            proof {
                                assert(f(i as int) is Some);
                            }
                            return Err(Error::Integrity(m));
                        }
                        if list_contains(&seen, local_id.as_str()) {
                            assert(sv(seen@).to_set().contains(local_id@));
                            let mut m = owned("operation ");
                            let t = u64_text(i as u64);
                            push_str(&mut m, t.as_str());
                            push_str(&mut m, ": local_id '");
                            push_str(&mut m, local_id.as_str());
                            push_str(&mut m, "' is already defined");
                            proof {
                                assert(f(i as int) is Some);
                            }
                            return Err(Error::Integrity(m));
                        }
                        assert(!sv(seen@).to_set().contains(local_id@)) by {
                            if sv(seen@).to_set().contains(local_id@) {
                                assert(sv(seen@).contains(local_id@));
                            }
                        }
                        let ghost before = sv(seen@);
                        seen.push(local_id.clone());
                        proof {
                            assert(sv(seen@) =~= before.push(local_id@));
                            crate::text::lemma_push_to_set(before, local_id@);
                        }
                    },
                    None => {},
                }
            },
            _ => {},
        }
        proof {
            lemma_first_some_step(f, i as int, n);
        }
        i = i + 1;
    }
    Ok(())
}

/// The issue-naming fields of an operation, in order.
pub open spec fn targets_of(op: ManifestOp) -> Seq<Seq<char>> {
    match op {
        ManifestOp::Create(_) => Seq::empty(),
        ManifestOp::Update(u) => seq![u.id@],
        ManifestOp::LabelAdd(l) => seq![l.id@],
        ManifestOp::LabelRemove(l) => seq![l.id@],
        ManifestOp::DepAdd(d) => seq![d.blocked@, d.blocker@],
        ManifestOp::DepRemove(d) => seq![d.blocked@, d.blocker@],
        ManifestOp::Close(c) => seq![c.id@],
    }
}

/// Every issue-naming field of an operation, as raw strings.
pub fn target_fields(op: &ManifestOp) -> (r: Vec<String>)
    ensures
        sv(r@) == targets_of(*op),
{
    let mut v: Vec<String> = Vec::new();
    match op {
        ManifestOp::Create(_) => {},
        ManifestOp::Update(u) => v.push(u.id.clone()),
        ManifestOp::LabelAdd(l) => v.push(l.id.clone()),
        ManifestOp::LabelRemove(l) => v.push(l.id.clone()),
        ManifestOp::DepAdd(d) => {
            v.push(d.blocked.clone());
            v.push(d.blocker.clone());
        },
        ManifestOp::DepRemove(d) => {
            v.push(d.blocked.clone());
            v.push(d.blocker.clone());
        },
        ManifestOp::Close(c) => v.push(c.id.clone()),
    }
    assert(sv(v@) =~= targets_of(*op));
    v
}

/// A `$name` field whose name no earlier create declared.
pub open spec fn unresolved(ops: Seq<ManifestOp>, i: int, field: Seq<char>) -> bool {
    field.len() > 0 && field[0] == '$' && !defined_before(ops, i).contains(field.drop_first())
}

/// The first unresolved reference of the operation at `i`, as a refusal.
pub open spec fn reference_problem(ops: Seq<ManifestOp>, i: int) -> Option<Seq<char>> {
    let fs = targets_of(ops[i]);
    let msg = |f: Seq<char>| op_prefix(i) + " ("@ + kind_of(ops[i]) + "): local reference '"@ + f
        + "' does not name the local_id of an earlier create"@;
    if fs.len() > 0 && unresolved(ops, i, fs[0]) {
        Some(msg(fs[0]))
    } else if fs.len() > 1 && unresolved(ops, i, fs[1]) {
        Some(msg(fs[1]))
    } else {
        None
    }
}

/// The name a `$name` field refers to.
fn reference_name(field: &str) -> (r: Option<String>)
    ensures
        field@.len() > 0 && field@[0] == '$' ==> r is Some && r->0@ == field@.drop_first(),
        !(field@.len() > 0 && field@[0] == '$') ==> r is None,
{
    let cs = chars_of(field);
    if cs.len() > 0 && cs[0] == '$' {
        let rest = &cs.as_slice()[1..cs.len()];
        assert(rest@ =~= field@.drop_first());
        Some(string_of(rest))
    } else {
        None
    }
}

/// Static local-reference resolution: every `$name` must name the
/// `local_id` of an earlier create. The first unresolved reference (by
/// operation, then by field) is refused.
pub fn validate_references(operations: &Vec<ManifestOp>) -> (r: Result<(), Error>)
    ensures
        r is Ok <==> first_some(|i: int| reference_problem(operations@, i), 0, operations@.len() as int) is None,
        r matches Err(e) ==> e is Integrity
            && first_some(|i: int| reference_problem(operations@, i), 0, operations@.len() as int) == Some(e.text()),
{
    let ghost ops = operations@;
    let ghost f = |i: int| reference_problem(ops, i);
    let ghost n = ops.len() as int;
    let mut defined: Vec<String> = Vec::new();
    let mut i: usize = 0;
    while i < operations.len()
        invariant
            i <= ops.len(),
            ops == operations@,
            n == ops.len(),
            f == (|i: int| reference_problem(ops, i)),
            first_some(f, 0, n) == first_some(f, i as int, n),
            sv(defined@).to_set() == defined_before(ops, i as int),
        decreases ops.len() - i,
    {
        let op = &operations[i];
        let fields = target_fields(op);
        assert(sv(fields@).len() == fields@.len());
        let mut j: usize = 0;
        while j < fields.len()
            invariant
                j <= fields@.len(),
                sv(fields@) == targets_of(ops[i as int]),
                i < ops.len(),
                *op == ops[i as int],
                fields@.len() <= 2,
                ops == operations@,
                n == ops.len(),
                f == (|i: int| reference_problem(ops, i)),
                first_some(f, 0, n) == first_some(f, i as int, n),
                sv(defined@).to_set() == defined_before(ops, i as int),
                forall|k: int| 0 <= k < j ==> !unresolved(ops, i as int, #[trigger] sv(fields@)[k]),
            decreases fields@.len() - j,
        {
            let field = &fields[j];
            match reference_name(field.as_str()) {
                Some(name) => {
                    if !list_contains(&defined, name.as_str()) {
                        assert(!sv(defined@).to_set().contains(name@)) by {
                            if sv(defined@).to_set().contains(name@) {
                                let q = choose|q: int| 0 <= q < sv(defined@).len() && sv(defined@)[q] == name@;
                                assert(sv(defined@).contains(name@));
                            }
                        }
                        let mut m = owned("operation ");
                        let t = u64_text(i as u64);
                        push_str(&mut m, t.as_str());
                        push_str(&mut m, " (");
                        push_str(&mut m, op.kind());
                        push_str(&mut m, "): local reference '");
                        push_str(&mut m, field.as_str());
                        push_str(&mut m, "' does not name the local_id of an earlier create");
                        proof {
                            assert(sv(fields@)[j as int] == field@);
                            assert(unresolved(ops, i as int, field@));
                            if j == 1 {
                                assert(!unresolved(ops, i as int, sv(fields@)[0]));
                            }
                            assert(m@ =~= op_prefix(i as int) + " ("@ + kind_of(ops[i as int]) + "): local reference '"@ + field@
                                + "' does not name the local_id of an earlier create"@);
                            assert(f(i as int) == Some(m@));
                            assert(first_some(f, i as int, n) == f(i as int));
                        }
                        return Err(Error::Integrity(m));
                    }
                    assert(sv(defined@).to_set().contains(name@));
                    assert(!unresolved(ops, i as int, sv(fields@)[j as int]));
                },
                None => {
                    assert(!unresolved(ops, i as int, sv(fields@)[j as int]));
                },
            }
            j = j + 1;
        }
        proof {
            lemma_defined_step(ops, i as int);
            assert(f(i as int) is None);
            lemma_first_some_step(f, i as int, n);
        }
        match op {
            ManifestOp::Create(create) => {
                match &create.local_id {
                    Some(local_id) => {
                        let ghost before = sv(defined@);
                        defined.push(local_id.clone());
                        proof {
                            assert(sv(defined@) =~= before.push(local_id@));
                            crate::text::lemma_push_to_set(before, local_id@);
                        }
                    },
                    None => {},
                }
            },
            _ => {},
        }
        i = i + 1;
    }
    Ok(())
}

/// An update that changes nothing.
pub open spec fn update_problem(ops: Seq<ManifestOp>, i: int) -> Option<Seq<char>> {
    match ops[i] {
        ManifestOp::Update(u) => if u.status is None && u.assignee is None && !u.clear_assignee
            && u.notes is None {
            Some(op_prefix(i) + ": update supplies none of 'status', 'assignee', 'clear_assignee', 'notes'"@)
        } else {
            None
        },
        _ => None,
    }
}

/// An update that supplies nothing to change is refused (the first one).
pub fn validate_updates_supply_a_field(operations: &Vec<ManifestOp>) -> (r: Result<(), Error>)
    ensures
        r is Ok <==> first_some(|i: int| update_problem(operations@, i), 0, operations@.len() as int) is None,
        r matches Err(e) ==> e is Integrity
            && first_some(|i: int| update_problem(operations@, i), 0, operations@.len() as int) == Some(e.text()),
{
    let ghost ops = operations@;
    let ghost f = |i: int| update_problem(ops, i);
    let ghost n = ops.len() as int;
    let mut i: usize = 0;
    while i < operations.len()
        invariant
            i <= ops.len(),
            ops == operations@,
            n == ops.len(),
            f == (|i: int| update_problem(ops, i)),
            first_some(f, 0, n) == first_some(f, i as int, n),
        decreases ops.len() - i,
    {
        match &operations[i] {
            ManifestOp::Update(u) => {
                let supplied = u.status.is_some() || u.assignee.is_some() || u.clear_assignee
                    || u.notes.is_some();
                if !supplied {
                    let mut m = owned("operation ");
                    let t = u64_text(i as u64);
                    push_str(&mut m, t.as_str());
                    push_str(&mut m, ": update supplies none of 'status', 'assignee', 'clear_assignee', 'notes'");
                    proof {
                        assert(f(i as int) is Some);
                    }
                    return Err(Error::Integrity(m));
                }
            },
            _ => {},
        }
        proof {
            lemma_first_some_step(f, i as int, n);
        }
        i = i + 1;
    }
    Ok(())
}

/// Why a manifest document is refused, in the order the checks run.
pub open spec fn manifest_problem(version: i64, ops: Seq<ManifestOp>) -> Option<Seq<char>> {
    if version != 1 {
        Some("unsupported manifest_version "@ + int_text(version as int) + " (this bead-rs understands version 1)"@)
    } else if first_some(|i: int| local_id_problem(ops, i), 0, ops.len() as int) is Some {
        first_some(|i: int| local_id_problem(ops, i), 0, ops.len() as int)
    } else if first_some(|i: int| reference_problem(ops, i), 0, ops.len() as int) is Some {
        first_some(|i: int| reference_problem(ops, i), 0, ops.len() as int)
    } else {
        first_some(|i: int| update_problem(ops, i), 0, ops.len() as int)
    }
}

/// Document validation of a parsed manifest: the version, local ids,
/// reference resolution, and updates that change something.
pub fn validate_manifest(version: i64, operations: Vec<ManifestOp>) -> (r: Result<Manifest, Error>)
    ensures
        r matches Ok(m) ==> manifest_problem(version, operations@) is None && m.version == version
            && m.operations@ == operations@,
        r matches Err(e) ==> e is Integrity && manifest_problem(version, operations@) == Some(e.text()),
        manifest_problem(version, operations@) is None ==> r is Ok,
{
    if version != MANIFEST_VERSION {
        let mut m = owned("unsupported manifest_version ");
        let t = crate::text::i64_text(version);
        push_str(&mut m, t.as_str());
        push_str(&mut m, " (this bead-rs understands version 1)");
        return Err(Error::Integrity(m));
    }
    validate_local_ids(&operations)?;
    validate_references(&operations)?;
    validate_updates_supply_a_field(&operations)?;
    Ok(Manifest { version, operations })
}

/// The id a `$name` field stands for, given the ids earlier creates
/// received; plain ids pass through.
pub fn resolve_target(raw: &str, locals: &Vec<(String, String)>) -> (r: Result<String, Error>)
    ensures
        !(raw@.len() > 0 && raw@[0] == '$') ==> (r matches Ok(s) && s@ == raw@),
        (raw@.len() > 0 && raw@[0] == '$') ==> (match r {
            Ok(s) => exists|k: int| 0 <= k < locals@.len() && (#[trigger] locals@[k]).0@ == raw@.drop_first()
                && locals@[k].1@ == s@ && forall|q: int| 0 <= q < k ==> (#[trigger] locals@[q]).0@ != raw@.drop_first(),
            Err(e) => e is Integrity && e.text() == "local reference '"@ + raw@ + "' was not recorded"@
                && forall|q: int| 0 <= q < locals@.len() ==> (#[trigger] locals@[q]).0@ != raw@.drop_first(),
        }),
{
    match reference_name(raw) {
        None => Ok(owned(raw)),
        Some(name) => {
            let mut k: usize = 0;
            while k < locals.len()
                invariant
                    k <= locals@.len(),
                    raw@.len() > 0 && raw@[0] == '$',
                    name@ == raw@.drop_first(),
                    forall|q: int| 0 <= q < k ==> (#[trigger] locals@[q]).0@ != raw@.drop_first(),
                decreases locals@.len() - k,
            {
                if str_eq(locals[k].0.as_str(), name.as_str()) {
                    return Ok(locals[k].1.clone());
                }
                k = k + 1;
            }
            Err(Error::Integrity(cat3("local reference '", raw, "' was not recorded")))
        },
    }
}


/// `first_some` finds nothing exactly when every position is `None`.
pub proof fn lemma_first_some_none(f: spec_fn(int) -> Option<Seq<char>>, lo: int, n: int)
    requires
        first_some(f, lo, n) is None,
    ensures
        forall|k: int| lo <= k < n ==> (#[trigger] f(k)) is None,
    decreases n - lo,
{
    if lo < n {
        lemma_first_some_none(f, lo + 1, n);
    }
}

/// In a manifest that passes document validation, every `$name` field
/// names the local id of a create that comes earlier, so every local
/// reference can be resolved before anything executes.
pub proof fn law_validated_references_resolve(version: i64, ops: Seq<ManifestOp>)
    requires
        manifest_problem(version, ops) is None,
    ensures
        forall|i: int, j: int|
            0 <= i < ops.len() && 0 <= j < targets_of(ops[i]).len() && targets_of(ops[i])[j].len() > 0
                && targets_of(ops[i])[j][0] == '$' ==> exists|k: int|
                0 <= k < i && #[trigger] declares(ops[k], targets_of(ops[i])[j].drop_first()),
{
    let f = |i: int| reference_problem(ops, i);
    lemma_first_some_none(f, 0, ops.len() as int);
    assert forall|i: int, j: int|
        0 <= i < ops.len() && 0 <= j < targets_of(ops[i]).len() && targets_of(ops[i])[j].len() > 0
            && targets_of(ops[i])[j][0] == '$' implies exists|k: int|
            0 <= k < i && #[trigger] declares(ops[k], targets_of(ops[i])[j].drop_first()) by {
        assert(f(i) is None);
        assert(!unresolved(ops, i, targets_of(ops[i])[j]));
        assert(defined_before(ops, i).contains(targets_of(ops[i])[j].drop_first()));
    }
}

/// In a manifest that passes document validation, no two creates declare
/// the same local id.
pub proof fn law_validated_local_ids_unique(version: i64, ops: Seq<ManifestOp>, a: int, b: int, name: Seq<char>)
    requires
        manifest_problem(version, ops) is None,
        0 <= a < b < ops.len(),
        declares(ops[a], name),
    ensures
        !declares(ops[b], name),
{
    let f = |i: int| local_id_problem(ops, i);
    lemma_first_some_none(f, 0, ops.len() as int);
    assert(f(b) is None);
    assert(defined_before(ops, b).contains(name)) by {
        assert(declares(ops[a], name));
    }
}

/// A named field's text, as a secret scan reads it.
pub type FieldView = (Seq<char>, Seq<char>);

pub open spec fn opt_field(path: Seq<char>, v: Option<String>) -> Seq<FieldView> {
    match v {
        Some(t) => seq![(path, t@)],
        None => Seq::empty(),
    }
}

pub open spec fn each_field(path: Seq<char>, vs: Seq<String>) -> Seq<FieldView> {
    vs.map_values(|t: String| (path, t@))
}

/// The text fields of an operation a secret scan examines, in order, each
/// with its path.
pub open spec fn fields_of(op: ManifestOp) -> Seq<FieldView> {
    match op {
        ManifestOp::Create(c) => opt_field("local_id"@, c.local_id) + seq![("title"@, c.title@)]
            + opt_field("description"@, c.description) + opt_field("issue_type"@, c.issue_type)
            + opt_field("assignee"@, c.assignee) + each_field("labels[]"@, c.labels@)
            + each_field("resource_keys[]"@, c.resource_keys@) + opt_field("unique_ref"@, c.unique_ref),
        ManifestOp::Update(u) => seq![("id"@, u.id@)] + opt_field("status"@, u.status) + opt_field("assignee"@, u.assignee)
            + opt_field("notes"@, u.notes),
        ManifestOp::LabelAdd(l) => seq![("id"@, l.id@), ("label"@, l.label@)],
        ManifestOp::LabelRemove(l) => seq![("id"@, l.id@), ("label"@, l.label@)],
        ManifestOp::DepAdd(d) => seq![("blocked_issue_id"@, d.blocked@), ("blocker_issue_id"@, d.blocker@), ("kind"@, d.kind@)],
        ManifestOp::DepRemove(d) => seq![("blocked_issue_id"@, d.blocked@), ("blocker_issue_id"@, d.blocker@)]
            + opt_field("kind"@, d.kind),
        ManifestOp::Close(c) => seq![("id"@, c.id@), ("close_reason"@, c.reason@)],
    }
}

pub open spec fn fields_view(v: Seq<(String, String)>) -> Seq<FieldView> {
    v.map_values(|f: (String, String)| (f.0@, f.1@))
}

fn push_field(out: &mut Vec<(String, String)>, path: &str, value: &String)
    ensures
        fields_view(final(out)@) == fields_view(old(out)@).push((path@, value@)),
{
    out.push((owned(path), value.clone()));
    assert(fields_view(final(out)@) =~= fields_view(old(out)@).push((path@, value@)));
}

fn push_optional(out: &mut Vec<(String, String)>, path: &str, value: &Option<String>)
    ensures
        fields_view(final(out)@) == fields_view(old(out)@) + opt_field(path@, *value),
{
    match value {
        Some(t) => push_field(out, path, t),
        None => {
            assert(fields_view(out@) =~= fields_view(out@) + opt_field(path@, *value));
        },
    }
}

fn push_each(out: &mut Vec<(String, String)>, path: &str, values: &Vec<String>)
    ensures
        fields_view(final(out)@) == fields_view(old(out)@) + each_field(path@, values@),
{
    let ghost start = fields_view(out@);
    let mut i: usize = 0;
    while i < values.len()
        invariant
            i <= values@.len(),
            fields_view(out@) == start + each_field(path@, values@.take(i as int)),
        decreases values@.len() - i,
    {
        push_field(out, path, &values[i]);
        assert(each_field(path@, values@.take(i + 1)) =~= each_field(path@, values@.take(i as int)).push((path@, values@[i as int]@)));
        i = i + 1;
    }
    assert(values@.take(values@.len() as int) =~= values@);
}

/// The text fields of an operation that the secret scan examines.
pub fn manifest_fields(op: &ManifestOp) -> (r: Vec<(String, String)>)
    ensures
        fields_view(r@) == fields_of(*op),
{
    let mut out: Vec<(String, String)> = Vec::new();
    assert(fields_view(out@) =~= Seq::<FieldView>::empty());
    match op {
        ManifestOp::Create(c) => {
            push_optional(&mut out, "local_id", &c.local_id);
            push_field(&mut out, "title", &c.title);
            push_optional(&mut out, "description", &c.description);
            push_optional(&mut out, "issue_type", &c.issue_type);
            push_optional(&mut out, "assignee", &c.assignee);
            push_each(&mut out, "labels[]", &c.labels);
            push_each(&mut out, "resource_keys[]", &c.resource_keys);
            push_optional(&mut out, "unique_ref", &c.unique_ref);
        },
        ManifestOp::Update(u) => {
            push_field(&mut out, "id", &u.id);
            push_optional(&mut out, "status", &u.status);
            push_optional(&mut out, "assignee", &u.assignee);
            push_optional(&mut out, "notes", &u.notes);
        },
        ManifestOp::LabelAdd(l) => {
            push_field(&mut out, "id", &l.id);
            push_field(&mut out, "label", &l.label);
        },
        ManifestOp::LabelRemove(l) => {
            push_field(&mut out, "id", &l.id);
            push_field(&mut out, "label", &l.label);
        },
        ManifestOp::DepAdd(d) => {
            push_field(&mut out, "blocked_issue_id", &d.blocked);
            push_field(&mut out, "blocker_issue_id", &d.blocker);
            push_field(&mut out, "kind", &d.kind);
        },
        ManifestOp::DepRemove(d) => {
            push_field(&mut out, "blocked_issue_id", &d.blocked);
            push_field(&mut out, "blocker_issue_id", &d.blocker);
            push_optional(&mut out, "kind", &d.kind);
        },
        ManifestOp::Close(c) => {
            push_field(&mut out, "id", &c.id);
            push_field(&mut out, "close_reason", &c.reason);
        },
    }
    assert(fields_view(out@) =~= fields_of(*op));
    out
}

/// The selector a scan of the operation at `index` reports under.
pub fn operation_selector(index: usize) -> (r: String)
    ensures
        r@ == "manifest:operation:"@ + int_text(index as int),
{
    let n = u64_text(index as u64);
    cat("manifest:operation:", n.as_str())
}

/// The fields of an issue that `update` and `close` can change, as a
/// manifest result compares them before and after an operation.
#[derive(Debug, Clone)]
pub struct StateSnapshot {
    pub base_status: String,
    pub assignee: Option<String>,
    pub manual_blocked: Option<bool>,
    pub close_reason: Option<String>,
    pub revision: i64,
    /// Sorted, as the store lists them.
    pub labels: Vec<String>,
    pub notes: Option<String>,
}

/// The names of the fields that differ between two snapshots, in report
/// order; a change of notes is reported as `notes_changed` alone.
pub open spec fn changed_fields(b: StateSnapshot, a: StateSnapshot) -> Seq<Seq<char>> {
    let s = if b.base_status@ != a.base_status@ { seq!["base_status"@] } else { Seq::empty() };
    let t = if crate::git::opt_text(b.assignee) != crate::git::opt_text(a.assignee) { seq!["assignee"@] } else { Seq::empty() };
    let m = if b.manual_blocked != a.manual_blocked { seq!["manual_blocked"@] } else { Seq::empty() };
    let c = if crate::git::opt_text(b.close_reason) != crate::git::opt_text(a.close_reason) { seq!["close_reason"@] } else { Seq::empty() };
    let r = if b.revision != a.revision { seq!["revision"@] } else { Seq::empty() };
    let l = if sv(b.labels@) != sv(a.labels@) { seq!["labels"@] } else { Seq::empty() };
    let n = if crate::git::opt_text(b.notes) != crate::git::opt_text(a.notes) { seq!["notes_changed"@] } else { Seq::empty() };
    s + t + m + c + r + l + n
}

fn opt_eq(a: &Option<String>, b: &Option<String>) -> (r: bool)
    ensures
        r == (crate::git::opt_text(*a) == crate::git::opt_text(*b)),
{
    match (a, b) {
        (Some(x), Some(y)) => str_eq(x.as_str(), y.as_str()),
        (None, None) => true,
        _ => false,
    }
}

fn lists_eq(a: &Vec<String>, b: &Vec<String>) -> (r: bool)
    ensures
        r == (sv(a@) == sv(b@)),
{
    if a.len() != b.len() {
        assert(sv(a@).len() != sv(b@).len());
        return false;
    }
    let mut i: usize = 0;
    while i < a.len()
        invariant
            i <= a@.len(),
            a@.len() == b@.len(),
            forall|k: int| 0 <= k < i ==> a@[k]@ == b@[k]@,
        decreases a@.len() - i,
    {
        if !str_eq(a[i].as_str(), b[i].as_str()) {
            assert(sv(a@)[i as int] != sv(b@)[i as int]);
            return false;
        }
        i = i + 1;
    }
    assert(sv(a@) =~= sv(b@));
    true
}

fn push_if(out: &mut Vec<String>, changed: bool, name: &str)
    ensures
        sv(final(out)@) == sv(old(out)@) + if changed { seq![name@] } else { Seq::<Seq<char>>::empty() },
{
    let ghost before = sv(out@);
    if changed {
        out.push(owned(name));
        assert(sv(out@) =~= before + seq![name@]);
    } else {
        assert(sv(out@) =~= before + Seq::<Seq<char>>::empty());
    }
}

/// The before/after delta of a manifest `update` or `close`: the names of
/// the changed fields (see `changed_fields`).
pub fn diff_snapshots(before: &StateSnapshot, after: &StateSnapshot) -> (r: Vec<String>)
    ensures
        sv(r@) == changed_fields(*before, *after),
{
    let mut out: Vec<String> = Vec::new();
    assert(sv(out@) =~= Seq::<Seq<char>>::empty());
    push_if(&mut out, !str_eq(before.base_status.as_str(), after.base_status.as_str()), "base_status");
    push_if(&mut out, !opt_eq(&before.assignee, &after.assignee), "assignee");
    push_if(&mut out, before.manual_blocked != after.manual_blocked, "manual_blocked");
    push_if(&mut out, !opt_eq(&before.close_reason, &after.close_reason), "close_reason");
    push_if(&mut out, before.revision != after.revision, "revision");
    push_if(&mut out, !lists_eq(&before.labels, &after.labels), "labels");
    push_if(&mut out, !opt_eq(&before.notes, &after.notes), "notes_changed");
    assert(sv(out@) =~= changed_fields(*before, *after));
    out
}

/// The outcome word of a manifest `update` or `close`.
pub open spec fn outcome_text(kind: Seq<char>, semantic_change: bool) -> Seq<char> {
    if !semantic_change {
        "no-op"@
    } else if kind == "update"@ {
        "updated"@
    } else if kind == "close"@ {
        "closed"@
    } else {
        kind
    }
}

/// Whether a manifest `update` or `close` changed the issue, and its
/// outcome word: every real update and close bumps the revision, so a
/// changed revision is a semantic change; without an earlier snapshot the
/// operation counts as a change.
pub fn state_change(kind: &str, before_revision: Option<i64>, after_revision: i64) -> (r: (bool, String))
    ensures
        r.0 == match before_revision {
            Some(b) => b != after_revision,
            None => true,
        },
        r.1@ == outcome_text(kind@, r.0),
{
    let semantic = match before_revision {
        Some(b) => b != after_revision,
        None => true,
    };
    let outcome = if !semantic {
        owned("no-op")
    } else if str_eq(kind, "update") {
        owned("updated")
    } else if str_eq(kind, "close") {
        owned("closed")
    } else {
        owned(kind)
    };
    proof {
        reveal_strlit("update");
        reveal_strlit("close");
    }
    (semantic, outcome)
}

/// The outcome word a manifest `create` reports, and whether it changed
/// anything: only a new issue is a change.
pub open spec fn create_outcome_spec(o: crate::issues::CreateOutcome) -> (Seq<char>, bool) {
    match o {
        crate::issues::CreateOutcome::Created => ("created"@, true),
        crate::issues::CreateOutcome::Existing { closed } => (if closed { "existing_closed"@ } else { "existing"@ }, false),
    }
}

/// The outcome of a manifest `create` (see `create_outcome_spec`).
pub fn create_outcome_word(o: crate::issues::CreateOutcome) -> (r: (&'static str, bool))
    ensures
        (r.0@, r.1) == create_outcome_spec(o),
{
    match o {
        crate::issues::CreateOutcome::Created => ("created", true),
        crate::issues::CreateOutcome::Existing { closed } => (if closed { "existing_closed" } else { "existing" }, false),
    }
}

/// The outcome word of a manifest label or dependency add or remove.
pub fn change_outcome_word(adds: bool, changed: bool) -> (r: &'static str)
    ensures
        r@ == if !changed {
            "no-op"@
        } else if adds {
            "added"@
        } else {
            "removed"@
        },
{
    if !changed {
        "no-op"
    } else if adds {
        "added"
    } else {
        "removed"
    }
}

} // verus!

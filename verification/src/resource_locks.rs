//! Workspace-local resource keys: normalization and the declaration rules
//! (no control characters, non-empty after trimming, at most 255 bytes, no
//! key declared twice, stable lexical order).
use vstd::prelude::*;
use crate::error::{Error, ErrorKind};
use crate::leases::{stamp, stamp_text};
use crate::scheduling::{in_calendar, now_unix_nanos};
use crate::text::{
    byte_len, cat, chars_of, is_control, list_contains, owned, seq_lt, set_insert, sorted_strict,
    sv, trim, trim_seq, utf8_len, control_char,
};

verus! {

broadcast use vstd::string::group_string_axioms;

/// The issue extension that carries declared keys in checkpoint JSON.
pub const RESOURCE_KEYS_EXTENSION: &'static str = "resource_keys";

/// The stable readiness reason for a held local resource.
pub const RESOURCE_CONFLICT_REASON_CODE: &'static str = "resource_conflict";

/// Maximum encoded length of one normalized key.
pub const MAX_RESOURCE_KEY_BYTES: usize = 255;

/// What normalizing one raw key gives: the trimmed key, or the refusal.
pub open spec fn normalized_key(raw: Seq<char>) -> Result<Seq<char>, Seq<char>> {
    if exists|i: int| 0 <= i < raw.len() && control_char(#[trigger] raw[i]) {
        Err("Resource key cannot contain control characters"@)
    } else if trim_seq(raw).len() == 0 {
        Err("Resource key cannot be empty"@)
    } else if utf8_len(trim_seq(raw)) > 255 {
        Err("Resource key cannot exceed 255 bytes"@)
    } else {
        Ok(trim_seq(raw))
    }
}

/// Normalize and validate one key: reject control characters, trim
/// Unicode white space, reject an empty or over-long result. Keys stay
/// case-sensitive.
pub fn normalize_resource_key(raw: &str) -> (r: Result<String, Error>)
    ensures
        r matches Ok(k) ==> normalized_key(raw@) == Ok::<Seq<char>, Seq<char>>(k@),
        r matches Err(e) ==> e is Validation && normalized_key(raw@) == Err::<Seq<char>, Seq<char>>(e.text()),
{
    let cs = chars_of(raw);
    let mut i: usize = 0;
    while i < cs.len()
        invariant
            i <= cs@.len(),
            cs@ == raw@,
            forall|k: int| 0 <= k < i ==> !control_char(#[trigger] cs@[k]),
        decreases cs@.len() - i,
    {
        if is_control(cs[i]) {
            assert(control_char(raw@[i as int]));
            return Err(Error::Validation(owned("Resource key cannot contain control characters")));
        }
        i = i + 1;
    }
    let key = trim(raw);
    if key.as_str().is_empty() {
        return Err(Error::Validation(owned("Resource key cannot be empty")));
    }
    if byte_len(key.as_str()) > MAX_RESOURCE_KEY_BYTES {
        proof {
            reveal_strlit("Resource key cannot exceed 255 bytes");
        }
        return Err(Error::Validation(owned("Resource key cannot exceed 255 bytes")));
    }
    Ok(key)
}

/// The keys occurring more than once in a list.
pub open spec fn repeated(keys: Seq<Seq<char>>) -> Set<Seq<char>> {
    Set::new(|k: Seq<char>| exists|i: int, j: int| 0 <= i < j < keys.len() && #[trigger] keys[i] == k && #[trigger] keys[j] == k)
}

proof fn lemma_repeated_push(pre: Seq<Seq<char>>, x: Seq<char>)
    ensures
        repeated(pre.push(x)) == if pre.contains(x) { repeated(pre).insert(x) } else { repeated(pre) },
{
    let nx = pre.push(x);
    let want = if pre.contains(x) { repeated(pre).insert(x) } else { repeated(pre) };
    assert forall|d: Seq<char>| repeated(nx).contains(d) implies want.contains(d) by {
        let (a, b) = choose|a: int, b: int| 0 <= a < b < nx.len() && #[trigger] nx[a] == d && #[trigger] nx[b] == d;
        if b < pre.len() {
            assert(pre[a] == d && pre[b] == d);
        } else {
            assert(pre[a] == x);
        }
    }
    assert forall|d: Seq<char>| want.contains(d) implies repeated(nx).contains(d) by {
        if repeated(pre).contains(d) {
            let (a, b) = choose|a: int, b: int| 0 <= a < b < pre.len() && #[trigger] pre[a] == d && #[trigger] pre[b] == d;
            assert(nx[a] == d && nx[b] == d);
        } else {
            let a = choose|a: int| 0 <= a < pre.len() && pre[a] == x;
            assert(nx[a] == d && nx[pre.len() as int] == d);
        }
    }
    assert(repeated(nx) =~= want);
}

/// The index of the first raw key that fails normalization, if any.
pub open spec fn all_normalize(raw: Seq<Seq<char>>) -> bool {
    forall|i: int| 0 <= i < raw.len() ==> (#[trigger] normalized_key(raw[i])) is Ok
}

/// The normalized form of a list whose every key normalizes.
pub open spec fn normalized_all(raw: Seq<Seq<char>>) -> Seq<Seq<char>> {
    raw.map_values(|k: Seq<char>| normalized_key(k)->Ok_0)
}

/// The first key, in input order, that fails normalization decides the
/// refusal of the whole declaration.
pub open spec fn first_failure(raw: Seq<Seq<char>>, msg: Seq<char>) -> bool {
    exists|i: int| 0 <= i < raw.len()
        && (forall|k: int| 0 <= k < i ==> (#[trigger] normalized_key(raw[k])) is Ok)
        && normalized_key(raw[i]) == Err::<Seq<char>, Seq<char>>(msg)
}

/// `d` is the least key repeated in `keys`.
pub open spec fn least_repeated(keys: Seq<Seq<char>>, d: Seq<char>) -> bool {
    &&& repeated(keys).contains(d)
    &&& forall|o: Seq<char>| #[trigger] repeated(keys).contains(o) && o != d ==> seq_lt(d, o)
}

/// Normalize every key, stopping at the first refusal.
pub fn normalize_each(raw_keys: &Vec<String>) -> (r: Result<Vec<String>, Error>)
    ensures
        r matches Ok(v) ==> all_normalize(sv(raw_keys@)) && sv(v@) == normalized_all(sv(raw_keys@)),
        r matches Err(e) ==> e is Validation && first_failure(sv(raw_keys@), e.text()),
        all_normalize(sv(raw_keys@)) ==> r is Ok,
{
    let ghost raw = sv(raw_keys@);
    let mut keys: Vec<String> = Vec::new();
    let mut i: usize = 0;
    while i < raw_keys.len()
        invariant
            i <= raw_keys@.len(),
            raw == sv(raw_keys@),
            forall|k: int| 0 <= k < i ==> (#[trigger] normalized_key(raw[k])) is Ok,
            sv(keys@) == normalized_all(raw.take(i as int)),
        decreases raw_keys@.len() - i,
    {
        assert(raw[i as int] == raw_keys@[i as int]@);
        match normalize_resource_key(raw_keys[i].as_str()) {
            Ok(k) => {
                let ghost before = sv(keys@);
                keys.push(k);
                assert(normalized_key(raw[i as int])->Ok_0 == k@);
                assert(sv(keys@) =~= before.push(k@));
                assert(normalized_all(raw.take(i + 1)) =~= normalized_all(raw.take(i as int)).push(k@));
            },
            Err(e) => {
                assert(first_failure(raw, e.text()));
                return Err(e);
            },
        }
        i = i + 1;
    }
    assert(raw.take(raw.len() as int) =~= raw);
    Ok(keys)
}

/// The ordered set of `keys`, or the refusal naming the least repeated key.
pub fn ordered_unique(keys: &Vec<String>) -> (r: Result<Vec<String>, Error>)
    ensures
        r matches Ok(v) ==> repeated(sv(keys@)).len() == 0 && sorted_strict(sv(v@))
            && sv(v@).to_set() == sv(keys@).to_set(),
        r matches Err(e) ==> e is Validation && exists|d: Seq<char>| #[trigger] least_repeated(sv(keys@), d)
            && e.text() == "Resource key declared more than once: "@ + d,
        repeated(sv(keys@)).len() == 0 ==> r is Ok,
{
    let ghost ks = sv(keys@);
    let mut seen: Vec<String> = Vec::new();
    let mut dups: Vec<String> = Vec::new();
    let mut j: usize = 0;
    while j < keys.len()
        invariant
            j <= keys@.len(),
            ks == sv(keys@),
            sorted_strict(sv(seen@)),
            sorted_strict(sv(dups@)),
            sv(seen@).to_set() == ks.take(j as int).to_set(),
            sv(dups@).to_set() == repeated(ks.take(j as int)),
        decreases keys@.len() - j,
    {
        let k = &keys[j];
        let ghost pre = ks.take(j as int);
        assert(ks.take(j + 1) =~= pre.push(k@));
        proof {
            crate::text::lemma_push_to_set(pre, k@);
            lemma_repeated_push(pre, k@);
        }
        if list_contains(&seen, k.as_str()) {
            assert(pre.to_set().contains(k@));
            assert(pre.contains(k@));
            set_insert(&mut dups, k.clone());
        } else {
            assert(!pre.to_set().contains(k@));
        }
        set_insert(&mut seen, k.clone());
        j = j + 1;
    }
    assert(ks.take(ks.len() as int) =~= ks);
    if dups.len() > 0 {
        let first = &dups[0];
        let msg = cat("Resource key declared more than once: ", first.as_str());
        proof {
            assert(sv(dups@)[0] == first@);
            assert(sv(dups@).to_set().contains(first@));
            assert forall|o: Seq<char>| #[trigger] repeated(ks).contains(o) && o != first@ implies seq_lt(first@, o) by {
                assert(sv(dups@).to_set().contains(o));
                let q = choose|q: int| 0 <= q < sv(dups@).len() && sv(dups@)[q] == o;
                assert(q != 0);
            }
            assert(least_repeated(ks, first@));
        }
        return Err(Error::Validation(msg));
    }
    proof {
        assert(sv(dups@).to_set() =~= Set::<Seq<char>>::empty());
    }
    Ok(seen)
}

/// What declaring the raw keys gives: when every key normalizes and none
/// repeats, the normalized keys as an ordered set; otherwise a validation
/// error, the first refusal in input order or the least repeated key.
pub open spec fn declared_as(raw: Seq<Seq<char>>, r: Result<Vec<String>, Error>) -> bool {
    &&& (r matches Ok(v) ==> all_normalize(raw) && repeated(normalized_all(raw)).len() == 0 && sorted_strict(sv(v@))
        && sv(v@).to_set() == normalized_all(raw).to_set())
    &&& (r matches Err(e) ==> e is Validation && (first_failure(raw, e.text())
        || (all_normalize(raw) && exists|d: Seq<char>| #[trigger] least_repeated(normalized_all(raw), d)
            && e.text() == "Resource key declared more than once: "@ + d)))
    &&& (all_normalize(raw) && repeated(normalized_all(raw)).len() == 0 ==> r is Ok)
}

/// Normalize a declaration: every key is normalized (the first refusal in
/// input order wins); a key repeated after normalization is refused,
/// naming the least such key; otherwise the keys come back as an ordered set.
pub fn normalize_resource_keys(raw_keys: &Vec<String>) -> (r: Result<Vec<String>, Error>)
    ensures
        declared_as(sv(raw_keys@), r),
{
    let keys = normalize_each(raw_keys)?;
    ordered_unique(&keys)
}

/// The clock's current time as RFC 3339 text (`unknown` where it cannot be
/// formatted), as lock and event rows record it.
pub fn now_string() -> (r: String)
    ensures
        exists|now: int| in_calendar(now) && r@ == #[trigger] stamp_text(now),
{
    let now = now_unix_nanos();
    let r = stamp(now);
    assert(r@ == stamp_text(now as int));
    r
}

/// Normalizing is idempotent: a key that normalization produced normalizes
/// to itself, so a declared key read back and declared again is unchanged.
pub proof fn law_normalized_key_is_a_fixed_point(raw: Seq<char>)
    requires
        normalized_key(raw) is Ok,
    ensures
        normalized_key(normalized_key(raw)->Ok_0) == normalized_key(raw),
{
    let k = trim_seq(raw);
    crate::text::lemma_trim_idempotent(raw);
    assert(normalized_key(raw) == Ok::<Seq<char>, Seq<char>>(k));
    assert(k.len() > 0);
    crate::text::lemma_trim_within(raw);
    assert forall|i: int| 0 <= i < k.len() implies !control_char(#[trigger] k[i]) by {
        let l = crate::text::leading_ws(raw) as int;
        assert(k[i] == raw[l + i]);
    }
}

/// The strings of a JSON array's items (an item that is not a string
/// counts as empty).
pub open spec fn item_strings(items: Seq<Option<String>>) -> Seq<Seq<char>> {
    items.map_values(|x: Option<String>| match x {
        Some(t) => t@,
        None => Seq::<char>::empty(),
    })
}

/// Every item is a string.
pub open spec fn all_strings(items: Seq<Option<String>>) -> bool {
    forall|k: int| 0 <= k < items.len() ==> (#[trigger] items[k]) is Some
}

/// The resource keys a checkpoint's issue extension declares. The JSON
/// value is given as what the check reads of it: `None` when it is not an
/// array, otherwise its items, each a string (`Some`) or anything else
/// (`None`). A value that is not an array of strings is refused; the
/// strings are then declared (see `declared_as`).
pub fn resource_keys_from_items(items: Option<&Vec<Option<String>>>) -> (r: Result<Vec<String>, Error>)
    ensures
        items is None ==> (r matches Err(e) && e.is(ErrorKind::Validation, "resource_keys must be a JSON array of strings"@)),
        items matches Some(v) && !all_strings(v@) ==> (r matches Err(e)
            && e.is(ErrorKind::Validation, "resource_keys must contain only strings"@)),
        items matches Some(v) ==> (all_strings(v@) ==> declared_as(item_strings(v@), r)),
{
    let v = match items {
        None => {
            return Err(Error::Validation(owned("resource_keys must be a JSON array of strings")));
        },
        Some(v) => v,
    };
    let mut keys: Vec<String> = Vec::new();
    let mut i: usize = 0;
    while i < v.len()
        invariant
            items == Some(v),
            i <= v@.len(),
            forall|k: int| 0 <= k < i ==> (#[trigger] v@[k]) is Some,
            sv(keys@) == item_strings(v@).take(i as int),
        decreases v@.len() - i,
    {
        match &v[i] {
            Some(t) => {
                let ghost before = sv(keys@);
                keys.push(t.clone());
                assert(item_strings(v@).take(i + 1) =~= item_strings(v@).take(i as int).push(t@));
                assert(sv(keys@) =~= before.push(t@));
            },
            None => {
                assert(!all_strings(v@));
                return Err(Error::Validation(owned("resource_keys must contain only strings")));
            },
        }
        i = i + 1;
    }
    assert(item_strings(v@).take(v@.len() as int) =~= item_strings(v@));
    normalize_resource_keys(&keys)
}

} // verus!

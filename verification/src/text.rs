//! Character-level string helpers with their mathematical meaning.
use vstd::prelude::*;

verus! {

broadcast use vstd::string::group_string_axioms;

/// The characters of a string slice, in order.
pub fn chars_of(s: &str) -> (r: Vec<char>)
    ensures
        r@ == s@,
{
    let mut out: Vec<char> = Vec::new();
    for c in it: s.chars()
        invariant
            out@ == it.seq().take(it.index() as int),
            it.seq() == s@,
    {
        out.push(c);
    }
    out
}

/// `String::push`: appends one character.
#[verifier::external_body]
fn push_char(s: &mut String, c: char)
    ensures
        final(s)@ == old(s)@.push(c),
{
    s.push(c);
}

/// A string holding exactly the given characters.
pub fn string_of(v: &[char]) -> (r: String)
    ensures
        r@ == v@,
{
    let mut out = String::new();
    let mut i: usize = 0;
    while i < v.len()
        invariant
            i <= v@.len(),
            out@ == v@.take(i as int),
        decreases v@.len() - i,
    {
        push_char(&mut out, v[i]);
        i = i + 1;
        assert(v@.take(i as int) =~= v@.take((i - 1) as int).push(v@[i - 1]));
    }
    assert(v@.take(v@.len() as int) =~= v@);
    out
}

/// An owned copy of a string slice.
pub fn owned(s: &str) -> (r: String)
    ensures
        r@ == s@,
{
    s.to_owned()
}

/// Appends every character of `t` to `s`.
pub fn push_str(s: &mut String, t: &str)
    ensures
        final(s)@ == old(s)@ + t@,
{
    let cs = chars_of(t);
    let ghost start = s@;
    let mut i: usize = 0;
    while i < cs.len()
        invariant
            i <= cs@.len(),
            cs@ == t@,
            s@ == start + cs@.take(i as int),
        decreases cs@.len() - i,
    {
        push_char(s, cs[i]);
        i = i + 1;
        assert(cs@.take(i as int) =~= cs@.take((i - 1) as int).push(cs@[i - 1]));
    }
    assert(cs@.take(cs@.len() as int) =~= cs@);
}

/// The concatenation of two strings.
pub fn cat(a: &str, b: &str) -> (r: String)
    ensures
        r@ == a@ + b@,
{
    let mut s = owned(a);
    push_str(&mut s, b);
    s
}

/// The concatenation of three strings.
pub fn cat3(a: &str, b: &str, c: &str) -> (r: String)
    ensures
        r@ == a@ + b@ + c@,
{
    let mut s = owned(a);
    push_str(&mut s, b);
    push_str(&mut s, c);
    s
}

/// Whether two strings hold the same characters.
pub fn str_eq(a: &str, b: &str) -> (r: bool)
    ensures
        r == (a@ == b@),
{
    let x = owned(a);
    let y = owned(b);
    x == y
}

/// Lexicographic order on character sequences by code point, which is the
/// order Rust gives `str` (byte order of UTF-8 agrees with code-point order).
pub open spec fn seq_lt(a: Seq<char>, b: Seq<char>) -> bool
    decreases a.len(),
{
    if b.len() == 0 {
        false
    } else if a.len() == 0 {
        true
    } else if a[0] != b[0] {
        (a[0] as int) < (b[0] as int)
    } else {
        seq_lt(a.drop_first(), b.drop_first())
    }
}

pub proof fn lemma_seq_lt_irreflexive(a: Seq<char>)
    ensures
        !seq_lt(a, a),
    decreases a.len(),
{
    if a.len() > 0 {
        lemma_seq_lt_irreflexive(a.drop_first());
    }
}

pub proof fn lemma_seq_lt_transitive(a: Seq<char>, b: Seq<char>, c: Seq<char>)
    requires
        seq_lt(a, b),
        seq_lt(b, c),
    ensures
        seq_lt(a, c),
    decreases a.len(),
{
    if a.len() > 0 && b.len() > 0 && c.len() > 0 {
        if a[0] == b[0] && b[0] == c[0] {
            lemma_seq_lt_transitive(a.drop_first(), b.drop_first(), c.drop_first());
        }
    }
}

pub proof fn lemma_seq_lt_total(a: Seq<char>, b: Seq<char>)
    ensures
        a == b || seq_lt(a, b) || seq_lt(b, a),
    decreases a.len(),
{
    if a.len() > 0 && b.len() > 0 {
        if a[0] == b[0] {
            lemma_seq_lt_total(a.drop_first(), b.drop_first());
            if a.drop_first() == b.drop_first() {
                assert(a =~= seq![a[0]] + a.drop_first());
                assert(b =~= seq![b[0]] + b.drop_first());
            }
        } else {
            assert((a[0] as int) != (b[0] as int));
        }
    } else if a.len() == 0 && b.len() == 0 {
        assert(a =~= b);
    }
}

pub proof fn lemma_seq_lt_asymmetric(a: Seq<char>, b: Seq<char>)
    requires
        seq_lt(a, b),
    ensures
        !seq_lt(b, a),
{
    if seq_lt(b, a) {
        lemma_seq_lt_transitive(a, b, a);
        lemma_seq_lt_irreflexive(a);
    }
}

/// Whether `a` orders strictly before `b` as Rust orders strings.
pub fn str_lt(a: &str, b: &str) -> (r: bool)
    ensures
        r == seq_lt(a@, b@),
{
    let x = chars_of(a);
    let y = chars_of(b);
    let mut i: usize = 0;
    assert(x@.skip(0) =~= x@);
    assert(y@.skip(0) =~= y@);
    while i < x.len() && i < y.len()
        invariant
            i <= x@.len(),
            i <= y@.len(),
            x@ == a@,
            y@ == b@,
            x@.take(i as int) == y@.take(i as int),
            seq_lt(x@, y@) == seq_lt(x@.skip(i as int), y@.skip(i as int)),
        decreases x@.len() - i,
    {
        let cx = x[i];
        let cy = y[i];
        if cx != cy {
            assert(x@.skip(i as int)[0] == cx);
            assert(y@.skip(i as int)[0] == cy);
            assert(x@.skip(i as int).len() > 0 && y@.skip(i as int).len() > 0);
            let r = cx < cy;
            assert(r == ((cx as int) < (cy as int)));
            return r;
        }
        assert(x@.skip(i as int).drop_first() =~= x@.skip(i + 1));
        assert(y@.skip(i as int).drop_first() =~= y@.skip(i + 1));
        assert(x@.take(i + 1) =~= x@.take(i as int).push(cx));
        assert(y@.take(i + 1) =~= y@.take(i as int).push(cy));
        i = i + 1;
    }
    i < y.len()
}


/// The character sequences of a list of strings.
pub open spec fn sv(v: Seq<String>) -> Seq<Seq<char>> {
    v.map_values(|s: String| s@)
}

/// Strictly increasing in string order: sorted with no repeats, the shape
/// of an ordered set.
pub open spec fn sorted_strict(s: Seq<Seq<char>>) -> bool {
    forall|i: int, j: int| 0 <= i < j < s.len() ==> seq_lt(#[trigger] s[i], #[trigger] s[j])
}

/// Non-decreasing in string order.
pub open spec fn sorted_le(s: Seq<Seq<char>>) -> bool {
    forall|i: int, j: int| 0 <= i < j < s.len() ==> !seq_lt(#[trigger] s[j], #[trigger] s[i])
}

/// Whether the list holds a string with the characters of `x`.
pub fn list_contains(v: &Vec<String>, x: &str) -> (r: bool)
    ensures
        r == sv(v@).contains(x@),
{
    let mut i: usize = 0;
    while i < v.len()
        invariant
            i <= v@.len(),
            forall|k: int| 0 <= k < i ==> v@[k]@ != x@,
        decreases v@.len() - i,
    {
        if str_eq(v[i].as_str(), x) {
            assert(sv(v@)[i as int] == x@);
            return true;
        }
        i = i + 1;
    }
    assert(!sv(v@).contains(x@)) by {
        if sv(v@).contains(x@) {
            let k = choose|k: int| 0 <= k < sv(v@).len() && sv(v@)[k] == x@;
            assert(v@[k]@ == x@);
        }
    }
    false
}

/// Inserts `x` into an ordered set of strings, keeping it ordered.
pub fn set_insert(v: &mut Vec<String>, x: String)
    requires
        sorted_strict(sv(old(v)@)),
    ensures
        sorted_strict(sv(final(v)@)),
        sv(final(v)@).to_set() == sv(old(v)@).to_set().insert(x@),
{
    let mut j: usize = 0;
    while j < v.len() && str_lt(v[j].as_str(), x.as_str())
        invariant
            j <= v@.len(),
            forall|k: int| 0 <= k < j ==> seq_lt(#[trigger] v@[k]@, x@),
        decreases v@.len() - j,
    {
        j = j + 1;
    }
    let ghost old_v = sv(v@);
    if j < v.len() && str_eq(v[j].as_str(), x.as_str()) {
        assert(old_v.to_set().insert(x@) =~= old_v.to_set()) by {
            assert(old_v[j as int] == x@);
        }
        return;
    }
    proof {
        if j < v@.len() {
            lemma_seq_lt_total(v@[j as int]@, x@);
        }
    }
    v.insert(j, x);
    let ghost new_v = sv(v@);
    assert(new_v =~= old_v.insert(j as int, x@));
    assert forall|a: int, b: int| 0 <= a < b < new_v.len() implies seq_lt(#[trigger] new_v[a], #[trigger] new_v[b]) by {
        if b < j {
        } else if b == j {
        } else if a < j {
            lemma_seq_lt_transitive(new_v[a], x@, old_v[j as int]);
            if b - 1 > j {
                lemma_seq_lt_transitive(new_v[a], old_v[j as int], old_v[b - 1]);
            }
        } else if a == j {
            if b - 1 > j {
                lemma_seq_lt_transitive(x@, old_v[j as int], old_v[b - 1]);
            }
        }
    }
    assert(new_v.to_set() =~= old_v.to_set().insert(x@)) by {
        assert forall|e: Seq<char>| new_v.to_set().contains(e) implies old_v.to_set().insert(x@).contains(e) by {
            let k = choose|k: int| 0 <= k < new_v.len() && new_v[k] == e;
            if k < j {
                assert(old_v[k] == e);
            } else if k > j {
                assert(old_v[k - 1] == e);
            }
        }
        assert forall|e: Seq<char>| old_v.to_set().insert(x@).contains(e) implies new_v.to_set().contains(e) by {
            if e == x@ {
                assert(new_v[j as int] == e);
            } else {
                let k = choose|k: int| 0 <= k < old_v.len() && old_v[k] == e;
                if k < j {
                    assert(new_v[k] == e);
                } else {
                    assert(new_v[k + 1] == e);
                }
            }
        }
    }
}

/// The ordered set holding every string of the list.
pub fn ordered_set(v: &Vec<String>) -> (r: Vec<String>)
    ensures
        sorted_strict(sv(r@)),
        sv(r@).to_set() == sv(v@).to_set(),
{
    let mut out: Vec<String> = Vec::new();
    let mut i: usize = 0;
    while i < v.len()
        invariant
            i <= v@.len(),
            sorted_strict(sv(out@)),
            sv(out@).to_set() == sv(v@.take(i as int)).to_set(),
        decreases v@.len() - i,
    {
        let item = v[i].clone();
        set_insert(&mut out, item);
        assert(sv(v@.take(i + 1)) =~= sv(v@.take(i as int)).push(v@[i as int]@));
        proof {
            let p = sv(v@.take(i as int));
            let e = v@[i as int]@;
            assert(p.push(e).to_set() =~= p.to_set().insert(e)) by {
                assert forall|y: Seq<char>| p.push(e).to_set().contains(y) implies p.to_set().insert(e).contains(y) by {
                    let k = choose|k: int| 0 <= k < p.push(e).len() && p.push(e)[k] == y;
                    if k < p.len() {
                        assert(p[k] == y);
                    }
                }
                assert forall|y: Seq<char>| p.to_set().insert(e).contains(y) implies p.push(e).to_set().contains(y) by {
                    if y == e {
                        assert(p.push(e)[p.len() as int] == y);
                    } else {
                        let k = choose|k: int| 0 <= k < p.len() && p[k] == y;
                        assert(p.push(e)[k] == y);
                    }
                }
            }
        }
        i = i + 1;
    }
    assert(v@.take(v@.len() as int) =~= v@);
    out
}


/// The pieces of `s` between occurrences of `sep`, as `split` yields them:
/// always at least one piece, empty pieces kept.
pub open spec fn split_seq<T>(s: Seq<T>, sep: T) -> Seq<Seq<T>>
    decreases s.len(),
{
    if s.len() == 0 {
        seq![Seq::<T>::empty()]
    } else {
        let r = split_seq(s.drop_last(), sep);
        if s.last() == sep {
            r.push(Seq::<T>::empty())
        } else {
            r.update(r.len() - 1, r.last().push(s.last()))
        }
    }
}

pub proof fn lemma_split_seq_nonempty<T>(s: Seq<T>, sep: T)
    ensures
        split_seq(s, sep).len() >= 1,
    decreases s.len(),
{
    if s.len() > 0 {
        lemma_split_seq_nonempty(s.drop_last(), sep);
    }
}

/// Splits a byte slice at every occurrence of `sep`.
pub fn split_bytes(raw: &[u8], sep: u8) -> (r: Vec<Vec<u8>>)
    ensures
        r@.map_values(|v: Vec<u8>| v@) == split_seq(raw@, sep),
{
    let mut done: Vec<Vec<u8>> = Vec::new();
    let mut cur: Vec<u8> = Vec::new();
    let mut i: usize = 0;
    while i < raw.len()
        invariant
            i <= raw@.len(),
            done@.map_values(|v: Vec<u8>| v@).push(cur@) == split_seq(raw@.take(i as int), sep),
        decreases raw@.len() - i,
    {
        proof {
            lemma_split_seq_nonempty(raw@.take(i as int), sep);
            assert(raw@.take(i + 1).drop_last() =~= raw@.take(i as int));
        }
        let b = raw[i];
        if b == sep {
            let piece = cur;
            cur = Vec::new();
            let ghost before = done@.map_values(|v: Vec<u8>| v@);
            done.push(piece);
            assert(done@.map_values(|v: Vec<u8>| v@) =~= before.push(piece@));
        } else {
            let ghost before = done@.map_values(|v: Vec<u8>| v@);
            cur.push(b);
            assert(before.push(cur@) =~= split_seq(raw@.take(i as int), sep).update(
                split_seq(raw@.take(i as int), sep).len() - 1,
                split_seq(raw@.take(i as int), sep).last().push(b),
            ));
        }
        i = i + 1;
    }
    let ghost before = done@.map_values(|v: Vec<u8>| v@);
    done.push(cur);
    assert(done@.map_values(|v: Vec<u8>| v@) =~= before.push(done@[done@.len() - 1]@));
    assert(raw@.take(raw@.len() as int) =~= raw@);
    done
}

/// Whether `s` begins with `prefix`.
pub fn starts_with(s: &str, prefix: &str) -> (r: bool)
    ensures
        r == prefix@.is_prefix_of(s@),
{
    let a = chars_of(s);
    let b = chars_of(prefix);
    if b.len() > a.len() {
        return false;
    }
    let mut i: usize = 0;
    while i < b.len()
        invariant
            a@ == s@,
            b@ == prefix@,
            b@.len() <= a@.len(),
            i <= b@.len(),
            forall|k: int| 0 <= k < i ==> a@[k] == b@[k],
        decreases b@.len() - i,
    {
        if a[i] != b[i] {
            assert(a@.subrange(0, b@.len() as int)[i as int] != b@[i as int]);
            return false;
        }
        i = i + 1;
    }
    assert(b@ =~= a@.subrange(0, b@.len() as int));
    true
}

/// `String::from_utf8_lossy` on invalid UTF-8: the text with every invalid
/// sequence replaced by U+FFFD.
pub uninterp spec fn utf8_lossy(b: Seq<u8>) -> Seq<char>;

/// The text `String::from_utf8_lossy` gives: valid UTF-8 decoded as it
/// stands, anything else as `utf8_lossy` names it.
pub open spec fn lossy_text(b: Seq<u8>) -> Seq<char> {
    if vstd::utf8::valid_utf8(b) {
        vstd::utf8::decode_utf8(b)
    } else {
        utf8_lossy(b)
    }
}

/// `String::from_utf8_lossy`, owned. Valid UTF-8 decodes unchanged; what
/// invalid input turns into is named by `utf8_lossy` and not spelled out.
#[verifier::external_body]
pub(crate) fn lossy_string(b: &[u8]) -> (r: String)
    ensures
        r@ == lossy_text(b@),
        !vstd::utf8::valid_utf8(b@) ==> r@ == utf8_lossy(b@),
{
    String::from_utf8_lossy(b).into_owned()
}

/// The pieces joined with `sep` between neighbours.
pub open spec fn join_seq(parts: Seq<Seq<char>>, sep: Seq<char>) -> Seq<char>
    decreases parts.len(),
{
    if parts.len() == 0 {
        Seq::<char>::empty()
    } else if parts.len() == 1 {
        parts[0]
    } else {
        join_seq(parts.drop_last(), sep) + sep + parts.last()
    }
}

/// Joins strings with a separator, as `[String]::join` does.
pub fn join(parts: &Vec<String>, sep: &str) -> (r: String)
    ensures
        r@ == join_seq(sv(parts@), sep@),
{
    let mut out = String::new();
    let mut i: usize = 0;
    while i < parts.len()
        invariant
            i <= parts@.len(),
            out@ == join_seq(sv(parts@.take(i as int)), sep@),
        decreases parts@.len() - i,
    {
        assert(sv(parts@.take(i + 1)).drop_last() =~= sv(parts@.take(i as int)));
        if i > 0 {
            push_str(&mut out, sep);
        }
        push_str(&mut out, parts[i].as_str());
        i = i + 1;
        proof {
            if i == 1 {
                assert(sv(parts@.take(1)) =~= seq![parts@[0]@]);
            }
        }
    }
    assert(parts@.take(parts@.len() as int) =~= parts@);
    out
}


/// Pushing onto a sequence adds exactly that element to its set.
pub proof fn lemma_push_to_set<T>(p: Seq<T>, e: T)
    ensures
        p.push(e).to_set() == p.to_set().insert(e),
{
    assert forall|y: T| p.push(e).to_set().contains(y) implies p.to_set().insert(e).contains(y) by {
        let k = choose|k: int| 0 <= k < p.push(e).len() && p.push(e)[k] == y;
        if k < p.len() {
            assert(p[k] == y);
        }
    }
    assert forall|y: T| p.to_set().insert(e).contains(y) implies p.push(e).to_set().contains(y) by {
        if y == e {
            assert(p.push(e)[p.len() as int] == y);
        } else {
            let k = choose|k: int| 0 <= k < p.len() && p[k] == y;
            assert(p.push(e)[k] == y);
        }
    }
    assert(p.push(e).to_set() =~= p.to_set().insert(e));
}


/// The decimal digit character for `d < 10`.
pub open spec fn digit_char(d: nat) -> char {
    if d == 0 { '0' } else if d == 1 { '1' } else if d == 2 { '2' } else if d == 3 { '3' }
    else if d == 4 { '4' } else if d == 5 { '5' } else if d == 6 { '6' } else if d == 7 { '7' }
    else if d == 8 { '8' } else { '9' }
}

/// The decimal digits of a natural number, most significant first.
pub open spec fn digits_of(n: nat) -> Seq<char>
    decreases n,
{
    if n < 10 {
        seq![digit_char(n)]
    } else {
        digits_of(n / 10).push(digit_char(n % 10))
    }
}

/// The decimal text of an integer, as `Display` writes it.
pub open spec fn int_text(i: int) -> Seq<char> {
    if i < 0 {
        seq!['-'] + digits_of((-i) as nat)
    } else {
        digits_of(i as nat)
    }
}

fn digit(d: u64) -> (c: char)
    requires
        d < 10,
    ensures
        c == digit_char(d as nat),
{
    if d == 0 { '0' } else if d == 1 { '1' } else if d == 2 { '2' } else if d == 3 { '3' }
    else if d == 4 { '4' } else if d == 5 { '5' } else if d == 6 { '6' } else if d == 7 { '7' }
    else if d == 8 { '8' } else { '9' }
}

fn digits(n: u64) -> (r: Vec<char>)
    ensures
        r@ == digits_of(n as nat),
    decreases n,
{
    if n < 10 {
        let mut v = Vec::new();
        v.push(digit(n));
        v
    } else {
        let mut v = digits(n / 10);
        v.push(digit(n % 10));
        v
    }
}

/// The decimal text of an unsigned number.
pub fn u64_text(n: u64) -> (r: String)
    ensures
        r@ == int_text(n as int),
{
    let v = digits(n);
    string_of(v.as_slice())
}

/// The decimal text of a signed number.
pub fn i64_text(i: i64) -> (r: String)
    ensures
        r@ == int_text(i as int),
{
    if i < 0 {
        let magnitude: u64 = if i == i64::MIN {
            9223372036854775808u64
        } else {
            (-i) as u64
        };
        let mut v: Vec<char> = Vec::new();
        v.push('-');
        let mut d = digits(magnitude);
        v.append(&mut d);
        assert(v@ =~= seq!['-'] + digits_of((-(i as int)) as nat));
        string_of(v.as_slice())
    } else {
        u64_text(i as u64)
    }
}


/// The Unicode `White_Space` property: U+0009 to U+000D, U+0020, U+0085,
/// U+00A0, U+1680, U+2000 to U+200A, U+2028, U+2029, U+202F, U+205F and
/// U+3000.
pub open spec fn white_space(c: char) -> bool {
    let n = c as u32;
    ||| 0x9 <= n <= 0xD
    ||| n == 0x20
    ||| n == 0x85
    ||| n == 0xA0
    ||| n == 0x1680
    ||| 0x2000 <= n <= 0x200A
    ||| n == 0x2028
    ||| n == 0x2029
    ||| n == 0x202F
    ||| n == 0x205F
    ||| n == 0x3000
}

/// `char::is_whitespace`, which std documents as the Unicode `White_Space`
/// property.
#[verifier::external_body]
pub(crate) fn is_white_space(c: char) -> (r: bool)
    ensures
        r == white_space(c),
{
    c.is_whitespace()
}

/// How many leading characters are white space.
pub open spec fn leading_ws(s: Seq<char>) -> nat
    decreases s.len(),
{
    if s.len() == 0 {
        0
    } else if white_space(s[0]) {
        1 + leading_ws(s.drop_first())
    } else {
        0
    }
}

/// How many trailing characters are white space.
pub open spec fn trailing_ws(s: Seq<char>) -> nat
    decreases s.len(),
{
    if s.len() == 0 {
        0
    } else if white_space(s.last()) {
        1 + trailing_ws(s.drop_last())
    } else {
        0
    }
}

/// `str::trim`: the text without leading and trailing white space.
pub open spec fn trim_seq(s: Seq<char>) -> Seq<char> {
    if leading_ws(s) == s.len() {
        Seq::empty()
    } else {
        s.subrange(leading_ws(s) as int, s.len() - trailing_ws(s))
    }
}

proof fn lemma_leading_ws(s: Seq<char>, i: int)
    requires
        0 <= i <= s.len(),
        forall|k: int| 0 <= k < i ==> white_space(#[trigger] s[k]),
        i == s.len() || !white_space(s[i]),
    ensures
        leading_ws(s) == i,
    decreases i,
{
    if i > 0 {
        assert forall|k: int| 0 <= k < i - 1 implies white_space(#[trigger] s.drop_first()[k]) by {
            assert(s.drop_first()[k] == s[k + 1]);
        }
        if i < s.len() {
            assert(s.drop_first()[i - 1] == s[i]);
        }
        lemma_leading_ws(s.drop_first(), i - 1);
    }
}

proof fn lemma_trailing_ws(s: Seq<char>, j: int)
    requires
        0 <= j <= s.len(),
        forall|k: int| j <= k < s.len() ==> white_space(#[trigger] s[k]),
        j == 0 || !white_space(s[j - 1]),
    ensures
        trailing_ws(s) == s.len() - j,
    decreases s.len() - j,
{
    if j < s.len() {
        assert forall|k: int| j <= k < s.len() - 1 implies white_space(#[trigger] s.drop_last()[k]) by {
            assert(s.drop_last()[k] == s[k]);
        }
        if j > 0 {
            assert(s.drop_last()[j - 1] == s[j - 1]);
        }
        lemma_trailing_ws(s.drop_last(), j);
    }
}

/// `str::trim`, owned.
pub fn trim(s: &str) -> (r: String)
    ensures
        r@ == trim_seq(s@),
{
    let cs = chars_of(s);
    let mut i: usize = 0;
    while i < cs.len() && is_white_space(cs[i])
        invariant
            i <= cs@.len(),
            forall|k: int| 0 <= k < i ==> white_space(#[trigger] cs@[k]),
        decreases cs@.len() - i,
    {
        i = i + 1;
    }
    proof {
        lemma_leading_ws(cs@, i as int);
    }
    if i == cs.len() {
        return String::new();
    }
    let mut j: usize = cs.len();
    while j > i && is_white_space(cs[j - 1])
        invariant
            i < cs@.len(),
            i <= j <= cs@.len(),
            forall|k: int| j <= k < cs@.len() ==> white_space(#[trigger] cs@[k]),
            !white_space(cs@[i as int]),
        decreases j,
    {
        j = j - 1;
    }
    proof {
        lemma_trailing_ws(cs@, j as int);
    }
    let piece = &cs.as_slice()[i..j];
    string_of(piece)
}

/// `char::is_control`: the Unicode general category Cc, which is exactly
/// U+0000..=U+001F and U+007F..=U+009F.
pub open spec fn control_char(c: char) -> bool {
    (c as int) <= 0x1f || (0x7f <= (c as int) && (c as int) <= 0x9f)
}

/// Whether a character is a control character.
pub fn is_control(c: char) -> (r: bool)
    ensures
        r == control_char(c),
{
    c <= '\u{1f}' || ('\u{7f}' <= c && c <= '\u{9f}')
}

/// The UTF-8 byte length of a string, as `str::len` reports it.
pub open spec fn utf8_len(s: Seq<char>) -> usize {
    vstd::utf8::encode_utf8(s).len() as usize
}

/// The UTF-8 byte length of a string.
pub fn byte_len(s: &str) -> (r: usize)
    ensures
        r == utf8_len(s@),
{
    s.len()
}

/// Whether `needle` occurs in `hay` as a contiguous run.
pub open spec fn has_infix(hay: Seq<char>, needle: Seq<char>) -> bool {
    exists|i: int| 0 <= i && i + needle.len() <= hay.len() && #[trigger] hay.subrange(i, i + needle.len()) == needle
}

/// `str::contains` with a string pattern.
pub fn str_contains(hay: &str, needle: &str) -> (r: bool)
    ensures
        r == has_infix(hay@, needle@),
{
    let h = chars_of(hay);
    let n = chars_of(needle);
    if n.len() == 0 {
        assert(hay@.subrange(0, 0 + needle@.len() as int) =~= needle@);
        return true;
    }
    if n.len() > h.len() {
        return false;
    }
    let mut i: usize = 0;
    while n.len() <= h.len() - i
        invariant
            h@ == hay@,
            n@ == needle@,
            1 <= n@.len() <= h@.len(),
            i <= h@.len(),
            forall|k: int| 0 <= k < i ==> #[trigger] h@.subrange(k, k + n@.len()) != n@,
        decreases h@.len() - i,
    {
        let mut j: usize = 0;
        while j < n.len() && h[i + j] == n[j]
            invariant
                h@ == hay@,
                n@ == needle@,
                i + n.len() <= h.len(),
                j <= n@.len(),
                forall|k: int| 0 <= k < j ==> h@[i + k] == n@[k],
            decreases n@.len() - j,
        {
            j = j + 1;
        }
        if j == n.len() {
            assert(h@.subrange(i as int, i + n@.len()) =~= n@);
            return true;
        }
        assert(h@.subrange(i as int, i + n@.len())[j as int] != n@[j as int]);
        i = i + 1;
    }
    false
}

/// The text up to the first line feed, as `str::lines` yields it before a
/// trim removes a carriage return.
pub open spec fn first_line(s: Seq<char>) -> Seq<char> {
    split_seq(s, '\n')[0]
}

proof fn lemma_first_line_prefix(s: Seq<char>, i: int)
    requires
        0 <= i <= s.len(),
        forall|k: int| 0 <= k < i ==> s[k] != '\n',
    ensures
        split_seq(s.take(i), '\n') == seq![s.take(i)],
    decreases i,
{
    if i > 0 {
        lemma_first_line_prefix(s, i - 1);
        assert(s.take(i).drop_last() =~= s.take(i - 1));
        assert(s.take(i - 1).push(s[i - 1]) =~= s.take(i));
    } else {
        assert(s.take(0) =~= Seq::<char>::empty());
    }
}

proof fn lemma_first_piece_from(s: Seq<char>, i: int, j: int)
    requires
        0 <= i < j <= s.len(),
        s[i] == '\n',
        forall|k: int| 0 <= k < i ==> s[k] != '\n',
    ensures
        split_seq(s.take(j), '\n')[0] == s.take(i),
        split_seq(s.take(j), '\n').len() >= 2,
    decreases j - i,
{
    assert(s.take(j).drop_last() =~= s.take(j - 1));
    lemma_split_seq_nonempty(s.take(j - 1), '\n');
    if j == i + 1 {
        lemma_first_line_prefix(s, i);
        assert(s.take(j).last() == '\n');
    } else {
        lemma_first_piece_from(s, i, j - 1);
    }
}

/// The first line of a string.
pub fn first_line_of(s: &str) -> (r: String)
    ensures
        r@ == first_line(s@),
{
    let cs = chars_of(s);
    let mut i: usize = 0;
    while i < cs.len() && cs[i] != '\n'
        invariant
            i <= cs@.len(),
            forall|k: int| 0 <= k < i ==> cs@[k] != '\n',
        decreases cs@.len() - i,
    {
        i = i + 1;
    }
    proof {
        if i < cs@.len() {
            lemma_first_piece_from(cs@, i as int, cs@.len() as int);
            assert(cs@.take(cs@.len() as int) =~= cs@);
        } else {
            lemma_first_line_prefix(cs@, i as int);
            assert(cs@.take(i as int) =~= cs@);
        }
    }
    string_of(&cs.as_slice()[0..i])
}

proof fn lemma_insert_to_multiset<T>(s: Seq<T>, j: int, x: T)
    requires
        0 <= j <= s.len(),
    ensures
        s.insert(j, x).to_multiset() == s.to_multiset().insert(x),
{
    broadcast use vstd::seq_lib::group_to_multiset_ensures;
    let t = s.insert(j, x);
    assert(t.remove(j) =~= s);
    assert(t.remove(j).to_multiset() == t.to_multiset().remove(t[j]));
    assert(t.to_multiset().count(x) > 0) by {
        assert(t.contains(x)) by {
            assert(t[j] == x);
        }
    }
    assert(t.to_multiset() =~= s.to_multiset().insert(x));
}

/// The strings in non-decreasing order, as `sort` leaves them.
pub fn sort_strings(v: Vec<String>) -> (r: Vec<String>)
    ensures
        sorted_le(sv(r@)),
        sv(r@).to_multiset() == sv(v@).to_multiset(),
{
    let mut out: Vec<String> = Vec::new();
    let mut i: usize = 0;
    let ghost sv_in = sv(v@);
    proof {
        assert(sv(out@) =~= Seq::<Seq<char>>::empty());
        assert(sv_in.take(0) =~= Seq::<Seq<char>>::empty());
    }
    while i < v.len()
        invariant
            i <= v@.len(),
            sv_in == sv(v@),
            sorted_le(sv(out@)),
            sv(out@).to_multiset() == sv_in.take(i as int).to_multiset(),
        decreases v@.len() - i,
    {
        let x = v[i].clone();
        let ghost xv = sv_in[i as int];
        let mut j: usize = 0;
        while j < out.len() && !str_lt(x.as_str(), out[j].as_str())
            invariant
                j <= out@.len(),
                x@ == xv,
                forall|k: int| 0 <= k < j ==> !seq_lt(xv, #[trigger] sv(out@)[k]),
            decreases out@.len() - j,
        {
            j = j + 1;
        }
        let ghost before = sv(out@);
        out.insert(j, x);
        let ghost after = sv(out@);
        assert(after =~= before.insert(j as int, xv));
        assert forall|a: int, b: int| 0 <= a < b < after.len() implies !seq_lt(#[trigger] after[b], #[trigger] after[a]) by {
            if b < j {
            } else if b == j {
                assert(!seq_lt(xv, before[a]));
            } else if a < j {
                lemma_seq_lt_total(before[a], xv);
                lemma_seq_lt_total(xv, before[j as int]);
                lemma_seq_lt_total(before[b - 1], before[a]);
                if seq_lt(before[b - 1], before[a]) {
                    if (b - 1) > j {
                        lemma_seq_lt_total(before[b - 1], before[j as int]);
                        if seq_lt(before[b - 1], before[j as int]) {
                            assert(!seq_lt(before[b - 1], before[j as int]));
                        } else {
                            lemma_seq_lt_transitive(before[j as int], before[b - 1], before[a]);
                            lemma_seq_lt_transitive(xv, before[j as int], before[a]);
                            lemma_seq_lt_asymmetric(xv, before[a]);
                            if before[j as int] == before[b - 1] {
                                lemma_seq_lt_transitive(xv, before[j as int], before[a]);
                            }
                        }
                    } else {
                        lemma_seq_lt_transitive(xv, before[j as int], before[a]);
                        lemma_seq_lt_asymmetric(xv, before[a]);
                    }
                }
            } else if a == j {
                assert(seq_lt(xv, before[j as int]));
                if (b - 1) > j {
                    assert(!seq_lt(before[b - 1], before[j as int]));
                    lemma_seq_lt_total(before[b - 1], xv);
                    if seq_lt(before[b - 1], xv) {
                        lemma_seq_lt_transitive(before[b - 1], xv, before[j as int]);
                    }
                } else {
                    lemma_seq_lt_asymmetric(xv, before[j as int]);
                }
            } else {
                assert(!seq_lt(before[b - 1], before[a - 1]));
            }
        }
        proof {
            lemma_insert_to_multiset(before, j as int, xv);
            assert(sv_in.take(i + 1) =~= sv_in.take(i as int).push(xv));
            broadcast use vstd::seq_lib::group_to_multiset_ensures;
        }
        i = i + 1;
    }
    assert(sv_in.take(v@.len() as int) =~= sv_in);
    out
}

/// An ordered set has as many distinct members as entries.
pub proof fn lemma_sorted_strict_len(s: Seq<Seq<char>>)
    requires
        sorted_strict(s),
    ensures
        s.no_duplicates(),
        s.to_set().len() == s.len(),
{
    assert forall|i: int, j: int| 0 <= i < s.len() && 0 <= j < s.len() && i != j implies s[i] != s[j] by {
        if i < j {
            assert(seq_lt(s[i], s[j]));
            lemma_seq_lt_irreflexive(s[i]);
        } else {
            assert(seq_lt(s[j], s[i]));
            lemma_seq_lt_irreflexive(s[j]);
        }
    }
    s.unique_seq_to_set();
}

proof fn lemma_leading_props(s: Seq<char>)
    ensures
        leading_ws(s) <= s.len(),
        forall|k: int| 0 <= k < leading_ws(s) ==> white_space(#[trigger] s[k]),
        leading_ws(s) < s.len() ==> !white_space(s[leading_ws(s) as int]),
    decreases s.len(),
{
    if s.len() > 0 && white_space(s[0]) {
        lemma_leading_props(s.drop_first());
        assert forall|k: int| 0 <= k < leading_ws(s) implies white_space(#[trigger] s[k]) by {
            if k > 0 {
                assert(s[k] == s.drop_first()[k - 1]);
            }
        }
        if leading_ws(s) < s.len() {
            assert(s[leading_ws(s) as int] == s.drop_first()[leading_ws(s.drop_first()) as int]);
        }
    }
}

proof fn lemma_trailing_props(s: Seq<char>)
    ensures
        trailing_ws(s) <= s.len(),
        forall|k: int| s.len() - trailing_ws(s) <= k < s.len() ==> white_space(#[trigger] s[k]),
        trailing_ws(s) < s.len() ==> !white_space(s[s.len() - trailing_ws(s) - 1]),
    decreases s.len(),
{
    if s.len() > 0 && white_space(s.last()) {
        lemma_trailing_props(s.drop_last());
        assert forall|k: int| s.len() - trailing_ws(s) <= k < s.len() implies white_space(#[trigger] s[k]) by {
            if k < s.len() - 1 {
                assert(s[k] == s.drop_last()[k]);
            }
        }
        if trailing_ws(s) < s.len() {
            assert(s[s.len() - trailing_ws(s) - 1] == s.drop_last()[s.drop_last().len() - trailing_ws(s.drop_last()) - 1]);
        }
    }
}

/// Trimming twice is trimming once.
pub proof fn lemma_trim_idempotent(s: Seq<char>)
    ensures
        trim_seq(trim_seq(s)) == trim_seq(s),
{
    lemma_leading_props(s);
    lemma_trailing_props(s);
    let t = trim_seq(s);
    if leading_ws(s) == s.len() {
        assert(t.len() == 0);
        assert(leading_ws(t) == 0);
    } else {
        let l = leading_ws(s) as int;
        let r = trailing_ws(s) as int;
        assert(l < s.len() - r) by {
            if l >= s.len() - r {
                assert(white_space(s[l]));
            }
        }
        assert(t[0] == s[l]);
        assert(t.last() == s[s.len() - r - 1]);
        assert(leading_ws(t) == 0);
        assert(trailing_ws(t) == 0);
        assert(t.subrange(0, t.len() as int) =~= t);
    }
}

/// Trimmed text is a stretch of the original: its characters are those of
/// `s` from `leading_ws(s)` on.
pub proof fn lemma_trim_within(s: Seq<char>)
    ensures
        forall|i: int| 0 <= i < trim_seq(s).len() ==> leading_ws(s) + i < s.len() && #[trigger] trim_seq(s)[i] == s[leading_ws(s) + i],
{
    lemma_leading_props(s);
    lemma_trailing_props(s);
    if leading_ws(s) < s.len() {
        let l = leading_ws(s) as int;
        let r = trailing_ws(s) as int;
        assert(l < s.len() - r) by {
            if l >= s.len() - r {
                assert(white_space(s[l]));
            }
        }
    }
}

} // verus!

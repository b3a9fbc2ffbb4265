//! Character-level helpers shared by the request classifier and the
//! response builders: ASCII case folding, Unicode whitespace trimming,
//! decimal rendering and conversions between `str`, `String` and `Vec<char>`.
use vstd::prelude::*;

verus! {

broadcast use vstd::string::group_string_axioms;

// ---------------------------------------------------------------------------
// Characters
// ---------------------------------------------------------------------------

/// The characters with the Unicode `White_Space` property: what
/// `char::is_whitespace` (and therefore `str::trim`) treats as whitespace.
pub open spec fn is_whitespace(c: char) -> bool {
    let u = c as u32;
    ||| 0x09 <= u <= 0x0D
    ||| u == 0x20
    ||| u == 0x85
    ||| u == 0xA0
    ||| u == 0x1680
    ||| 0x2000 <= u <= 0x200A
    ||| u == 0x2028
    ||| u == 0x2029
    ||| u == 0x202F
    ||| u == 0x205F
    ||| u == 0x3000
}

/// `char::to_ascii_lowercase`: `A`..=`Z` map to `a`..=`z`, all else is kept.
pub open spec fn ascii_lower(c: char) -> char {
    if 'A' <= c <= 'Z' {
        ((c as u32) + 32) as char
    } else {
        c
    }
}

/// `char::to_ascii_uppercase`: `a`..=`z` map to `A`..=`Z`, all else is kept.
pub open spec fn ascii_upper(c: char) -> char {
    if 'a' <= c <= 'z' {
        ((c as u32) - 32) as char
    } else {
        c
    }
}

/// Whitespace test, as `char::is_whitespace`.
pub fn is_whitespace_char(c: char) -> (b: bool)
    ensures
        b == is_whitespace(c),
{
    let u = c as u32;
    (0x09 <= u && u <= 0x0D) || u == 0x20 || u == 0x85 || u == 0xA0 || u == 0x1680 || (0x2000
        <= u && u <= 0x200A) || u == 0x2028 || u == 0x2029 || u == 0x202F || u == 0x205F || u
        == 0x3000
}

/// ASCII lower-casing of one character.
pub fn to_ascii_lower(c: char) -> (r: char)
    ensures
        r == ascii_lower(c),
{
    if 'A' <= c && c <= 'Z' {
        let b: u8 = c as u8;
        (b + 32) as char
    } else {
        c
    }
}

/// ASCII upper-casing of one character.
pub fn to_ascii_upper(c: char) -> (r: char)
    ensures
        r == ascii_upper(c),
{
    if 'a' <= c && c <= 'z' {
        let b: u8 = c as u8;
        (b - 32) as char
    } else {
        c
    }
}

// ---------------------------------------------------------------------------
// Sequences of characters
// ---------------------------------------------------------------------------

/// `a.eq_ignore_ascii_case(b)`: equal once both are ASCII lower-cased.
pub open spec fn eq_ignore_ascii_case(a: Seq<char>, b: Seq<char>) -> bool {
    &&& a.len() == b.len()
    &&& forall|i: int| 0 <= i < a.len() ==> ascii_lower(#[trigger] a[i]) == ascii_lower(b[i])
}

/// `s.to_ascii_uppercase() == lit`.
pub open spec fn upper_equals(s: Seq<char>, lit: Seq<char>) -> bool {
    &&& s.len() == lit.len()
    &&& forall|i: int| 0 <= i < s.len() ==> ascii_upper(#[trigger] s[i]) == lit[i]
}

/// `needle` occurs in `hay` at position `i`, ignoring ASCII case.
pub open spec fn matches_ci_at(hay: Seq<char>, needle: Seq<char>, i: int) -> bool {
    &&& 0 <= i
    &&& i + needle.len() <= hay.len()
    &&& forall|j: int|
        0 <= j < needle.len() ==> ascii_lower(#[trigger] hay[i + j]) == ascii_lower(needle[j])
}

/// `hay.to_ascii_lowercase().contains(&needle.to_ascii_lowercase())`.
pub open spec fn contains_ci(hay: Seq<char>, needle: Seq<char>) -> bool {
    exists|i: int| #[trigger] matches_ci_at(hay, needle, i)
}

/// `str::trim_start`: drop leading whitespace.
pub open spec fn trim_start(s: Seq<char>) -> Seq<char>
    decreases s.len(),
{
    if s.len() > 0 && is_whitespace(s[0]) {
        trim_start(s.drop_first())
    } else {
        s
    }
}

/// `str::trim_end`: drop trailing whitespace.
pub open spec fn trim_end(s: Seq<char>) -> Seq<char>
    decreases s.len(),
{
    if s.len() > 0 && is_whitespace(s.last()) {
        trim_end(s.drop_last())
    } else {
        s
    }
}

/// `str::trim`: drop leading and trailing whitespace.
pub open spec fn trim(s: Seq<char>) -> Seq<char> {
    trim_end(trim_start(s))
}

/// Index of the first `c` in `s` at or after `from`, as `str::find` gives it.
pub open spec fn index_of_from(s: Seq<char>, c: char, from: int) -> Option<int>
    decreases s.len() - from,
{
    if from < 0 || from >= s.len() {
        None
    } else if s[from] == c {
        Some(from)
    } else {
        index_of_from(s, c, from + 1)
    }
}

/// Index of the first `c` in `s`.
pub open spec fn index_of(s: Seq<char>, c: char) -> Option<int> {
    index_of_from(s, c, 0)
}

// ---------------------------------------------------------------------------
// Decimal numbers
// ---------------------------------------------------------------------------

/// The ASCII digit for `d < 10`.
pub open spec fn digit_char(d: nat) -> char {
    (d + 48) as char
}

/// `n` written in decimal, as `format!("{}", n)` writes an unsigned integer.
pub open spec fn decimal(n: nat) -> Seq<char>
    decreases n,
{
    if n < 10 {
        seq![digit_char(n)]
    } else {
        decimal(n / 10).push(digit_char(n % 10))
    }
}

// ---------------------------------------------------------------------------
// Executable helpers
// ---------------------------------------------------------------------------

/// `String::push`. Claimed: the string afterwards is the old one with `c`
/// appended at the end.
#[verifier::external_body]
pub fn push_char(s: &mut String, c: char)
    ensures
        final(s)@ == old(s)@.push(c),
{
    s.push(c);
}

/// The characters of `s`, in order.
pub fn chars_of(s: &str) -> (v: Vec<char>)
    ensures
        v@ == s@,
{
    let mut v: Vec<char> = Vec::new();
    for c in it: s.chars()
        invariant
            it.seq() == s@,
            v@ == it.seq().take(it.index() as int),
    {
        v.push(c);
    }
    v
}

/// A new `String` holding `cs[lo..hi]`.
pub fn string_from_range(cs: &Vec<char>, lo: usize, hi: usize) -> (s: String)
    requires
        lo <= hi <= cs@.len(),
    ensures
        s@ == cs@.subrange(lo as int, hi as int),
{
    let mut s = String::new();
    let mut i = lo;
    while i < hi
        invariant
            lo <= i <= hi <= cs@.len(),
            s@ == cs@.subrange(lo as int, i as int),
        decreases hi - i,
    {
        push_char(&mut s, cs[i]);
        assert(cs@.subrange(lo as int, i + 1) == cs@.subrange(lo as int, i as int).push(cs@[i as int]));
        i += 1;
    }
    s
}

/// Appends `n` in decimal to `s`.
pub fn push_decimal(s: &mut String, n: u64)
    ensures
        final(s)@ == old(s)@ + decimal(n as nat),
    decreases n,
{
    if n >= 10 {
        push_decimal(s, n / 10);
    }
    let d: u8 = (n % 10) as u8;
    push_char(s, (d + 48) as char);
    assert(decimal(n as nat) == if n < 10 { seq![digit_char(n as nat)] } else {
        decimal((n / 10) as nat).push(digit_char((n % 10) as nat))
    });
}

/// The bounds `(a, b)` of `trim(cs[lo..hi])` within `cs`.
pub fn trim_range(cs: &Vec<char>, lo: usize, hi: usize) -> (r: (usize, usize))
    requires
        lo <= hi <= cs@.len(),
    ensures
        lo <= r.0 <= r.1 <= hi,
        cs@.subrange(r.0 as int, r.1 as int) == trim(cs@.subrange(lo as int, hi as int)),
{
    let mut a = lo;
    while a < hi && is_whitespace_char(cs[a])
        invariant
            lo <= a <= hi <= cs@.len(),
            trim_start(cs@.subrange(lo as int, hi as int)) == trim_start(
                cs@.subrange(a as int, hi as int),
            ),
        decreases hi - a,
    {
        assert(cs@.subrange(a as int, hi as int).drop_first() == cs@.subrange(a + 1, hi as int));
        a += 1;
    }
    let mut b = hi;
    while b > a && is_whitespace_char(cs[b - 1])
        invariant
            lo <= a <= b <= hi <= cs@.len(),
            trim_end(cs@.subrange(a as int, hi as int)) == trim_end(
                cs@.subrange(a as int, b as int),
            ),
        decreases b - a,
    {
        assert(cs@.subrange(a as int, b as int).drop_last() == cs@.subrange(a as int, b - 1));
        b -= 1;
    }
    (a, b)
}

/// Whether `cs[lo..hi]` equals `name` ignoring ASCII case.
pub fn eq_ignore_ascii_case_range(cs: &Vec<char>, lo: usize, hi: usize, name: &Vec<char>) -> (b:
    bool)
    requires
        lo <= hi <= cs@.len(),
    ensures
        b == eq_ignore_ascii_case(cs@.subrange(lo as int, hi as int), name@),
{
    if hi - lo != name.len() {
        return false;
    }
    let ghost s = cs@.subrange(lo as int, hi as int);
    let mut i: usize = 0;
    while i < name.len()
        invariant
            lo <= hi <= cs@.len(),
            hi - lo == name@.len(),
            s == cs@.subrange(lo as int, hi as int),
            0 <= i <= name@.len(),
            forall|k: int| 0 <= k < i ==> ascii_lower(#[trigger] s[k]) == ascii_lower(name@[k]),
        decreases name@.len() - i,
    {
        if to_ascii_lower(cs[lo + i]) != to_ascii_lower(name[i]) {
            assert(s[i as int] == cs@[lo + i]);
            return false;
        }
        i += 1;
    }
    true
}

/// Whether `cs[lo..hi]`, ASCII upper-cased, equals `lit`.
pub fn upper_equals_range(cs: &Vec<char>, lo: usize, hi: usize, lit: &Vec<char>) -> (b: bool)
    requires
        lo <= hi <= cs@.len(),
    ensures
        b == upper_equals(cs@.subrange(lo as int, hi as int), lit@),
{
    if hi - lo != lit.len() {
        return false;
    }
    let ghost s = cs@.subrange(lo as int, hi as int);
    let mut i: usize = 0;
    while i < lit.len()
        invariant
            lo <= hi <= cs@.len(),
            hi - lo == lit@.len(),
            s == cs@.subrange(lo as int, hi as int),
            0 <= i <= lit@.len(),
            forall|k: int| 0 <= k < i ==> ascii_upper(#[trigger] s[k]) == lit@[k],
        decreases lit@.len() - i,
    {
        if to_ascii_upper(cs[lo + i]) != lit[i] {
            assert(s[i as int] == cs@[lo + i]);
            return false;
        }
        i += 1;
    }
    true
}

/// Whether `needle` occurs in `cs[lo..hi]` at offset `i`, ignoring ASCII case.
fn matches_ci_at_range(cs: &Vec<char>, lo: usize, hi: usize, needle: &Vec<char>, i: usize) -> (b:
    bool)
    requires
        lo <= hi <= cs@.len(),
        i + needle@.len() <= hi - lo,
    ensures
        b == matches_ci_at(cs@.subrange(lo as int, hi as int), needle@, i as int),
{
    let ghost s = cs@.subrange(lo as int, hi as int);
    let mut j: usize = 0;
    while j < needle.len()
        invariant
            lo <= hi <= cs@.len(),
            s == cs@.subrange(lo as int, hi as int),
            i + needle@.len() <= hi - lo,
            0 <= j <= needle@.len(),
            forall|k: int|
                0 <= k < j ==> ascii_lower(#[trigger] s[i + k]) == ascii_lower(needle@[k]),
        decreases needle@.len() - j,
    {
        if to_ascii_lower(cs[lo + i + j]) != to_ascii_lower(needle[j]) {
            assert(s[i + j] == cs@[lo + i + j]);
            return false;
        }
        j += 1;
    }
    true
}

/// Whether `needle` occurs in `cs[lo..hi]`, ignoring ASCII case.
pub fn contains_ci_range(cs: &Vec<char>, lo: usize, hi: usize, needle: &Vec<char>) -> (b: bool)
    requires
        lo <= hi <= cs@.len(),
    ensures
        b == contains_ci(cs@.subrange(lo as int, hi as int), needle@),
{
    let ghost s = cs@.subrange(lo as int, hi as int);
    let m = needle.len();
    if m > hi - lo {
        assert forall|i: int| !#[trigger] matches_ci_at(s, needle@, i) by {}
        return false;
    }
    let last = hi - lo - m;
    let mut i: usize = 0;
    while i <= last
        invariant
            lo <= hi <= cs@.len(),
            s == cs@.subrange(lo as int, hi as int),
            m == needle@.len(),
            last == hi - lo - m,
            0 <= i <= last + 1,
            forall|k: int| 0 <= k < i ==> !#[trigger] matches_ci_at(s, needle@, k),
        decreases last + 1 - i,
    {
        if matches_ci_at_range(cs, lo, hi, needle, i) {
            return true;
        }
        assert(!matches_ci_at(s, needle@, i as int));
        i += 1;
    }
    assert forall|k: int| !#[trigger] matches_ci_at(s, needle@, k) by {
        if 0 <= k < i {
        }
    }
    false
}

/// Index of the first `c` in `cs[lo..hi]`, relative to `lo`.
pub fn index_of_range(cs: &Vec<char>, lo: usize, hi: usize, c: char) -> (r: Option<usize>)
    requires
        lo <= hi <= cs@.len(),
    ensures
        match r {
            Some(k) => index_of(cs@.subrange(lo as int, hi as int), c) == Some(k as int),
            None => index_of(cs@.subrange(lo as int, hi as int), c) is None,
        },
        r matches Some(k) ==> k < hi - lo && cs@[lo + k] == c,
{
    let ghost s = cs@.subrange(lo as int, hi as int);
    let mut i: usize = 0;
    while i < hi - lo
        invariant
            lo <= hi <= cs@.len(),
            s == cs@.subrange(lo as int, hi as int),
            0 <= i <= hi - lo,
            index_of(s, c) == index_of_from(s, c, i as int),
        decreases hi - lo - i,
    {
        if cs[lo + i] == c {
            return Some(i);
        }
        i += 1;
    }
    None
}

/// The number a string of decimal digits stands for.
pub open spec fn decimal_value(s: Seq<char>) -> int
    decreases s.len(),
{
    if s.len() == 0 {
        0
    } else {
        decimal_value(s.drop_last()) * 10 + ((s.last() as u32) - 48)
    }
}

/// `decimal(n)` is the canonical rendering of `n`: it is made of digits only,
/// it stands for `n`, and it has no leading zero.
pub proof fn lemma_decimal(n: nat)
    ensures
        decimal(n).len() >= 1,
        forall|i: int| 0 <= i < decimal(n).len() ==> '0' <= #[trigger] decimal(n)[i] <= '9',
        decimal_value(decimal(n)) == n,
        decimal(n)[0] == '0' ==> n == 0,
    decreases n,
{
    let m = n % 10;
    assert((digit_char(m) as u32) == m + 48);
    if n >= 10 {
        lemma_decimal(n / 10);
        let d = decimal(n);
        assert(d.drop_last() == decimal(n / 10));
        assert(d.last() == digit_char(m));
        assert(d[0] == decimal(n / 10)[0]);
        assert(n == (n / 10) * 10 + m);
    } else {
        let d = decimal(n);
        assert(d.drop_last() == Seq::<char>::empty());
        assert(decimal_value(Seq::<char>::empty()) == 0);
    }
}

/// `trim_start(s)` drops exactly the leading run of whitespace: it is the
/// suffix of `s` from the returned index, everything before that index is
/// whitespace, and the character at it (if any) is not.
pub proof fn lemma_trim_start_bounds(s: Seq<char>) -> (a: int)
    ensures
        0 <= a <= s.len(),
        trim_start(s) == s.subrange(a, s.len() as int),
        forall|k: int| 0 <= k < a ==> is_whitespace(#[trigger] s[k]),
        a < s.len() ==> !is_whitespace(s[a]),
    decreases s.len(),
{
    if s.len() > 0 && is_whitespace(s[0]) {
        let t = s.drop_first();
        let a1 = lemma_trim_start_bounds(t);
        assert(t.subrange(a1, t.len() as int) == s.subrange(a1 + 1, s.len() as int));
        assert forall|k: int| 0 <= k < a1 + 1 implies is_whitespace(#[trigger] s[k]) by {
            if k > 0 {
                assert(s[k] == t[k - 1]);
            }
        }
        a1 + 1
    } else {
        assert(s.subrange(0, s.len() as int) == s);
        0
    }
}

/// `trim_end(s)` drops exactly the trailing run of whitespace: it is the
/// prefix of `s` up to the returned index, everything from that index on is
/// whitespace, and the character before it (if any) is not.
pub proof fn lemma_trim_end_bounds(s: Seq<char>) -> (b: int)
    ensures
        0 <= b <= s.len(),
        trim_end(s) == s.subrange(0, b),
        forall|k: int| b <= k < s.len() ==> is_whitespace(#[trigger] s[k]),
        b > 0 ==> !is_whitespace(s[b - 1]),
    decreases s.len(),
{
    if s.len() > 0 && is_whitespace(s.last()) {
        let t = s.drop_last();
        let b1 = lemma_trim_end_bounds(t);
        assert(t.subrange(0, b1) == s.subrange(0, b1));
        assert forall|k: int| b1 <= k < s.len() implies is_whitespace(#[trigger] s[k]) by {
            if k < s.len() - 1 {
                assert(s[k] == t[k]);
            }
        }
        b1
    } else {
        assert(s.subrange(0, s.len() as int) == s);
        s.len() as int
    }
}

/// `trim(s)` is the part of `s` between its leading and trailing whitespace:
/// `s[a..b]`, with only whitespace outside it, and (when non-empty) no
/// whitespace at either of its ends.
pub proof fn lemma_trim_bounds(s: Seq<char>) -> (r: (int, int))
    ensures
        0 <= r.0 <= r.1 <= s.len(),
        trim(s) == s.subrange(r.0, r.1),
        forall|k: int| 0 <= k < r.0 ==> is_whitespace(#[trigger] s[k]),
        forall|k: int| r.1 <= k < s.len() ==> is_whitespace(#[trigger] s[k]),
        r.0 < r.1 ==> !is_whitespace(s[r.0]) && !is_whitespace(s[r.1 - 1]),
{
    let a = lemma_trim_start_bounds(s);
    let u = s.subrange(a, s.len() as int);
    let b = lemma_trim_end_bounds(u);
    assert(u.subrange(0, b) == s.subrange(a, a + b));
    assert forall|k: int| a + b <= k < s.len() implies is_whitespace(#[trigger] s[k]) by {
        assert(s[k] == u[k - a]);
    }
    if b > 0 {
        assert(s[a + b - 1] == u[b - 1]);
    }
    (a, a + b)
}

/// Trimming leaves nothing exactly when every character is whitespace.
pub proof fn lemma_trim_empty_iff_blank(s: Seq<char>)
    ensures
        trim(s).len() == 0 <==> forall|k: int| 0 <= k < s.len() ==> is_whitespace(#[trigger] s[k]),
{
    let (a, b) = lemma_trim_bounds(s);
    if trim(s).len() == 0 {
        assert forall|k: int| 0 <= k < s.len() implies is_whitespace(#[trigger] s[k]) by {
            if k >= a {
                assert(k >= b);
            }
        }
    }
    if forall|k: int| 0 <= k < s.len() ==> is_whitespace(#[trigger] s[k]) {
        if a < b {
            assert(is_whitespace(s[a]));
        }
    }
}

} // verus!

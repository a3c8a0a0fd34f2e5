//! Character-level building blocks shared by the parsers: whitespace,
//! trimming, searching and splitting, over the `Seq<char>` view of strings.

use vstd::prelude::*;
use vstd::string::*;
use vstd::utf8::*;

verus! {

/// The characters that `char::is_whitespace` accepts: the Unicode
/// `White_Space` property.
pub open spec fn is_space(c: char) -> bool {
    c == '\t' || c == '\n' || c == '\u{0B}' || c == '\u{0C}' || c == '\r' || c == ' '
        || c == '\u{85}' || c == '\u{A0}' || c == '\u{1680}' || ('\u{2000}' <= c
        && c <= '\u{200A}') || c == '\u{2028}' || c == '\u{2029}' || c == '\u{202F}'
        || c == '\u{205F}' || c == '\u{3000}'
}

/// `s` without its leading whitespace.
pub open spec fn trim_start(s: Seq<char>) -> Seq<char>
    decreases s.len(),
{
    if s.len() > 0 && is_space(s[0]) {
        trim_start(s.drop_first())
    } else {
        s
    }
}

/// `s` without its trailing whitespace.
pub open spec fn trim_end(s: Seq<char>) -> Seq<char>
    decreases s.len(),
{
    if s.len() > 0 && is_space(s.last()) {
        trim_end(s.drop_last())
    } else {
        s
    }
}

/// `s` without leading and trailing whitespace.
pub open spec fn trim(s: Seq<char>) -> Seq<char> {
    trim_end(trim_start(s))
}

/// Index of the first character of `s` that is in `stops`, or -1.
pub open spec fn find_any(s: Seq<char>, stops: Set<char>) -> int
    decreases s.len(),
{
    if s.len() == 0 {
        -1
    } else if stops.contains(s[0]) {
        0
    } else {
        let r = find_any(s.drop_first(), stops);
        if r < 0 {
            -1
        } else {
            r + 1
        }
    }
}

/// Index of the first occurrence of `c` in `s`, or -1.
pub open spec fn find_char(s: Seq<char>, c: char) -> int {
    find_any(s, set![c])
}

/// `find_any` is the first index holding a character of `stops`.
pub proof fn lemma_find_any(s: Seq<char>, stops: Set<char>)
    ensures
        -1 <= find_any(s, stops) < s.len(),
        find_any(s, stops) >= 0 ==> stops.contains(s[find_any(s, stops)]),
        forall|j: int|
            0 <= j < s.len() && (find_any(s, stops) < 0 || j < find_any(s, stops))
                ==> !stops.contains(#[trigger] s[j]),
    decreases s.len(),
{
    if s.len() > 0 && !stops.contains(s[0]) {
        lemma_find_any(s.drop_first(), stops);
        assert forall|j: int| 0 < j < s.len() implies s[j] == s.drop_first()[j - 1] by {}
    }
}

/// A characterisation of `find_any` by the index it returns.
pub proof fn lemma_find_any_at(s: Seq<char>, stops: Set<char>, i: int)
    requires
        -1 <= i < s.len(),
        i >= 0 ==> stops.contains(s[i]),
        forall|j: int| 0 <= j < s.len() && (i < 0 || j < i) ==> !stops.contains(#[trigger] s[j]),
    ensures
        find_any(s, stops) == i,
{
    lemma_find_any(s, stops);
    let f = find_any(s, stops);
    if f >= 0 && (i < 0 || f < i) {
        assert(!stops.contains(s[f]));
    }
    if i >= 0 && (f < 0 || i < f) {
        assert(!stops.contains(s[i]));
    }
}

/// `s` split at each occurrence of `c`; the separators are dropped.
pub open spec fn split(s: Seq<char>, c: char) -> Seq<Seq<char>>
    decreases s.len(),
{
    let i = find_char(s, c);
    if 0 <= i < s.len() {
        seq![s.take(i)] + split(s.skip(i + 1), c)
    } else {
        seq![s]
    }
}

/// Splitting text that ends with a separator and a piece free of it gives
/// the pieces of the text and then that piece.
pub proof fn lemma_split_append(a: Seq<char>, c: char, b: Seq<char>)
    requires
        !b.contains(c),
    ensures
        split(a + seq![c] + b, c) == split(a, c).push(b),
    decreases a.len(),
{
    let s = a + seq![c] + b;
    lemma_find_any(a, set![c]);
    let i = find_char(a, c);
    if 0 <= i {
        assert forall|j: int| 0 <= j < i implies !set![c].contains(#[trigger] s[j]) by {
            assert(s[j] == a[j]);
        }
        assert(s[i] == a[i]);
        lemma_find_any_at(s, set![c], i);
        assert(s.skip(i + 1) =~= a.skip(i + 1) + seq![c] + b);
        assert(s.take(i) =~= a.take(i));
        lemma_split_append(a.skip(i + 1), c, b);
    } else {
        assert forall|j: int| 0 <= j < a.len() implies !set![c].contains(#[trigger] s[j]) by {
            assert(s[j] == a[j]);
        }
        assert(s[a.len() as int] == c);
        lemma_find_any_at(s, set![c], a.len() as int);
        assert(s.take(a.len() as int) =~= a);
        assert(s.skip(a.len() as int + 1) =~= b);
        assert forall|j: int| 0 <= j < b.len() implies !set![c].contains(#[trigger] b[j]) by {
            assert(b.contains(b[j]));
        }
        lemma_find_any_at(b, set![c], -1);
        assert(split(b, c) == seq![b]);
        assert(seq![a] + seq![b] =~= seq![a].push(b));
    }
}

/// The lowercase form of an ASCII letter; other characters are kept.
pub open spec fn ascii_lower_char(c: char) -> char {
    if 'A' <= c && c <= 'Z' {
        ((c as u32 + 32) as u32) as char
    } else {
        c
    }
}

/// `s` with its ASCII letters in lowercase.
pub open spec fn ascii_lower(s: Seq<char>) -> Seq<char> {
    s.map_values(|c: char| ascii_lower_char(c))
}

/// The character of a decimal digit.
pub open spec fn digit_char(d: nat) -> char {
    ((d + 48) as u32) as char
}

/// The decimal digits of `n`, without leading zeros.
pub open spec fn decimal(n: nat) -> Seq<char>
    decreases n,
{
    if n < 10 {
        seq![digit_char(n)]
    } else {
        decimal(n / 10).push(digit_char(n % 10))
    }
}

/// Returns whether `c` is whitespace.
pub fn is_whitespace(c: char) -> (r: bool)
    ensures
        r == is_space(c),
{
    c == '\t' || c == '\n' || c == '\u{0B}' || c == '\u{0C}' || c == '\r' || c == ' ' || c
        == '\u{85}' || c == '\u{A0}' || c == '\u{1680}' || ('\u{2000}' <= c && c <= '\u{200A}')
        || c == '\u{2028}' || c == '\u{2029}' || c == '\u{202F}' || c == '\u{205F}' || c
        == '\u{3000}'
}

/// Index of the first `c` in `cs`.
pub fn index_of(cs: &Vec<char>, c: char) -> (r: Option<usize>)
    ensures
        match r {
            Some(i) => i == find_char(cs@, c) && i < cs@.len() && cs@[i as int] == c,
            None => find_char(cs@, c) < 0,
        },
{
    let mut i: usize = 0;
    while i < cs.len()
        invariant
            i <= cs@.len(),
            forall|j: int| 0 <= j < i ==> !set![c].contains(#[trigger] cs@[j]),
        decreases cs@.len() - i,
    {
        if cs[i] == c {
            proof {
                lemma_find_any_at(cs@, set![c], i as int);
            }
            return Some(i);
        }
        i += 1;
    }
    proof {
        lemma_find_any_at(cs@, set![c], -1);
    }
    None
}

/// `s` without leading and trailing whitespace.
pub fn trim_str(s: &str) -> (r: &str)
    ensures
        r@ == trim(s@),
{
    let cs = chars_of(s);
    let n = cs.len();
    let mut a: usize = 0;
    assert(cs@.subrange(0, n as int) =~= cs@);
    while a < n && is_whitespace(cs[a])
        invariant
            a <= n,
            n == cs@.len(),
            trim_start(cs@) == trim_start(cs@.subrange(a as int, n as int)),
        decreases n - a,
    {
        assert(cs@.subrange(a as int, n as int).drop_first() =~= cs@.subrange(a + 1, n as int));
        a += 1;
    }
    let mut b: usize = n;
    while b > a && is_whitespace(cs[b - 1])
        invariant
            a <= b <= n,
            n == cs@.len(),
            trim_end(cs@.subrange(a as int, n as int)) == trim_end(cs@.subrange(a as int, b as int)),
        decreases b,
    {
        assert(cs@.subrange(a as int, b as int).drop_last() =~= cs@.subrange(a as int, b - 1));
        b -= 1;
    }
    s.substring_char(a, b)
}

/// The lowercase form of `s`, as `str::to_lowercase` gives it: each
/// character mapped by Unicode's lowercase mapping.
pub uninterp spec fn lower_of(s: Seq<char>) -> Seq<char>;

/// Relies on `str::to_lowercase`: the result depends on the characters
/// alone, and an ASCII-only string is mapped character by character, 'A'
/// to 'Z' becoming 'a' to 'z' (std's implementation lowercases its ASCII
/// prefix with `u8::to_ascii_lowercase`).
#[verifier::external_body]
pub(crate) fn to_lower(s: &str) -> (r: String)
    ensures
        r@ == lower_of(s@),
        is_ascii_chars(s@) ==> r@ == ascii_lower(s@),
{
    s.to_lowercase()
}

/// Relies on `str`'s `==`: two string slices are equal when they hold the
/// same characters.
#[verifier::external_body]
pub(crate) fn str_eq(a: &str, b: &str) -> (r: bool)
    ensures
        r == (a@ == b@),
{
    a == b
}

/// Relies on `u64`'s `Display`, through `to_string`: the decimal digits of
/// the number, without sign or leading zeros.
#[verifier::external_body]
pub(crate) fn decimal_string(n: u64) -> (r: String)
    ensures
        r@ == decimal(n as nat),
{
    n.to_string()
}

/// Relies on `std::str::from_utf8`: it accepts exactly the valid UTF-8 byte
/// sequences, and the string it returns holds those bytes.
#[verifier::external_body]
pub(crate) fn utf8_str(b: &[u8]) -> (r: Option<&str>)
    ensures
        r is Some <==> valid_utf8(b@),
        r matches Some(s) ==> s.spec_bytes() == b@,
{
    std::str::from_utf8(b).ok()
}

/// `s` without the copies of `c` that begin it.
pub open spec fn strip_leading(s: Seq<char>, c: char) -> Seq<char>
    decreases s.len(),
{
    if s.len() > 0 && s[0] == c {
        strip_leading(s.drop_first(), c)
    } else {
        s
    }
}

/// `s` without the copies of `c` that begin it.
pub fn trim_start_matches(s: &str, c: char) -> (r: &str)
    ensures
        r@ == strip_leading(s@, c),
{
    let cs = chars_of(s);
    let n = cs.len();
    let mut a: usize = 0;
    assert(cs@.subrange(0, n as int) =~= cs@);
    while a < n && cs[a] == c
        invariant
            a <= n,
            n == cs@.len(),
            strip_leading(cs@, c) == strip_leading(cs@.subrange(a as int, n as int), c),
        decreases n - a,
    {
        assert(cs@.subrange(a as int, n as int).drop_first() =~= cs@.subrange(a + 1, n as int));
        a += 1;
    }
    s.substring_char(a, n)
}

/// The characters of `s`, in order.
pub fn chars_of(s: &str) -> (r: Vec<char>)
    ensures
        r@ == s@,
{
    let mut r: Vec<char> = Vec::new();
    for c in it: s.chars()
        invariant
            r@ == it.seq().take(it.index() as int),
    {
        r.push(c);
    }
    r
}

} // verus!

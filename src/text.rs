//! Character-level scanning over document text: whitespace, character
//! classes, literal matches, trimming and substring search.
use vstd::prelude::*;

verus! {

/// Unicode `White_Space`, the set that `str::trim` and `\s` agree on.
pub open spec fn is_ws(c: char) -> bool {
    let u = c as u32;
    (9 <= u <= 13) || u == 32 || u == 0x85 || u == 0xa0 || u == 0x1680 || (0x2000 <= u <= 0x200a)
        || u == 0x2028 || u == 0x2029 || u == 0x202f || u == 0x205f || u == 0x3000
}

pub fn is_whitespace_char(c: char) -> (r: bool)
    ensures
        r == is_ws(c),
{
    let u = c as u32;
    (9 <= u && u <= 13) || u == 32 || u == 0x85 || u == 0xa0 || u == 0x1680 || (0x2000 <= u && u
        <= 0x200a) || u == 0x2028 || u == 0x2029 || u == 0x202f || u == 0x205f || u == 0x3000
}

/// The character classes that field values are drawn from.
#[derive(Clone, Copy, Debug, PartialEq, Eq, Structural)]
pub enum CharClass {
    /// Whitespace.
    Space,
    /// `A`-`Z`, `0`-`9` and `-`.
    Code,
    /// Anything but a line feed.
    NotNewline,
    /// Anything but a closing parenthesis.
    NotParen,
    /// ASCII letters.
    Alpha,
    /// ASCII letters and whitespace.
    AlphaSpace,
    /// ASCII letters, ASCII digits and whitespace.
    AlnumSpace,
    /// ASCII digits.
    Digit,
    /// ASCII digits and commas.
    DigitComma,
    /// `A`-`Z` but `I`, `O` and `Q`, and ASCII digits.
    VinChar,
}

pub open spec fn is_digit(c: char) -> bool {
    '0' <= c <= '9'
}

pub open spec fn is_upper(c: char) -> bool {
    'A' <= c <= 'Z'
}

pub open spec fn is_alpha(c: char) -> bool {
    is_upper(c) || ('a' <= c <= 'z')
}

pub open spec fn in_class(c: char, cls: CharClass) -> bool {
    match cls {
        CharClass::Space => is_ws(c),
        CharClass::Code => is_upper(c) || is_digit(c) || c == '-',
        CharClass::NotNewline => c != '\n',
        CharClass::NotParen => c != ')',
        CharClass::Alpha => is_alpha(c),
        CharClass::AlphaSpace => is_alpha(c) || is_ws(c),
        CharClass::AlnumSpace => is_alpha(c) || is_digit(c) || is_ws(c),
        CharClass::Digit => is_digit(c),
        CharClass::DigitComma => is_digit(c) || c == ',',
        CharClass::VinChar => (is_upper(c) && c != 'I' && c != 'O' && c != 'Q') || is_digit(c),
    }
}

pub fn char_in_class(c: char, cls: CharClass) -> (r: bool)
    ensures
        r == in_class(c, cls),
{
    let digit = '0' <= c && c <= '9';
    let upper = 'A' <= c && c <= 'Z';
    let alpha = upper || ('a' <= c && c <= 'z');
    match cls {
        CharClass::Space => is_whitespace_char(c),
        CharClass::Code => upper || digit || c == '-',
        CharClass::NotNewline => c != '\n',
        CharClass::NotParen => c != ')',
        CharClass::Alpha => alpha,
        CharClass::AlphaSpace => alpha || is_whitespace_char(c),
        CharClass::AlnumSpace => alpha || digit || is_whitespace_char(c),
        CharClass::Digit => digit,
        CharClass::DigitComma => digit || c == ',',
        CharClass::VinChar => (upper && c != 'I' && c != 'O' && c != 'Q') || digit,
    }
}

/// `t[i] == c`, for an index in bounds.
pub open spec fn char_at(t: Seq<char>, i: int, c: char) -> bool {
    0 <= i < t.len() && t[i] == c
}

/// `t[i]` is in bounds and belongs to `cls`.
pub open spec fn class_at(t: Seq<char>, i: int, cls: CharClass) -> bool {
    0 <= i < t.len() && in_class(t[i], cls)
}

pub fn char_is(t: &Vec<char>, i: usize, c: char) -> (r: bool)
    ensures
        r == char_at(t@, i as int, c),
        t@.len() <= usize::MAX,
{
    i < t.len() && t[i] == c
}

pub fn class_is(t: &Vec<char>, i: usize, cls: CharClass) -> (r: bool)
    ensures
        r == class_at(t@, i as int, cls),
        t@.len() <= usize::MAX,
{
    i < t.len() && char_in_class(t[i], cls)
}

/// End of the longest run of `cls` characters that starts at `i`.
pub open spec fn run_end(t: Seq<char>, i: int, cls: CharClass) -> int
    decreases t.len() - i,
{
    if 0 <= i < t.len() && in_class(t[i], cls) {
        run_end(t, i + 1, cls)
    } else {
        i
    }
}

pub proof fn lemma_run_end_bounds(t: Seq<char>, i: int, cls: CharClass)
    requires
        0 <= i <= t.len(),
    ensures
        i <= run_end(t, i, cls) <= t.len(),
        forall|k: int| i <= k < run_end(t, i, cls) ==> in_class(#[trigger] t[k], cls),
    decreases t.len() - i,
{
    if i < t.len() && in_class(t[i], cls) {
        lemma_run_end_bounds(t, i + 1, cls);
    }
}

pub fn scan_run(t: &Vec<char>, i: usize, cls: CharClass) -> (r: usize)
    requires
        i <= t@.len(),
    ensures
        r as int == run_end(t@, i as int, cls),
        i <= r <= t@.len() <= usize::MAX,
{
    let mut j = i;
    while j < t.len() && char_in_class(t[j], cls)
        invariant
            i <= j <= t@.len(),
            run_end(t@, j as int, cls) == run_end(t@, i as int, cls),
        decreases t@.len() - j,
    {
        j += 1;
    }
    j
}

/// `s` occurs in `t` at position `p`.
pub open spec fn occurs_at(t: Seq<char>, s: Seq<char>, p: int) -> bool {
    0 <= p && p + s.len() <= t.len() && t.subrange(p, p + s.len()) == s
}

/// `s` occurs somewhere in `t`.
pub open spec fn contains(t: Seq<char>, s: Seq<char>) -> bool {
    exists|p: int| occurs_at(t, s, p)
}

pub fn literal_at(t: &Vec<char>, p: usize, s: &str) -> (r: bool)
    ensures
        r == occurs_at(t@, s@, p as int),
        t@.len() <= usize::MAX,
{
    let n = s.unicode_len();
    if n > t.len() || p > t.len() - n {
        return false;
    }
    let mut i: usize = 0;
    while i < n
        invariant
            n == s@.len(),
            p + n <= t.len(),
            i <= n,
            forall|k: int| 0 <= k < i ==> t@[p + k] == s@[k],
        decreases n - i,
    {
        if t[p + i] != s.get_char(i) {
            assert(t@.subrange(p as int, p + n)[i as int] != s@[i as int]);
            return false;
        }
        i += 1;
    }
    assert(t@.subrange(p as int, p + n) =~= s@);
    true
}

/// First occurrence of `s` in `t` at or after `i`.
pub open spec fn find_from(t: Seq<char>, s: Seq<char>, i: int) -> Option<int>
    decreases t.len() + 1 - i,
{
    if 0 <= i && i + s.len() <= t.len() {
        if occurs_at(t, s, i) {
            Some(i)
        } else {
            find_from(t, s, i + 1)
        }
    } else {
        None
    }
}

pub proof fn lemma_find_from(t: Seq<char>, s: Seq<char>, i: int)
    requires
        0 <= i,
    ensures
        find_from(t, s, i) is None <==> forall|j: int| j >= i ==> !occurs_at(t, s, j),
        find_from(t, s, i) matches Some(k) ==> i <= k && occurs_at(t, s, k) && forall|j: int|
            i <= j < k ==> !occurs_at(t, s, j),
    decreases t.len() + 1 - i,
{
    if i + s.len() <= t.len() {
        lemma_find_from(t, s, i + 1);
        if !occurs_at(t, s, i) {
            assert forall|j: int| j >= i && occurs_at(t, s, j) implies j >= i + 1 by {}
        }
    }
}

pub fn find_text(t: &Vec<char>, s: &str, i: usize) -> (r: Option<usize>)
    requires
        i <= t@.len(),
    ensures
        match r {
            Some(k) => find_from(t@, s@, i as int) == Some(k as int),
            None => find_from(t@, s@, i as int) is None,
        },
{
    let n = s.unicode_len();
    if n > t.len() {
        return None;
    }
    if n == 0 {
        assert(t@.subrange(i as int, i as int) =~= s@);
        return Some(i);
    }
    if i > t.len() - n {
        return None;
    }
    let mut j = i;
    while j <= t.len() - n
        invariant
            n == s@.len(),
            0 < n <= t@.len(),
            i <= j <= t@.len() - n + 1,
            find_from(t@, s@, j as int) == find_from(t@, s@, i as int),
        decreases t@.len() - j,
    {
        if literal_at(t, j, s) {
            return Some(j);
        }
        j += 1;
    }
    None
}

/// `s` occurs somewhere in `h`.
pub fn contains_text(h: &Vec<char>, s: &str) -> (r: bool)
    ensures
        r == contains(h@, s@),
{
    proof {
        lemma_find_from(h@, s@, 0);
    }
    find_text(h, s, 0).is_some()
}

/// Start of `t[a..b]` with leading whitespace skipped.
pub open spec fn trim_lo(t: Seq<char>, a: int, b: int) -> int
    decreases b - a,
{
    if a < b && is_ws(t[a]) {
        trim_lo(t, a + 1, b)
    } else {
        a
    }
}

/// End of `t[a..b]` with trailing whitespace dropped.
pub open spec fn trim_hi(t: Seq<char>, a: int, b: int) -> int
    decreases b - a,
{
    if a < b && is_ws(t[b - 1]) {
        trim_hi(t, a, b - 1)
    } else {
        b
    }
}

/// `t[a..b]` without surrounding whitespace.
pub open spec fn trimmed(t: Seq<char>, a: int, b: int) -> Seq<char> {
    let lo = trim_lo(t, a, b);
    t.subrange(lo, trim_hi(t, lo, b))
}

pub fn trim_span(t: &Vec<char>, a: usize, b: usize) -> (r: (usize, usize))
    requires
        a <= b <= t@.len(),
    ensures
        r.0 as int == trim_lo(t@, a as int, b as int),
        r.1 as int == trim_hi(t@, r.0 as int, b as int),
        a <= r.0 <= r.1 <= b,
{
    let mut lo = a;
    while lo < b && is_whitespace_char(t[lo])
        invariant
            a <= lo <= b <= t@.len(),
            trim_lo(t@, lo as int, b as int) == trim_lo(t@, a as int, b as int),
        decreases b - lo,
    {
        lo += 1;
    }
    let mut hi = b;
    while lo < hi && is_whitespace_char(t[hi - 1])
        invariant
            a <= lo <= hi <= b <= t@.len(),
            trim_hi(t@, lo as int, hi as int) == trim_hi(t@, lo as int, b as int),
        decreases hi - lo,
    {
        hi -= 1;
    }
    (lo, hi)
}

/// Relies on `String::push`: appends one character.
#[verifier::external_body]
pub(crate) fn push_char(s: &mut String, c: char)
    ensures
        final(s)@ == old(s)@.push(c),
{
    s.push(c)
}

pub fn push_text(s: &mut String, x: &str)
    ensures
        final(s)@ == old(s)@ + x@,
{
    let n = x.unicode_len();
    let ghost start = s@;
    let mut i: usize = 0;
    while i < n
        invariant
            n == x@.len(),
            i <= n,
            s@ == start + x@.subrange(0, i as int),
        decreases n - i,
    {
        push_char(s, x.get_char(i));
        i += 1;
        assert(s@ =~= start + x@.subrange(0, i as int));
    }
    assert(x@.subrange(0, n as int) =~= x@);
}

/// A string holding the characters of `x`.
pub fn owned(x: &str) -> (r: String)
    ensures
        r@ == x@,
{
    let mut s = String::new();
    push_text(&mut s, x);
    s
}

/// The characters `t[a..b]` as a string.
pub fn string_of(t: &Vec<char>, a: usize, b: usize) -> (r: String)
    requires
        a <= b <= t@.len(),
    ensures
        r@ == t@.subrange(a as int, b as int),
{
    let mut s = String::new();
    let mut i = a;
    while i < b
        invariant
            a <= i <= b <= t@.len(),
            s@ == t@.subrange(a as int, i as int),
        decreases b - i,
    {
        push_char(&mut s, t[i]);
        i += 1;
        assert(s@ =~= t@.subrange(a as int, i as int));
    }
    s
}

/// The characters of `s`, one element each.
pub fn chars_of(s: &str) -> (r: Vec<char>)
    ensures
        r@ == s@,
{
    let n = s.unicode_len();
    let mut v: Vec<char> = Vec::new();
    let mut i: usize = 0;
    while i < n
        invariant
            n == s@.len(),
            i <= n,
            v@ == s@.subrange(0, i as int),
        decreases n - i,
    {
        v.push(s.get_char(i));
        i += 1;
        assert(v@ =~= s@.subrange(0, i as int));
    }
    assert(v@ =~= s@);
    v
}

/// What `str::to_lowercase` makes of a text.
pub uninterp spec fn lower_of(s: Seq<char>) -> Seq<char>;

/// Relies on `str::to_lowercase`: Unicode lowercasing, whose result depends on
/// the characters alone.
#[verifier::external_body]
pub(crate) fn lowercase(s: &str) -> (r: String)
    ensures
        r@ == lower_of(s@),
{
    s.to_lowercase()
}

} // verus!

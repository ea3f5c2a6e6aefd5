//! Character-level scanning of text: substring search, whitespace
//! trimming and slicing, on the character sequence of a string.
use vstd::prelude::*;

use crate::hex::push_char;

verus! {

/// The characters of `s`, in order, collected from `str::chars`.
#[verifier::external_body]
pub(crate) fn chars_of(s: &str) -> (r: Vec<char>)
    ensures
        r@ == s@,
{
    s.chars().collect()
}

/// `p` occurs in `h` starting at index `i`.
pub open spec fn occurs_at(h: Seq<char>, p: Seq<char>, i: int) -> bool {
    0 <= i && i + p.len() <= h.len() && h.subrange(i, i + p.len()) == p
}

/// The first index `>= i` at which `p` occurs in `h`, if any.
pub open spec fn find_from(h: Seq<char>, p: Seq<char>, i: int) -> Option<int>
    decreases h.len() + 1 - i,
{
    if i < 0 || i + p.len() > h.len() {
        None
    } else if occurs_at(h, p, i) {
        Some(i)
    } else {
        find_from(h, p, i + 1)
    }
}

/// What `find_from` returns is a first occurrence at or after `i`.
pub proof fn lemma_find_from(h: Seq<char>, p: Seq<char>, i: int)
    requires
        0 <= i,
    ensures
        find_from(h, p, i) matches Some(k) ==> i <= k && occurs_at(h, p, k) && forall|j: int|
            i <= j < k ==> !occurs_at(h, p, j),
        find_from(h, p, i) is None ==> forall|j: int| i <= j ==> !occurs_at(h, p, j),
    decreases h.len() + 1 - i,
{
    if i + p.len() <= h.len() && !occurs_at(h, p, i) {
        lemma_find_from(h, p, i + 1);
    }
}

/// Whether `p` occurs in `h` at index `i`.
pub fn occurs_at_exec(h: &Vec<char>, p: &Vec<char>, i: usize) -> (r: bool)
    ensures
        r == occurs_at(h@, p@, i as int),
{
    if i > h.len() || p.len() > h.len() - i {
        return false;
    }
    let mut k: usize = 0;
    while k < p.len()
        invariant
            i <= h@.len(),
            i + p@.len() <= h@.len(),
            h@.len() <= usize::MAX,
            k <= p@.len(),
            forall|j: int| 0 <= j < k ==> h@[i + j] == p@[j],
        decreases p@.len() - k,
    {
        if h[i + k] != p[k] {
            assert(h@.subrange(i as int, i + p@.len())[k as int] != p@[k as int]);
            return false;
        }
        k = k + 1;
    }
    assert(h@.subrange(i as int, i + p@.len()) =~= p@);
    true
}

/// The first index `>= from` at which `p` occurs in `h`.
pub fn find_from_exec(h: &Vec<char>, p: &Vec<char>, from: usize) -> (r: Option<usize>)
    ensures
        r matches Some(k) ==> find_from(h@, p@, from as int) == Some(k as int),
        r is None ==> find_from(h@, p@, from as int) is None,
{
    let mut i: usize = from;
    while i <= h.len() && p.len() <= h.len() - i
        invariant
            from <= i,
            find_from(h@, p@, from as int) == find_from(h@, p@, i as int),
        decreases h@.len() + 1 - i,
    {
        if occurs_at_exec(h, p, i) {
            return Some(i);
        }
        if i == h.len() {
            assert(h@.subrange(i as int, i as int) =~= p@);
            return None;
        }
        i = i + 1;
    }
    None
}

/// The first index `>= from` holding the character `c`.
pub fn find_char_from(h: &Vec<char>, c: char, from: usize) -> (r: Option<usize>)
    ensures
        r matches Some(k) ==> find_from(h@, seq![c], from as int) == Some(k as int),
        r is None ==> find_from(h@, seq![c], from as int) is None,
{
    let p: Vec<char> = vec![c];
    assert(p@ =~= seq![c]);
    find_from_exec(h, &p, from)
}

/// A string holding the characters `h[lo..hi]`.
pub fn string_from_range(h: &Vec<char>, lo: usize, hi: usize) -> (r: String)
    requires
        lo <= hi <= h@.len(),
    ensures
        r@ == h@.subrange(lo as int, hi as int),
{
    let mut s = String::new();
    let mut i: usize = lo;
    while i < hi
        invariant
            lo <= i <= hi,
            hi <= h@.len(),
            s@ == h@.subrange(lo as int, i as int),
        decreases hi - i,
    {
        push_char(&mut s, h[i]);
        assert(h@.subrange(lo as int, i + 1) =~= h@.subrange(lo as int, i as int).push(h@[i as int]));
        i = i + 1;
    }
    s
}

/// A vector holding the characters `h[lo..]`.
pub fn chars_from(h: &Vec<char>, lo: usize) -> (r: Vec<char>)
    requires
        lo <= h@.len(),
    ensures
        r@ == h@.subrange(lo as int, h@.len() as int),
{
    let mut v: Vec<char> = Vec::new();
    let mut i: usize = lo;
    while i < h.len()
        invariant
            lo <= i <= h@.len(),
            v@ == h@.subrange(lo as int, i as int),
        decreases h@.len() - i,
    {
        v.push(h[i]);
        assert(h@.subrange(lo as int, i + 1) =~= h@.subrange(lo as int, i as int).push(h@[i as int]));
        i = i + 1;
    }
    v
}

/// A vector holding the characters `h[lo..hi]`.
pub fn chars_range(h: &Vec<char>, lo: usize, hi: usize) -> (r: Vec<char>)
    requires
        lo <= hi <= h@.len(),
    ensures
        r@ == h@.subrange(lo as int, hi as int),
{
    let mut v: Vec<char> = Vec::new();
    let mut i: usize = lo;
    while i < hi
        invariant
            lo <= i <= hi,
            hi <= h@.len(),
            v@ == h@.subrange(lo as int, i as int),
        decreases hi - i,
    {
        v.push(h[i]);
        assert(h@.subrange(lo as int, i + 1) =~= h@.subrange(lo as int, i as int).push(h@[i as int]));
        i = i + 1;
    }
    v
}

/// A vector holding the characters of a string.
pub fn chars_vec(s: &str) -> (r: Vec<char>)
    ensures
        r@ == s@,
{
    chars_of(s)
}

/// The characters with the Unicode `White_Space` property (PropList.txt),
/// which is what `char::is_whitespace` tests.
pub open spec fn is_unicode_whitespace(c: char) -> bool {
    ||| '\u{9}' <= c <= '\u{d}'
    ||| c == ' '
    ||| c == '\u{85}'
    ||| c == '\u{a0}'
    ||| c == '\u{1680}'
    ||| '\u{2000}' <= c <= '\u{200a}'
    ||| c == '\u{2028}'
    ||| c == '\u{2029}'
    ||| c == '\u{202f}'
    ||| c == '\u{205f}'
    ||| c == '\u{3000}'
}

/// Whether `c` is Unicode whitespace.
pub fn is_whitespace(c: char) -> (r: bool)
    ensures
        r == is_unicode_whitespace(c),
{
    ('\u{9}' <= c && c <= '\u{d}') || c == ' ' || c == '\u{85}' || c == '\u{a0}' || c == '\u{1680}'
        || ('\u{2000}' <= c && c <= '\u{200a}') || c == '\u{2028}' || c == '\u{2029}' || c
        == '\u{202f}' || c == '\u{205f}' || c == '\u{3000}'
}

/// Number of leading whitespace characters of `s` from index `i` on.
pub open spec fn leading_ws_end(s: Seq<char>, i: int) -> int
    decreases s.len() - i,
{
    if i < 0 || i >= s.len() {
        i
    } else if is_unicode_whitespace(s[i]) {
        leading_ws_end(s, i + 1)
    } else {
        i
    }
}

/// `s` without its leading whitespace, as `str::trim_start` gives it.
pub open spec fn trim_start(s: Seq<char>) -> Seq<char> {
    s.subrange(leading_ws_end(s, 0), s.len() as int)
}

/// Index one past the last non-whitespace character among `s[..i]`.
pub open spec fn trailing_ws_start(s: Seq<char>, i: int) -> int
    decreases i,
{
    if i <= 0 || i > s.len() {
        if i > s.len() { s.len() as int } else { 0 }
    } else if is_unicode_whitespace(s[i - 1]) {
        trailing_ws_start(s, i - 1)
    } else {
        i
    }
}

/// `s` without leading and trailing whitespace, as `str::trim` gives it.
pub open spec fn trim(s: Seq<char>) -> Seq<char> {
    let t = trim_start(s);
    t.subrange(0, trailing_ws_start(t, t.len() as int))
}

/// Bounds of the leading-whitespace scan.
pub proof fn lemma_leading_ws_end(s: Seq<char>, i: int)
    requires
        0 <= i <= s.len(),
    ensures
        i <= leading_ws_end(s, i) <= s.len(),
    decreases s.len() - i,
{
    if i < s.len() && is_unicode_whitespace(s[i]) {
        lemma_leading_ws_end(s, i + 1);
    }
}

/// Bounds of the trailing-whitespace scan.
pub proof fn lemma_trailing_ws_start(s: Seq<char>, i: int)
    requires
        0 <= i <= s.len(),
    ensures
        0 <= trailing_ws_start(s, i) <= i,
    decreases i,
{
    if i > 0 && is_unicode_whitespace(s[i - 1]) {
        lemma_trailing_ws_start(s, i - 1);
    }
}

/// The characters of `s` without leading whitespace.
pub fn trim_start_chars(s: &Vec<char>) -> (r: Vec<char>)
    ensures
        r@ == trim_start(s@),
{
    let mut i: usize = 0;
    while i < s.len() && is_whitespace(s[i])
        invariant
            i <= s@.len(),
            leading_ws_end(s@, 0) == leading_ws_end(s@, i as int),
        decreases s@.len() - i,
    {
        i = i + 1;
    }
    chars_from(s, i)
}

/// The characters of `s` without leading or trailing whitespace.
pub fn trim_chars(s: &Vec<char>) -> (r: Vec<char>)
    ensures
        r@ == trim(s@),
{
    let t = trim_start_chars(s);
    let mut j: usize = t.len();
    while j > 0 && is_whitespace(t[j - 1])
        invariant
            j <= t@.len(),
            trailing_ws_start(t@, t@.len() as int) == trailing_ws_start(t@, j as int),
        decreases j,
    {
        j = j - 1;
    }
    chars_range(&t, 0, j)
}

/// `s` begins with `p`.
pub open spec fn starts_with(s: Seq<char>, p: Seq<char>) -> bool {
    p.len() <= s.len() && s.subrange(0, p.len() as int) == p
}

/// Whether `s` begins with `p`.
pub fn starts_with_exec(s: &Vec<char>, p: &Vec<char>) -> (r: bool)
    ensures
        r == starts_with(s@, p@),
{
    occurs_at_exec(s, p, 0)
}

/// `p` occurs somewhere in `s`.
pub open spec fn contains_seq(s: Seq<char>, p: Seq<char>) -> bool {
    find_from(s, p, 0) is Some
}

/// Whether two character vectors are equal.
pub fn chars_eq(a: &Vec<char>, b: &Vec<char>) -> (r: bool)
    ensures
        r == (a@ == b@),
{
    if a.len() != b.len() {
        return false;
    }
    let r = occurs_at_exec(a, b, 0);
    proof {
        if r {
            assert(a@.subrange(0, b@.len() as int) =~= a@);
        } else {
            assert(a@.subrange(0, b@.len() as int) =~= a@);
        }
    }
    r
}

} // verus!

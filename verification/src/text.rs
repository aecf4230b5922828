//! Character-sequence helpers shared by the rest of the library.

use vstd::prelude::*;
use vstd::string::*;

verus! {

/// `i` is the position of the first element of `s` that satisfies `p`.
pub open spec fn is_first_match<A>(s: Seq<A>, p: spec_fn(A) -> bool, i: int) -> bool {
    &&& 0 <= i < s.len()
    &&& p(s[i])
    &&& forall|j: int| 0 <= j < i ==> !p(#[trigger] s[j])
}

/// The position of the first element of `s` that satisfies `p`, if any.
pub open spec fn first_match<A>(s: Seq<A>, p: spec_fn(A) -> bool) -> Option<int> {
    if exists|i: int| is_first_match(s, p, i) {
        Some(choose|i: int| is_first_match(s, p, i))
    } else {
        None
    }
}

/// A position that is the first match is what `first_match` gives.
pub proof fn lemma_first_match_at<A>(s: Seq<A>, p: spec_fn(A) -> bool, i: int)
    requires
        is_first_match(s, p, i),
    ensures
        first_match(s, p) == Some(i),
{
    let k = choose|k: int| is_first_match(s, p, k);
    assert(is_first_match(s, p, k));
    if k < i {
        assert(!p(s[k]));
    } else if i < k {
        assert(!p(s[i]));
    }
}

/// With no element satisfying `p`, there is no first match.
pub proof fn lemma_first_match_none<A>(s: Seq<A>, p: spec_fn(A) -> bool)
    requires
        forall|j: int| 0 <= j < s.len() ==> !p(#[trigger] s[j]),
    ensures
        first_match(s, p) is None,
{
    if exists|i: int| is_first_match(s, p, i) {
        let k = choose|i: int| is_first_match(s, p, i);
        assert(p(s[k]));
    }
}

/// With some element satisfying `p`, there is a first match.
pub proof fn lemma_first_match_exists<A>(s: Seq<A>, p: spec_fn(A) -> bool, j: int)
    requires
        0 <= j < s.len(),
        p(s[j]),
    ensures
        first_match(s, p) is Some,
    decreases j,
{
    if forall|k: int| 0 <= k < j ==> !p(#[trigger] s[k]) {
        lemma_first_match_at(s, p, j);
    } else {
        let k = choose|k: int| 0 <= k < j && p(#[trigger] s[k]);
        lemma_first_match_exists(s, p, k);
    }
}

/// The predicate "equals `c`".
pub open spec fn is_char(c: char) -> spec_fn(char) -> bool {
    |x: char| x == c
}

/// An ASCII decimal digit.
pub open spec fn is_ascii_digit(c: char) -> bool {
    '0' <= c && c <= '9'
}

/// An ASCII hexadecimal digit, either case.
pub open spec fn is_ascii_hexdigit(c: char) -> bool {
    is_ascii_digit(c) || ('a' <= c && c <= 'f') || ('A' <= c && c <= 'F')
}

/// The text of `s` before the first `c`, and the text after it, when `s` holds `c`.
pub open spec fn split_once(s: Seq<char>, c: char) -> Option<(Seq<char>, Seq<char>)> {
    match first_match(s, is_char(c)) {
        Some(i) => Some((s.take(i), s.skip(i + 1))),
        None => None,
    }
}

/// The text of `s` before the first `c`, or all of `s` when it holds no `c`.
pub open spec fn before_first(s: Seq<char>, c: char) -> Seq<char> {
    match split_once(s, c) {
        Some((head, _)) => head,
        None => s,
    }
}

pub fn is_digit(c: char) -> (r: bool)
    ensures
        r == is_ascii_digit(c),
{
    '0' <= c && c <= '9'
}

pub fn is_hexdigit(c: char) -> (r: bool)
    ensures
        r == is_ascii_hexdigit(c),
{
    ('0' <= c && c <= '9') || ('a' <= c && c <= 'f') || ('A' <= c && c <= 'F')
}

/// Whether two strings hold the same characters.
pub fn str_eq(a: &str, b: &str) -> (r: bool)
    ensures
        r == (a@ == b@),
{
    let n = a.unicode_len();
    if n != b.unicode_len() {
        return false;
    }
    let mut i: usize = 0;
    while i < n
        invariant
            n == a@.len(),
            n == b@.len(),
            i <= n,
            forall|j: int| 0 <= j < i ==> a@[j] == b@[j],
        decreases n - i,
    {
        if a.get_char(i) != b.get_char(i) {
            return false;
        }
        i = i + 1;
    }
    assert(a@ =~= b@);
    true
}

/// Whether `p` is a prefix of `s`.
pub fn has_prefix(s: &str, p: &str) -> (r: bool)
    ensures
        r == p@.is_prefix_of(s@),
{
    let n = p.unicode_len();
    if n > s.unicode_len() {
        return false;
    }
    let mut i: usize = 0;
    while i < n
        invariant
            n == p@.len(),
            n <= s@.len(),
            i <= n,
            forall|j: int| 0 <= j < i ==> p@[j] == s@[j],
        decreases n - i,
    {
        if p.get_char(i) != s.get_char(i) {
            assert(p@[i as int] != s@.subrange(0, n as int)[i as int]);
            return false;
        }
        i = i + 1;
    }
    assert(p@ =~= s@.subrange(0, n as int));
    true
}

/// The position of the first `c` in `s`.
pub fn find_char(s: &str, c: char) -> (r: Option<usize>)
    ensures
        r == (match first_match(s@, is_char(c)) {
            Some(i) => Some(i as usize),
            None => None::<usize>,
        }),
        r matches Some(i) ==> i < s@.len(),
{
    let n = s.unicode_len();
    let mut i: usize = 0;
    while i < n
        invariant
            n == s@.len(),
            i <= n,
            forall|j: int| 0 <= j < i ==> !is_char(c)(#[trigger] s@[j]),
        decreases n - i,
    {
        if s.get_char(i) == c {
            proof {
                lemma_first_match_at(s@, is_char(c), i as int);
            }
            return Some(i);
        }
        i = i + 1;
    }
    proof {
        lemma_first_match_none(s@, is_char(c));
    }
    None
}

/// Splits `s` around its first `c`.
pub fn split_once_char(s: &str, c: char) -> (r: Option<(&str, &str)>)
    ensures
        r matches Some((a, b)) ==> split_once(s@, c) == Some((a@, b@)),
        r is None ==> split_once(s@, c) is None,
{
    match find_char(s, c) {
        Some(i) => {
            let n = s.unicode_len();
            let head = s.substring_char(0, i);
            let tail = s.substring_char(i + 1, n);
            assert(head@ =~= s@.take(i as int));
            assert(tail@ =~= s@.skip(i + 1));
            Some((head, tail))
        },
        None => None,
    }
}

/// The part of `s` before its first `c`, or all of `s`.
pub fn before_first_char(s: &str, c: char) -> (r: &str)
    ensures
        r@ == before_first(s@, c),
{
    match split_once_char(s, c) {
        Some((head, _)) => head,
        None => s,
    }
}

/// `s` followed by `t`.
pub fn concat(s: &str, t: &str) -> (r: String)
    ensures
        r@ == s@ + t@,
{
    let mut out = String::from_str(s);
    out.append(t);
    out
}

/// `i` is the position of the last element of `s` that satisfies `p`.
pub open spec fn is_last_match<A>(s: Seq<A>, p: spec_fn(A) -> bool, i: int) -> bool {
    &&& 0 <= i < s.len()
    &&& p(s[i])
    &&& forall|j: int| i < j < s.len() ==> !p(#[trigger] s[j])
}

/// The position of the last element of `s` that satisfies `p`, if any.
pub open spec fn last_match<A>(s: Seq<A>, p: spec_fn(A) -> bool) -> Option<int> {
    if exists|i: int| is_last_match(s, p, i) {
        Some(choose|i: int| is_last_match(s, p, i))
    } else {
        None
    }
}

/// A position that is the last match is what `last_match` gives.
pub proof fn lemma_last_match_at<A>(s: Seq<A>, p: spec_fn(A) -> bool, i: int)
    requires
        is_last_match(s, p, i),
    ensures
        last_match(s, p) == Some(i),
{
    let k = choose|k: int| is_last_match(s, p, k);
    assert(is_last_match(s, p, k));
    if k < i {
        assert(!p(s[i]));
    } else if i < k {
        assert(!p(s[k]));
    }
}

/// With no element satisfying `p`, there is no last match.
pub proof fn lemma_last_match_none<A>(s: Seq<A>, p: spec_fn(A) -> bool)
    requires
        forall|j: int| 0 <= j < s.len() ==> !p(#[trigger] s[j]),
    ensures
        last_match(s, p) is None,
{
    if exists|i: int| is_last_match(s, p, i) {
        let k = choose|i: int| is_last_match(s, p, i);
        assert(p(s[k]));
    }
}

/// Unicode white space (the `White_Space` property): the characters that
/// `char::is_whitespace` accepts and `str::trim` removes.
pub open spec fn is_white_space(c: char) -> bool {
    ('\u{9}' <= c && c <= '\u{d}') || c == ' ' || c == '\u{85}' || c == '\u{a0}' || c == '\u{1680}'
        || ('\u{2000}' <= c && c <= '\u{200a}') || c == '\u{2028}' || c == '\u{2029}'
        || c == '\u{202f}' || c == '\u{205f}' || c == '\u{3000}'
}

/// The predicate "is not white space".
pub open spec fn not_white_space() -> spec_fn(char) -> bool {
    |c: char| !is_white_space(c)
}

/// `s` without its leading and trailing white space: the text from its first
/// to its last character that is not white space, or nothing when every
/// character is white space. This is what `str::trim` returns.
pub open spec fn trimmed(s: Seq<char>) -> Seq<char> {
    match (first_match(s, not_white_space()), last_match(s, not_white_space())) {
        (Some(a), Some(b)) => s.subrange(a, b + 1),
        _ => Seq::empty(),
    }
}

/// `s` neither starts nor ends with white space.
pub open spec fn unpadded(s: Seq<char>) -> bool {
    s.len() == 0 || (!is_white_space(s[0]) && !is_white_space(s.last()))
}

/// Trimming leaves text without surrounding white space unchanged.
pub proof fn trim_keeps_unpadded(s: Seq<char>)
    requires
        unpadded(s),
    ensures
        trimmed(s) == s,
{
    if s.len() == 0 {
        lemma_first_match_none(s, not_white_space());
    } else {
        lemma_first_match_at(s, not_white_space(), 0);
        lemma_last_match_at(s, not_white_space(), s.len() - 1);
        assert(s.subrange(0, s.len() as int) =~= s);
    }
}

/// Whether `c` is Unicode white space.
pub fn white_space(c: char) -> (r: bool)
    ensures
        r == is_white_space(c),
{
    ('\u{9}' <= c && c <= '\u{d}') || c == ' ' || c == '\u{85}' || c == '\u{a0}' || c == '\u{1680}'
        || ('\u{2000}' <= c && c <= '\u{200a}') || c == '\u{2028}' || c == '\u{2029}'
        || c == '\u{202f}' || c == '\u{205f}' || c == '\u{3000}'
}

/// `s` with leading and trailing white space removed, as `str::trim` does.
pub fn trim(s: &str) -> (r: &str)
    ensures
        r@ == trimmed(s@),
        unpadded(s@) ==> r@ == s@,
{
    proof {
        if unpadded(s@) {
            trim_keeps_unpadded(s@);
        }
    }
    let n = s.unicode_len();
    let mut a: usize = 0;
    while a < n
        invariant
            n == s@.len(),
            a <= n,
            forall|j: int| 0 <= j < a ==> !not_white_space()(#[trigger] s@[j]),
        ensures
            a <= n,
            forall|j: int| 0 <= j < a ==> !not_white_space()(#[trigger] s@[j]),
            a < n ==> not_white_space()(s@[a as int]),
        decreases n - a,
    {
        if !white_space(s.get_char(a)) {
            break;
        }
        a = a + 1;
    }
    if a == n {
        proof {
            lemma_first_match_none(s@, not_white_space());
        }
        let e = s.substring_char(n, n);
        assert(e@ =~= Seq::<char>::empty());
        return e;
    }
    let mut b: usize = n;
    while b - 1 > a
        invariant
            n == s@.len(),
            a < b <= n,
            not_white_space()(s@[a as int]),
            forall|j: int| b <= j < n ==> !not_white_space()(#[trigger] s@[j]),
        ensures
            a < b <= n,
            not_white_space()(s@[b - 1]),
            forall|j: int| b <= j < n ==> !not_white_space()(#[trigger] s@[j]),
        decreases b,
    {
        if !white_space(s.get_char(b - 1)) {
            break;
        }
        b = b - 1;
    }
    proof {
        lemma_first_match_at(s@, not_white_space(), a as int);
        lemma_last_match_at(s@, not_white_space(), b - 1);
    }
    s.substring_char(a, b)
}

} // verus!

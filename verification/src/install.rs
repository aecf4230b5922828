//! The decisions behind installing, fetching and running a version: how a
//! label is classified, when an already cached build is reused instead of
//! resolving over the network, and which cache key a downloaded build gets.

use vstd::prelude::*;
use vstd::string::*;
use crate::cache::{
    find_by_sha, find_by_version_prefix, cache_key_sha, key_sha, newest_key, selected_by_prefix,
    selected_by_sha, sha_matches, shas_match, CacheEntry,
};
use crate::text::{
    first_match, is_char, is_first_match, lemma_first_match_at, lemma_first_match_exists,
    lemma_first_match_none, before_first, before_first_char, is_ascii_digit, is_ascii_hexdigit, is_digit, is_hexdigit,
    split_once, split_once_char, str_eq, trim, trimmed,
};

verus! {

/// Labels that only the download index can resolve.
pub open spec fn alias_label(s: Seq<char>) -> bool {
    s == "lts"@ || s == "stable"@ || s == "current"@ || s == "latest"@ || s == "canary"@
        || s == "nightly"@ || s == "next"@ || s == "edge"@ || s == "beta"@ || s == "master"@
}

/// A bare version number: starts with a digit, then only digits, dots and
/// `x`/`X` wildcards ("0.13.0", "0.x").
pub open spec fn version_like(s: Seq<char>) -> bool {
    &&& s.len() > 0
    &&& is_ascii_digit(s[0])
    &&& forall|i: int| 0 <= i < s.len() ==> version_char(#[trigger] s[i])
}

pub open spec fn version_char(c: char) -> bool {
    is_ascii_digit(c) || c == '.' || c == 'x' || c == 'X'
}

/// A git commit SHA: 7 to 40 bytes of hexadecimal digits, at least one of
/// them a letter `a`-`f` (either case).
pub open spec fn sha_like(s: Seq<char>) -> bool {
    &&& 7 <= vstd::utf8::encode_utf8(s).len() <= 40
    &&& forall|i: int| 0 <= i < s.len() ==> is_ascii_hexdigit(#[trigger] s[i])
    &&& exists|i: int| 0 <= i < s.len() && is_hex_letter(#[trigger] s[i])
}

pub open spec fn is_hex_letter(c: char) -> bool {
    ('a' <= c && c <= 'f') || ('A' <= c && c <= 'F')
}

/// Returns `true` if the input is a symbolic alias resolved entirely via network.
pub fn is_alias(s: &str) -> (r: bool)
    ensures
        r == alias_label(s@),
{
    str_eq(s, "lts") || str_eq(s, "stable") || str_eq(s, "current") || str_eq(s, "latest")
        || str_eq(s, "canary") || str_eq(s, "nightly") || str_eq(s, "next") || str_eq(s, "edge")
        || str_eq(s, "beta") || str_eq(s, "master")
}

/// Returns `true` if the input looks like a bare version number.
pub fn looks_like_version(s: &str) -> (r: bool)
    ensures
        r == version_like(s@),
{
    let n = s.unicode_len();
    if n == 0 || !is_digit(s.get_char(0)) {
        return false;
    }
    let mut i: usize = 0;
    while i < n
        invariant
            n == s@.len(),
            i <= n,
            forall|j: int| 0 <= j < i ==> version_char(#[trigger] s@[j]),
        decreases n - i,
    {
        let c = s.get_char(i);
        if !(is_digit(c) || c == '.' || c == 'x' || c == 'X') {
            assert(!version_char(s@[i as int]));
            return false;
        }
        i = i + 1;
    }
    true
}

/// Returns `true` if the input looks like a git commit SHA (7-40 hex chars
/// with at least one letter `a`-`f`).
pub fn is_sha_input(s: &str) -> (r: bool)
    ensures
        r == sha_like(s@),
{
    let n = s.unicode_len();
    let mut letter = false;
    let mut i: usize = 0;
    while i < n
        invariant
            n == s@.len(),
            i <= n,
            forall|j: int| 0 <= j < i ==> is_ascii_hexdigit(#[trigger] s@[j]),
            letter == exists|j: int| 0 <= j < i && is_hex_letter(#[trigger] s@[j]),
        decreases n - i,
    {
        let c = s.get_char(i);
        if !is_hexdigit(c) {
            assert(!is_ascii_hexdigit(s@[i as int]));
            return false;
        }
        if ('a' <= c && c <= 'f') || ('A' <= c && c <= 'F') {
            letter = true;
        }
        proof {
            if !letter {
                assert forall|j: int| 0 <= j < i + 1 implies !is_hex_letter(#[trigger] s@[j]) by {
                    if j < i {
                        assert(!(exists|k: int| 0 <= k < i && is_hex_letter(#[trigger] s@[k])));
                    }
                }
            }
        }
        i = i + 1;
    }
    proof {
        assert(vstd::utf8::is_ascii_chars(s@)) by {
            assert forall|j: int| 0 <= j < s@.len() implies '\0' <= #[trigger] s@[j] <= '\u{7f}' by {
                assert(is_ascii_hexdigit(s@[j]));
            }
        }
        vstd::utf8::is_ascii_chars_encode_utf8(s@);
    }
    letter && 7 <= n && n <= 40
}

/// The base version of a Zig version string: before any `+sha`, then
/// before any `-dev.NNN` suffix.
pub open spec fn base_version(tag: Seq<char>) -> Seq<char> {
    before_first(before_first(tag, '+'), '-')
}

/// Extract the base version (before any `+sha`, with a `-dev.NNN` suffix
/// cut at the first `-`) and the optional SHA (after the first `+`).
///
/// `"0.14.0-dev.321+abc1234e5"` gives `("0.14.0", Some("abc1234e5"))`;
/// `"0.13.0"` gives `("0.13.0", None)`.
pub fn extract_ver_sha(tag: &str) -> (r: (String, Option<&str>))
    ensures
        r.0@ == base_version(tag@),
        r.1 matches Some(t) ==> key_sha(tag@) == Some(t@),
        r.1 is None ==> key_sha(tag@) is None,
{
    let ver_part = before_first_char(tag, '+');
    let clean = before_first_char(ver_part, '-');
    (String::from_str(clean), cache_key_sha(tag))
}

/// `s` with every trailing repetition of `suffix` removed, as
/// `str::trim_end_matches` with a string pattern does.
pub open spec fn strip_suffixes(s: Seq<char>, suffix: Seq<char>) -> Seq<char>
    decreases s.len(),
{
    if suffix.len() > 0 && suffix.is_suffix_of(s) {
        strip_suffixes(s.take(s.len() - suffix.len()), suffix)
    } else {
        s
    }
}

fn has_suffix(s: &str, suffix: &str) -> (r: bool)
    ensures
        r == suffix@.is_suffix_of(s@),
{
    let n = s.unicode_len();
    let m = suffix.unicode_len();
    if m > n {
        return false;
    }
    let tail = s.substring_char(n - m, n);
    str_eq(tail, suffix)
}

fn strip_all_suffixes<'a>(s: &'a str, suffix: &str) -> (r: &'a str)
    requires
        suffix@.len() > 0,
    ensures
        r@ == strip_suffixes(s@, suffix@),
{
    let m = suffix.unicode_len();
    let mut cur = s;
    while has_suffix(cur, suffix)
        invariant
            m == suffix@.len(),
            m > 0,
            strip_suffixes(cur@, suffix@) == strip_suffixes(s@, suffix@),
        decreases cur@.len(),
    {
        let n = cur.unicode_len();
        cur = cur.substring_char(0, n - m);
    }
    cur
}

/// The version prefix a wildcard label stands for: trailing ".x" groups
/// removed, then trailing ".X" groups ("0.13.x" stands for "0.13").
pub open spec fn wildcard_prefix(v: Seq<char>) -> Seq<char> {
    strip_suffixes(strip_suffixes(v, ".x"@), ".X"@)
}

/// Removes trailing ".x" groups, then trailing ".X" groups.
pub fn version_prefix(v: &str) -> (r: &str)
    ensures
        r@ == wildcard_prefix(v@),
{
    proof {
        reveal_strlit(".x");
        reveal_strlit(".X");
    }
    strip_all_suffixes(strip_all_suffixes(v, ".x"), ".X")
}

/// The cached key that a label selects before anything is resolved over
/// the network: aliases never do; a SHA selects the newest key with a
/// matching SHA; a version number (wildcards removed) selects the newest
/// key it prefixes.
pub open spec fn cached_before_resolve(label: Seq<char>, es: Seq<CacheEntry>) -> Option<String> {
    let v = trimmed(label);
    if alias_label(v) {
        None
    } else if sha_like(v) {
        newest_key(es, selected_by_sha(v))
    } else if version_like(v) {
        newest_key(es, selected_by_prefix(wildcard_prefix(v)))
    } else {
        None
    }
}

/// Looks a label up in the cache before resolving it (see `cached_before_resolve`).
pub fn find_cached_for_label(version_str: &str, entries: &[CacheEntry]) -> (r: Option<String>)
    ensures
        r == cached_before_resolve(version_str@, entries@),
{
    let v = trim(version_str);
    if is_alias(v) {
        None
    } else if is_sha_input(v) {
        find_by_sha(v, entries)
    } else if looks_like_version(v) {
        find_by_version_prefix(version_prefix(v), entries)
    } else {
        None
    }
}

/// Whether a cached key's SHA is compatible with a resolved release's SHA:
/// a release without SHA accepts any key; a release with one needs a key
/// whose SHA fuzzily matches it.
pub open spec fn sha_compatible(release_sha: Option<Seq<char>>, cached_sha: Option<Seq<char>>) -> bool {
    match (release_sha, cached_sha) {
        (Some(rs), Some(cs)) => shas_match(cs, rs),
        (None, _) => true,
        (Some(_), None) => false,
    }
}

/// The cached key that serves a release resolved to version `raw`: the
/// newest key selected by the release's base version, when its SHA is
/// compatible with the release's.
pub open spec fn cached_after_resolve(raw: Seq<char>, es: Seq<CacheEntry>) -> Option<String> {
    match newest_key(es, selected_by_prefix(base_version(raw))) {
        Some(c) => if sha_compatible(key_sha(raw), key_sha(c@)) {
            Some(c)
        } else {
            None
        },
        None => None,
    }
}

/// Looks a resolved release's version up in the cache (see `cached_after_resolve`).
pub fn find_cached_for_release(raw_version: &str, entries: &[CacheEntry]) -> (r: Option<String>)
    ensures
        r == cached_after_resolve(raw_version@, entries@),
{
    let (ver_prefix, release_sha) = extract_ver_sha(raw_version);
    match find_by_version_prefix(ver_prefix.as_str(), entries) {
        Some(cached) => {
            let ok = match (release_sha, cache_key_sha(cached.as_str())) {
                (Some(rs), Some(cs)) => sha_matches(cs, rs),
                (None, _) => true,
                (Some(_), None) => false,
            };
            if ok {
                Some(cached)
            } else {
                None
            }
        },
        None => None,
    }
}

/// The short form of a commit SHA: its first 9 characters (all of it when
/// shorter).
pub open spec fn short_sha(sha: Seq<char>) -> Seq<char> {
    if sha.len() <= 9 {
        sha
    } else {
        sha.take(9)
    }
}

/// The first 9 characters of `sha`, or all of it when shorter.
fn nine_char_prefix(sha: &str) -> (r: &str)
    ensures
        r@ == short_sha(sha@),
{
    let n = sha.unicode_len();
    if n <= 9 {
        sha
    } else {
        let p = sha.substring_char(0, 9);
        assert(p@ =~= sha@.take(9));
        p
    }
}

/// The cache-key parts read from what `zig version` prints: the trimmed
/// text, or, when it holds a `+`, the base version (cut at the first `-`)
/// and the first 9 characters of the SHA.
pub open spec fn version_output_parts(raw: Seq<char>) -> (Seq<char>, Option<Seq<char>>) {
    let v = trimmed(raw);
    match split_once(v, '+') {
        Some((base, sha)) => (before_first(base, '-'), Some(short_sha(sha))),
        None => (v, None),
    }
}

/// Reads the canonical cache-key parts from the output of `zig version`:
/// `"0.13.0"` gives `("0.13.0", None)` and `"0.14.0-dev.321+abc1234e5f"`
/// gives `("0.14.0", Some("abc1234e5"))`.
pub fn parse_version_output(raw: &str) -> (r: (String, Option<String>))
    ensures
        r.0@ == version_output_parts(raw@).0,
        match r.1 {
            Some(t) => version_output_parts(raw@).1 == Some(t@),
            None => version_output_parts(raw@).1 is None,
        },
{
    let v = trim(raw);
    match split_once_char(v, '+') {
        Some((base, sha)) => (
            String::from_str(before_first_char(base, '-')),
            Some(String::from_str(nine_char_prefix(sha))),
        ),
        None => (String::from_str(v), None),
    }
}

/// The cache key of a build: its version, with `+sha` appended when it has one.
pub open spec fn key_for(ver: Seq<char>, sha: Option<Seq<char>>) -> Seq<char> {
    match sha {
        Some(s) => ver + seq!['+'] + s,
        None => ver,
    }
}

/// Builds a cache key from a version and an optional SHA.
pub fn cache_key(ver: &str, sha: Option<&str>) -> (r: String)
    ensures
        r@ == key_for(ver@, match sha {
            Some(s) => Some(s@),
            None => None,
        }),
{
    match sha {
        Some(s) => {
            let mut k = String::from_str(ver);
            k.append("+");
            k.append(s);
            proof {
                reveal_strlit("+");
            }
            k
        },
        None => String::from_str(ver),
    }
}

proof fn lemma_no_char_before_first(s: Seq<char>, c: char)
    ensures
        !before_first(s, c).contains(c),
{
    match first_match(s, is_char(c)) {
        Some(i) => {
            assert(is_first_match(s, is_char(c), i));
            assert forall|j: int| 0 <= j < i implies s.take(i)[j] != c by {
                assert(!is_char(c)(s[j]));
            }
        },
        None => {
            assert forall|j: int| 0 <= j < s.len() implies s[j] != c by {
                if s[j] == c {
                    lemma_first_match_exists(s, is_char(c), j);
                }
            }
        },
    }
}

/// A key built from a version without `+` and a SHA carries that SHA: the
/// part after its first `+` is the SHA, and its base version is the
/// version's base.
pub proof fn key_for_carries_sha(ver: Seq<char>, sha: Option<Seq<char>>)
    requires
        !ver.contains('+'),
    ensures
        key_sha(key_for(ver, sha)) == sha,
{
    let k = key_for(ver, sha);
    match sha {
        Some(t) => {
            let i = ver.len() as int;
            assert(k[i] == '+');
            assert forall|j: int| 0 <= j < i implies !is_char('+')(#[trigger] k[j]) by {
                assert(k[j] == ver[j]);
            }
            lemma_first_match_at(k, is_char('+'), i);
            assert(k.skip(i + 1) =~= t);
        },
        None => {
            assert forall|j: int| 0 <= j < k.len() implies !is_char('+')(#[trigger] k[j]) by {
                assert(ver[j] != '+');
            }
            lemma_first_match_none(k, is_char('+'));
        },
    }
}

/// The key built from what `zig version` prints carries the SHA that was
/// read from it: `cache_key_sha` of the canonical key gives the short SHA
/// back, and no SHA when the output had none.
pub proof fn version_output_key_keeps_sha(raw: Seq<char>)
    ensures
        key_sha(key_for(version_output_parts(raw).0, version_output_parts(raw).1))
            == version_output_parts(raw).1,
{
    let v = trimmed(raw);
    match split_once(v, '+') {
        Some((base, sha)) => {
            lemma_no_char_before_first(base, '-');
            let b = before_first(base, '-');
            match first_match(v, is_char('+')) {
                Some(i) => {
                    assert(is_first_match(v, is_char('+'), i));
                    assert(base == v.take(i));
                    assert forall|j: int| 0 <= j < base.len() implies base[j] != '+' by {
                        assert(!is_char('+')(v[j]));
                    }
                },
                None => {},
            }
            assert(!b.contains('+')) by {
                if b.contains('+') {
                    let j = choose|j: int| 0 <= j < b.len() && b[j] == '+';
                    match first_match(base, is_char('-')) {
                        Some(m) => {
                            assert(b == base.take(m));
                            assert(base[j] == '+');
                        },
                        None => {},
                    }
                    match first_match(v, is_char('+')) {
                        Some(i) => {
                            assert(is_first_match(v, is_char('+'), i));
                            assert(base == v.take(i));
                        },
                        None => {},
                    }
                }
            }
            key_for_carries_sha(b, Some(short_sha(sha)));
        },
        None => {
            assert(!v.contains('+')) by {
                if v.contains('+') {
                    let j = choose|j: int| 0 <= j < v.len() && v[j] == '+';
                    lemma_first_match_exists(v, is_char('+'), j);
                }
            }
            key_for_carries_sha(v, None);
        },
    }
}

/// Whether switching to `tag` is needed: it is not when `tag` is already
/// the active version.
pub fn needs_activation(active: Option<&str>, tag: &str) -> (r: bool)
    ensures
        r == !(match active {
            Some(a) => a@ == tag@,
            None => false,
        }),
{
    match active {
        Some(a) => !str_eq(a, tag),
        None => true,
    }
}

/// The cached key that `remove <version>` removes: the version itself when
/// its binary is cached; else, for a SHA, the newest key with a matching
/// SHA; else the newest key the version prefixes.
pub open spec fn removal_choice(v: Seq<char>, exactly_cached: bool, es: Seq<CacheEntry>) -> Option<Seq<char>> {
    if exactly_cached {
        Some(v)
    } else {
        let found = if sha_like(v) {
            newest_key(es, selected_by_sha(v))
        } else {
            newest_key(es, selected_by_prefix(v))
        };
        match found {
            Some(k) => Some(k@),
            None => None,
        }
    }
}

/// Picks the cached key to remove for a version given on the command line
/// (see `removal_choice`); `None` means the version is not cached.
pub fn removal_target(version: &str, exactly_cached: bool, entries: &[CacheEntry]) -> (r: Option<String>)
    ensures
        match removal_choice(version@, exactly_cached, entries@) {
            Some(k) => r matches Some(s) && s@ == k,
            None => r is None,
        },
{
    if exactly_cached {
        Some(String::from_str(version))
    } else if is_sha_input(version) {
        find_by_sha(version, entries)
    } else {
        find_by_version_prefix(version, entries)
    }
}

} // verus!

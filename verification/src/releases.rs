//! The Zig download index: release records, version ordering and the
//! resolution of a user's version label to one release.

use vstd::prelude::*;
use vstd::string::*;
use crate::text::{
    first_match, is_ascii_digit, is_digit, lemma_first_match_at, lemma_first_match_none, split_once,
    split_once_char, str_eq, has_prefix, trim, trimmed, is_first_match, lemma_first_match_exists,
};

verus! {

/// Where the Zig download index is published.
pub const INDEX_URL: &'static str = "https://ziglang.org/download/index.json";

/// The numeric value of a run of ASCII decimal digits.
pub open spec fn decimal_value(s: Seq<char>) -> nat
    decreases s.len(),
{
    if s.len() == 0 {
        0
    } else {
        decimal_value(s.drop_last()) * 10 + ((s.last() as u32) - ('0' as u32)) as nat
    }
}

/// Every character of `s` is an ASCII digit.
pub open spec fn all_digits(s: Seq<char>) -> bool {
    forall|i: int| 0 <= i < s.len() ==> is_ascii_digit(#[trigger] s[i])
}

/// `s` without one leading `+`.
pub open spec fn unsigned_body(s: Seq<char>) -> Seq<char> {
    if s.len() > 0 && s[0] == '+' { s.drop_first() } else { s }
}

/// What `u32::from_str` accepts: an optional `+`, then one or more ASCII
/// digits whose value fits in 32 bits.
pub open spec fn parse_u32_spec(s: Seq<char>) -> Option<u32> {
    let body = unsigned_body(s);
    if body.len() > 0 && all_digits(body) && decimal_value(body) <= u32::MAX {
        Some(decimal_value(body) as u32)
    } else {
        None
    }
}

/// A version field: its number, or 0 when it is missing or not a number.
pub open spec fn field_value(p: Option<Seq<char>>) -> u32 {
    match p {
        Some(s) => match parse_u32_spec(s) {
            Some(n) => n,
            None => 0,
        },
        None => 0,
    }
}

/// The first three dot-separated fields of `v` as numbers; the third field
/// is everything after the second dot.
pub open spec fn semver_of(v: Seq<char>) -> (u32, u32, u32) {
    match split_once(v, '.') {
        None => (field_value(Some(v)), 0, 0),
        Some((major, rest)) => match split_once(rest, '.') {
            None => (field_value(Some(major)), field_value(Some(rest)), 0),
            Some((minor, patch)) => (
                field_value(Some(major)),
                field_value(Some(minor)),
                field_value(Some(patch)),
            ),
        },
    }
}

/// Lexicographic `a >= b` on version triples.
pub open spec fn semver_ge(a: (u32, u32, u32), b: (u32, u32, u32)) -> bool {
    a.0 > b.0 || (a.0 == b.0 && (a.1 > b.1 || (a.1 == b.1 && a.2 >= b.2)))
}

/// Parses a decimal `u32` as `u32::from_str` does.
pub fn parse_u32(s: &str) -> (r: Option<u32>)
    ensures
        r == parse_u32_spec(s@),
{
    let n = s.unicode_len();
    let start: usize = if n > 0 && s.get_char(0) == '+' { 1 } else { 0 };
    let ghost body = unsigned_body(s@);
    assert(body =~= s@.subrange(start as int, n as int));
    if start == n {
        assert(body.len() == 0);
        return None;
    }
    let mut acc: u64 = 0;
    let mut overflow = false;
    let mut i: usize = start;
    while i < n
        invariant
            n == s@.len(),
            start <= i <= n,
            body == s@.subrange(start as int, n as int),
            body == unsigned_body(s@),
            forall|j: int| start <= j < i ==> is_ascii_digit(#[trigger] s@[j]),
            !overflow ==> acc == decimal_value(s@.subrange(start as int, i as int)),
            !overflow ==> acc <= u32::MAX,
            overflow ==> decimal_value(s@.subrange(start as int, i as int)) > u32::MAX,
        decreases n - i,
    {
        let c = s.get_char(i);
        if !is_digit(c) {
            assert(!is_ascii_digit(body[i - start]));
            return None;
        }
        let ghost prev = s@.subrange(start as int, i as int);
        let ghost next = s@.subrange(start as int, i + 1);
        assert(next.drop_last() =~= prev);
        assert(next.last() == c);
        let d = (c as u32 - '0' as u32) as u64;
        if !overflow {
            acc = acc * 10 + d;
            if acc > 0xffff_ffff {
                overflow = true;
            }
        }
        i = i + 1;
    }
    assert(s@.subrange(start as int, n as int) == body);
    assert forall|j: int| 0 <= j < body.len() implies is_ascii_digit(#[trigger] body[j]) by {
        assert(body[j] == s@[j + start]);
    }
    if overflow {
        None
    } else {
        Some(acc as u32)
    }
}

fn field_of(p: &str) -> (r: u32)
    ensures
        r == field_value(Some(p@)),
{
    match parse_u32(p) {
        Some(v) => v,
        None => 0,
    }
}

/// Parses "X.Y.Z" into a comparable numeric triple. A field that is missing
/// or not a plain number (such as "0-dev.1") counts as 0.
pub fn parse_semver(v: &str) -> (r: (u32, u32, u32))
    ensures
        r == semver_of(v@),
{
    match split_once_char(v, '.') {
        None => (field_of(v), 0, 0),
        Some((major, rest)) => match split_once_char(rest, '.') {
            None => (field_of(major), field_of(rest), 0),
            Some((minor, patch)) => (field_of(major), field_of(minor), field_of(patch)),
        },
    }
}

/// One downloadable Zig release for the current platform.
#[derive(Debug, Clone)]
pub struct ReleaseInfo {
    pub version: String,
    pub tarball_url: String,
    pub is_master: bool,
}

/// One platform section of an index entry: its name (e.g. "x86_64-linux")
/// and the `tarball` URL when the section holds one as a string.
#[derive(Debug)]
pub struct PlatformEntry {
    pub name: String,
    pub tarball: Option<String>,
}

/// One top-level entry of the download index: its key ("master", "0.13.0",
/// ...), its `version` field when that is a string, and its sections.
#[derive(Debug)]
pub struct IndexEntry {
    pub key: String,
    pub version: Option<String>,
    pub platforms: Vec<PlatformEntry>,
}

/// A release may be listed before another: the nightly build comes first,
/// then the others by descending version.
pub open spec fn may_precede(a: ReleaseInfo, b: ReleaseInfo) -> bool {
    a.is_master || (!b.is_master && semver_ge(semver_of(a.version@), semver_of(b.version@)))
}

/// The key that the listing order compares.
pub open spec fn sort_key(r: ReleaseInfo) -> (bool, (u32, u32, u32)) {
    if r.is_master {
        (true, (0, 0, 0))
    } else {
        (false, semver_of(r.version@))
    }
}

pub open spec fn has_sort_key(k: (bool, (u32, u32, u32))) -> spec_fn(ReleaseInfo) -> bool {
    |r: ReleaseInfo| sort_key(r) == k
}

/// The nightly build first, then descending version order.
pub open spec fn in_listing_order(s: Seq<ReleaseInfo>) -> bool {
    forall|i: int, j: int| 0 <= i < j < s.len() ==> may_precede(s[i], s[j])
}

/// `out` keeps, among releases with equal sort keys, the order they had in `inp`.
pub open spec fn keeps_tie_order(out: Seq<ReleaseInfo>, inp: Seq<ReleaseInfo>) -> bool {
    forall|k: (bool, (u32, u32, u32))| #[trigger] out.filter(has_sort_key(k)) == inp.filter(has_sort_key(k))
}

proof fn lemma_may_precede_total(a: ReleaseInfo, b: ReleaseInfo)
    ensures
        may_precede(a, b) || may_precede(b, a),
        !may_precede(b, a) ==> sort_key(b) != sort_key(a),
{
}

proof fn lemma_may_precede_trans(a: ReleaseInfo, b: ReleaseInfo, c: ReleaseInfo)
    requires
        may_precede(a, b),
        may_precede(b, c),
    ensures
        may_precede(a, c),
{
}

proof fn lemma_mutual_precede_same_key(a: ReleaseInfo, b: ReleaseInfo)
    requires
        may_precede(a, b),
        may_precede(b, a),
    ensures
        sort_key(a) == sort_key(b),
{
}

/// Two listings in listing order that agree, key by key, on the order of
/// their releases are the same listing.
proof fn lemma_listing_unique(a: Seq<ReleaseInfo>, b: Seq<ReleaseInfo>)
    requires
        in_listing_order(a),
        in_listing_order(b),
        forall|k: (bool, (u32, u32, u32))| #[trigger] a.filter(has_sort_key(k)) == b.filter(has_sort_key(k)),
    ensures
        a == b,
    decreases a.len(),
{
    broadcast use vstd::seq_lib::group_filter_ensures;
    if a.len() == 0 {
        if b.len() > 0 {
            let k = sort_key(b[0]);
            assert(b.filter(has_sort_key(k)).contains(b[0]));
            assert(a.filter(has_sort_key(k)).len() <= a.len());
        }
        assert(a =~= b);
    } else if b.len() == 0 {
        let k = sort_key(a[0]);
        assert(a.filter(has_sort_key(k)).contains(a[0]));
        assert(b.filter(has_sort_key(k)).len() <= b.len());
    } else {
        let x = a[0];
        let y = b[0];
        let kx = sort_key(x);
        let ky = sort_key(y);
        assert(a.filter(has_sort_key(kx)).contains(a[0]));
        assert(b.filter(has_sort_key(kx)).contains(x));
        b.lemma_filter_contains_rev(has_sort_key(kx), x);
        let j = choose|j: int| 0 <= j < b.len() && b[j] == x;
        if j > 0 {
            assert(may_precede(b[0], b[j]));
        }
        assert(b.filter(has_sort_key(ky)).contains(b[0]));
        assert(a.filter(has_sort_key(ky)).contains(y));
        a.lemma_filter_contains_rev(has_sort_key(ky), y);
        let i = choose|i: int| 0 <= i < a.len() && a[i] == y;
        if i > 0 {
            assert(may_precede(a[0], a[i]));
        }
        lemma_mutual_precede_same_key(x, y);
        let ra = a.drop_first();
        let rb = b.drop_first();
        assert(a == seq![x] + ra);
        assert(b == seq![y] + rb);
        ra.lemma_filter_prepend(x, has_sort_key(kx));
        rb.lemma_filter_prepend(y, has_sort_key(kx));
        assert(a.filter(has_sort_key(kx))[0] == x);
        assert(b.filter(has_sort_key(kx))[0] == y);
        assert(x == y);
        assert forall|k: (bool, (u32, u32, u32))| #[trigger] ra.filter(has_sort_key(k)) == rb.filter(has_sort_key(k)) by {
            ra.lemma_filter_prepend(x, has_sort_key(k));
            rb.lemma_filter_prepend(y, has_sort_key(k));
            assert(a.filter(has_sort_key(k)) == b.filter(has_sort_key(k)));
            if k == kx {
                assert(ra.filter(has_sort_key(k)) =~= a.filter(has_sort_key(k)).drop_first());
                assert(rb.filter(has_sort_key(k)) =~= b.filter(has_sort_key(k)).drop_first());
            } else {
                assert(ra.filter(has_sort_key(k)) =~= a.filter(has_sort_key(k)));
                assert(rb.filter(has_sort_key(k)) =~= b.filter(has_sort_key(k)));
            }
        }
        lemma_listing_unique(ra, rb);
        assert(a =~= b);
    }
}

/// A reordering of `s` into listing order that keeps the order of ties.
pub open spec fn is_listing_of(l: Seq<ReleaseInfo>, s: Seq<ReleaseInfo>) -> bool {
    &&& in_listing_order(l)
    &&& l.to_multiset() == s.to_multiset()
    &&& keeps_tie_order(l, s)
}

/// The listing of `s`: the stable sort of `s` into listing order (it is unique).
pub open spec fn listing_of(s: Seq<ReleaseInfo>) -> Seq<ReleaseInfo> {
    choose|l: Seq<ReleaseInfo>| is_listing_of(l, s)
}

proof fn lemma_listing_of(l: Seq<ReleaseInfo>, s: Seq<ReleaseInfo>)
    requires
        is_listing_of(l, s),
    ensures
        listing_of(s) == l,
{
    let c = choose|c: Seq<ReleaseInfo>| is_listing_of(c, s);
    assert(is_listing_of(c, s));
    assert forall|k: (bool, (u32, u32, u32))| #[trigger] c.filter(has_sort_key(k)) == l.filter(has_sort_key(k)) by {
        assert(c.filter(has_sort_key(k)) == s.filter(has_sort_key(k)));
        assert(l.filter(has_sort_key(k)) == s.filter(has_sort_key(k)));
    }
    lemma_listing_unique(c, l);
}

fn copy_release(r: &ReleaseInfo) -> (c: ReleaseInfo)
    ensures
        c == *r,
{
    ReleaseInfo { version: r.version.clone(), tarball_url: r.tarball_url.clone(), is_master: r.is_master }
}

fn release_may_precede(a: &ReleaseInfo, b: &ReleaseInfo) -> (r: bool)
    ensures
        r == may_precede(*a, *b),
{
    if a.is_master {
        true
    } else if b.is_master {
        false
    } else {
        let x = parse_semver(&a.version);
        let y = parse_semver(&b.version);
        x.0 > y.0 || (x.0 == y.0 && (x.1 > y.1 || (x.1 == y.1 && x.2 >= y.2)))
    }
}

/// Orders releases for listing: the nightly build first, then descending
/// numeric version ("0.16.0" before "0.9.1"). Releases with equal keys keep
/// their order (a stable sort).
pub fn sort_releases(releases: Vec<ReleaseInfo>) -> (r: Vec<ReleaseInfo>)
    ensures
        is_listing_of(r@, releases@),
        r@ == listing_of(releases@),
{
    broadcast use vstd::seq_lib::group_to_multiset_ensures;
    let mut out: Vec<ReleaseInfo> = Vec::new();
    let n = releases.len();
    let mut i: usize = 0;
    proof {
        assert(releases@.take(0) =~= Seq::<ReleaseInfo>::empty());
        assert forall|k: (bool, (u32, u32, u32))| #[trigger] out@.filter(has_sort_key(k))
            == releases@.take(0).filter(has_sort_key(k)) by {
            reveal(Seq::filter);
        }
    }
    while i < n
        invariant
            n == releases@.len(),
            i <= n,
            in_listing_order(out@),
            out@.to_multiset() == releases@.take(i as int).to_multiset(),
            keeps_tie_order(out@, releases@.take(i as int)),
        decreases n - i,
    {
        let x = copy_release(&releases[i]);
        let m = out.len();
        let mut p: usize = 0;
        while p < m && release_may_precede(&out[p], &x)
            invariant
                m == out@.len(),
                p <= m,
                forall|q: int| 0 <= q < p ==> may_precede(#[trigger] out@[q], x),
            decreases m - p,
        {
            p = p + 1;
        }
        let ghost old_out = out@;
        proof {
            assert forall|q: int| p <= q < m implies !may_precede(#[trigger] old_out[q], x) by {
                if may_precede(old_out[q], x) {
                    if q > p {
                        lemma_may_precede_trans(old_out[p as int], old_out[q], x);
                    }
                }
            }
        }
        out.insert(p, x);
        proof {
            let new_out = out@;
            assert(new_out == old_out.insert(p as int, x));
            old_out.insert_ensures(p as int, x);
            assert forall|a: int, b: int| 0 <= a < b < new_out.len() implies may_precede(new_out[a], new_out[b]) by {
                if a < p && b < p {
                } else if a < p && b == p {
                } else if a < p && b > p {
                    assert(new_out[b] == old_out[b - 1]);
                } else if a == p {
                    assert(new_out[b] == old_out[b - 1]);
                    lemma_may_precede_total(old_out[b - 1], x);
                } else {
                    assert(new_out[a] == old_out[a - 1]);
                    assert(new_out[b] == old_out[b - 1]);
                }
            }
            vstd::seq_lib::to_multiset_insert(old_out, p as int, x);
            assert(releases@.take(i + 1) == releases@.take(i as int).push(x));
            vstd::seq_lib::to_multiset_build(releases@.take(i as int), x);
            assert(new_out.to_multiset() == releases@.take(i + 1).to_multiset());
            let front = old_out.take(p as int);
            let back = old_out.skip(p as int);
            assert(old_out == front + back);
            assert(new_out == front + seq![x] + back);
            assert forall|k: (bool, (u32, u32, u32))| #[trigger] new_out.filter(has_sort_key(k))
                == releases@.take(i + 1).filter(has_sort_key(k)) by {
                let pk = has_sort_key(k);
                releases@.take(i as int).lemma_filter_push(x, pk);
                Seq::filter_distributes_over_add(front + seq![x], back, pk);
                Seq::filter_distributes_over_add(front, seq![x], pk);
                Seq::filter_distributes_over_add(front, back, pk);
                seq![x].lemma_filter_push(x, pk);
                assert(seq![x] == Seq::<ReleaseInfo>::empty().push(x));
                assert(Seq::<ReleaseInfo>::empty().filter(pk) =~= Seq::<ReleaseInfo>::empty()) by {
                    reveal(Seq::filter);
                }
                Seq::<ReleaseInfo>::empty().lemma_filter_push(x, pk);
                if sort_key(x) == k {
                    assert forall|q: int| 0 <= q < back.len() implies !pk(#[trigger] back[q]) by {
                        assert(back[q] == old_out[p + q]);
                        lemma_may_precede_total(old_out[p + q], x);
                    }
                    back.lemma_all_neg_filter_empty(pk);
                    assert(back.filter(pk) =~= Seq::<ReleaseInfo>::empty());
                    assert(front.filter(pk) + back.filter(pk) =~= front.filter(pk));
                    assert(front.filter(pk) + seq![x].filter(pk) == front.filter(pk).push(x));
                } else {
                    assert(seq![x].filter(pk) =~= Seq::<ReleaseInfo>::empty());
                    assert(front.filter(pk) + seq![x].filter(pk) =~= front.filter(pk));
                }
            }
        }
        i = i + 1;
    }
    assert(releases@.take(n as int) == releases@);
    proof {
        lemma_listing_of(out@, releases@);
    }
    out
}

/// The section for `target` (e.g. "x86_64-linux").
pub open spec fn names_platform(target: Seq<char>) -> spec_fn(PlatformEntry) -> bool {
    |p: PlatformEntry| p.name@ == target
}

/// What one index entry offers for `target`: a release when the entry has a
/// section for `target` holding a tarball URL. Its version is the entry's
/// `version` field, or else its key; it is the nightly build when its key
/// is "master".
pub open spec fn release_from_entry(e: IndexEntry, target: Seq<char>) -> Option<ReleaseInfo> {
    match first_match(e.platforms@, names_platform(target)) {
        Some(i) => match e.platforms@[i].tarball {
            Some(url) => Some(
                ReleaseInfo {
                    version: match e.version {
                        Some(v) => v,
                        None => e.key,
                    },
                    tarball_url: url,
                    is_master: e.key@ == "master"@,
                },
            ),
            None => None,
        },
        None => None,
    }
}

pub open spec fn release_for(target: Seq<char>) -> spec_fn(IndexEntry) -> Option<ReleaseInfo> {
    |e: IndexEntry| release_from_entry(e, target)
}

/// The releases that the index offers for `target`, in index order.
pub open spec fn index_releases(entries: Seq<IndexEntry>, target: Seq<char>) -> Seq<ReleaseInfo> {
    entries.filter_map(release_for(target))
}

fn entry_release(e: &IndexEntry, target: &str) -> (r: Option<ReleaseInfo>)
    ensures
        r == release_from_entry(*e, target@),
{
    let n = e.platforms.len();
    let mut i: usize = 0;
    while i < n
        invariant
            n == e.platforms@.len(),
            i <= n,
            forall|j: int| 0 <= j < i ==> !names_platform(target@)(#[trigger] e.platforms@[j]),
        decreases n - i,
    {
        if str_eq(&e.platforms[i].name, target) {
            proof {
                lemma_first_match_at(e.platforms@, names_platform(target@), i as int);
            }
            return match &e.platforms[i].tarball {
                Some(url) => Some(
                    ReleaseInfo {
                        version: match &e.version {
                            Some(v) => v.clone(),
                            None => e.key.clone(),
                        },
                        tarball_url: url.clone(),
                        is_master: str_eq(&e.key, "master"),
                    },
                ),
                None => None,
            };
        }
        i = i + 1;
    }
    proof {
        lemma_first_match_none(e.platforms@, names_platform(target@));
    }
    None
}

/// The releases that the download index offers for `target`, listed with
/// the nightly build first and then by descending version (ties keep index
/// order).
pub fn releases_from_index(entries: &Vec<IndexEntry>, target: &str) -> (r: Vec<ReleaseInfo>)
    ensures
        r@ == listing_of(index_releases(entries@, target@)),
        is_listing_of(r@, index_releases(entries@, target@)),
{
    let mut found: Vec<ReleaseInfo> = Vec::new();
    let n = entries.len();
    let mut i: usize = 0;
    while i < n
        invariant
            n == entries@.len(),
            i <= n,
            found@ == entries@.take(i as int).filter_map(release_for(target@)),
        decreases n - i,
    {
        proof {
            entries@.lemma_filter_map_take_succ(release_for(target@), i as int);
        }
        match entry_release(&entries[i], target) {
            Some(r) => {
                found.push(r);
            },
            None => {},
        }
        assert(found@ =~= entries@.take(i + 1).filter_map(release_for(target@)));
        i = i + 1;
    }
    assert(entries@.take(n as int) == entries@);
    sort_releases(found)
}

/// Why a version label did not resolve to a release.
#[derive(Debug)]
pub enum ResolveError {
    /// Nothing matches; holds the label as the message quotes it.
    NoMatch(String),
    /// The "beta" channel does not exist for Zig.
    BetaChannel,
    /// A nightly alias was asked for and the index has no nightly build.
    NoNightly,
    /// A stable alias was asked for and the index has no stable release.
    NoStable,
}

/// The text shown for each resolution failure.
pub open spec fn resolve_error_text(e: ResolveError) -> Seq<char> {
    match e {
        ResolveError::NoMatch(v) => "No Zig release found matching '"@ + v@ + "'"@,
        ResolveError::BetaChannel => "'beta' channel is not supported for Zig"@,
        ResolveError::NoNightly => "No master/nightly release found"@,
        ResolveError::NoStable => "No stable release found"@,
    }
}

impl ResolveError {
    /// The message that the command line shows for this failure.
    pub fn message(&self) -> (r: String)
        ensures
            r@ == resolve_error_text(*self),
    {
        match self {
            ResolveError::NoMatch(v) => {
                let mut m = String::from_str("No Zig release found matching '");
                m.append(v.as_str());
                m.append("'");
                m
            },
            ResolveError::BetaChannel => String::from_str("'beta' channel is not supported for Zig"),
            ResolveError::NoNightly => String::from_str("No master/nightly release found"),
            ResolveError::NoStable => String::from_str("No stable release found"),
        }
    }
}

/// Labels that name the nightly build.
pub open spec fn nightly_alias(v: Seq<char>) -> bool {
    v == "canary"@ || v == "latest"@ || v == "next"@ || v == "nightly"@ || v == "edge"@
}

/// Labels that name the newest stable release.
pub open spec fn stable_alias(v: Seq<char>) -> bool {
    v == "lts"@ || v == "stable"@ || v == "current"@
}

/// A label written like "v0.13.0", which Zig's index never uses.
pub open spec fn v_prefixed(v: Seq<char>) -> bool {
    v.len() >= 2 && v[0] == 'v' && is_ascii_digit(v[1])
}

pub open spec fn is_nightly() -> spec_fn(ReleaseInfo) -> bool {
    |r: ReleaseInfo| r.is_master
}

pub open spec fn is_stable() -> spec_fn(ReleaseInfo) -> bool {
    |r: ReleaseInfo| !r.is_master
}

/// The release's version is `v`, or `v` is "master" and this is the nightly build.
pub open spec fn named_exactly(v: Seq<char>) -> spec_fn(ReleaseInfo) -> bool {
    |r: ReleaseInfo| r.version@ == v || (r.is_master && v == "master"@)
}

/// A character that ends a version component: the dot before the next
/// number, the `+` before a commit SHA or the `-` before a dev suffix.
pub open spec fn version_boundary(c: char) -> bool {
    c == '.' || c == '+' || c == '-'
}

/// `version` lies in the line that the partial version `v` names: it
/// starts with `v`, and what follows is a new component ("0.13" names
/// "0.13.0" and "0.13.1", not "0.130.0"; "0.14.0-dev.321" names
/// "0.14.0-dev.321+abc1234").
pub open spec fn in_version_line(v: Seq<char>, version: Seq<char>) -> bool {
    &&& v.len() < version.len()
    &&& v.is_prefix_of(version)
    &&& version_boundary(version[v.len() as int])
}

/// The release's version lies in the line that `v` names.
pub open spec fn version_in_line(v: Seq<char>) -> spec_fn(ReleaseInfo) -> bool {
    |r: ReleaseInfo| in_version_line(v, r.version@)
}

/// What a label resolves to among `vs`.
pub enum Resolution {
    /// The release at this position.
    Release(int),
    /// Nothing matches; the label as the message quotes it.
    NoMatch(Seq<char>),
    BetaChannel,
    NoNightly,
    NoStable,
}

/// How a label resolves against a release listing. Surrounding white space
/// is ignored. "v0.13.0"-style labels and "beta" are refused; nightly and
/// stable aliases pick the first nightly or stable release; otherwise the
/// first release named exactly by the label wins, then the first whose
/// version lies in the line the label names (the label followed by `.`,
/// `+` or `-`).
pub open spec fn resolution(label: Seq<char>, vs: Seq<ReleaseInfo>) -> Resolution {
    let v = trimmed(label);
    if v_prefixed(v) {
        Resolution::NoMatch(v)
    } else if v == "beta"@ {
        Resolution::BetaChannel
    } else if nightly_alias(v) {
        match first_match(vs, is_nightly()) {
            Some(i) => Resolution::Release(i),
            None => Resolution::NoNightly,
        }
    } else if stable_alias(v) {
        match first_match(vs, is_stable()) {
            Some(i) => Resolution::Release(i),
            None => Resolution::NoStable,
        }
    } else {
        match first_match(vs, named_exactly(v)) {
            Some(i) => Resolution::Release(i),
            None => match first_match(vs, version_in_line(v)) {
                Some(i) => Resolution::Release(i),
                None => Resolution::NoMatch(label),
            },
        }
    }
}

/// `r` is the result that `outcome` describes.
pub open spec fn delivers(r: Result<ReleaseInfo, ResolveError>, outcome: Resolution, vs: Seq<ReleaseInfo>) -> bool {
    match outcome {
        Resolution::Release(i) => r == Ok::<ReleaseInfo, ResolveError>(vs[i]),
        Resolution::NoMatch(m) => r matches Err(ResolveError::NoMatch(s)) && s@ == m,
        Resolution::BetaChannel => r matches Err(ResolveError::BetaChannel),
        Resolution::NoNightly => r matches Err(ResolveError::NoNightly),
        Resolution::NoStable => r matches Err(ResolveError::NoStable),
    }
}

fn find_nightly(vs: &[ReleaseInfo]) -> (r: Option<usize>)
    ensures
        r == (match first_match(vs@, is_nightly()) {
            Some(i) => Some(i as usize),
            None => None::<usize>,
        }),
        r matches Some(i) ==> i < vs@.len(),
{
    let n = vs.len();
    let mut i: usize = 0;
    while i < n
        invariant
            n == vs@.len(),
            i <= n,
            forall|j: int| 0 <= j < i ==> !is_nightly()(#[trigger] vs@[j]),
        decreases n - i,
    {
        if vs[i].is_master {
            proof {
                lemma_first_match_at(vs@, is_nightly(), i as int);
            }
            return Some(i);
        }
        i = i + 1;
    }
    proof {
        lemma_first_match_none(vs@, is_nightly());
    }
    None
}

fn find_stable(vs: &[ReleaseInfo]) -> (r: Option<usize>)
    ensures
        r == (match first_match(vs@, is_stable()) {
            Some(i) => Some(i as usize),
            None => None::<usize>,
        }),
        r matches Some(i) ==> i < vs@.len(),
{
    let n = vs.len();
    let mut i: usize = 0;
    while i < n
        invariant
            n == vs@.len(),
            i <= n,
            forall|j: int| 0 <= j < i ==> !is_stable()(#[trigger] vs@[j]),
        decreases n - i,
    {
        if !vs[i].is_master {
            proof {
                lemma_first_match_at(vs@, is_stable(), i as int);
            }
            return Some(i);
        }
        i = i + 1;
    }
    proof {
        lemma_first_match_none(vs@, is_stable());
    }
    None
}

fn find_exact(vs: &[ReleaseInfo], v: &str) -> (r: Option<usize>)
    ensures
        r == (match first_match(vs@, named_exactly(v@)) {
            Some(i) => Some(i as usize),
            None => None::<usize>,
        }),
        r matches Some(i) ==> i < vs@.len(),
{
    let n = vs.len();
    let is_master_label = str_eq(v, "master");
    let mut i: usize = 0;
    while i < n
        invariant
            n == vs@.len(),
            i <= n,
            is_master_label == (v@ == "master"@),
            forall|j: int| 0 <= j < i ==> !named_exactly(v@)(#[trigger] vs@[j]),
        decreases n - i,
    {
        if str_eq(&vs[i].version, v) || (vs[i].is_master && is_master_label) {
            proof {
                lemma_first_match_at(vs@, named_exactly(v@), i as int);
            }
            return Some(i);
        }
        i = i + 1;
    }
    proof {
        lemma_first_match_none(vs@, named_exactly(v@));
    }
    None
}

fn find_prefixed(vs: &[ReleaseInfo], v: &str) -> (r: Option<usize>)
    ensures
        r == (match first_match(vs@, version_in_line(v@)) {
            Some(i) => Some(i as usize),
            None => None::<usize>,
        }),
        r matches Some(i) ==> i < vs@.len(),
{
    let n = vs.len();
    let m = v.unicode_len();
    let mut i: usize = 0;
    while i < n
        invariant
            n == vs@.len(),
            m == v@.len(),
            i <= n,
            forall|j: int| 0 <= j < i ==> !version_in_line(v@)(#[trigger] vs@[j]),
        decreases n - i,
    {
        let ver = vs[i].version.as_str();
        if m < ver.unicode_len() && has_prefix(ver, v) {
            let c = ver.get_char(m);
            if c == '.' || c == '+' || c == '-' {
                proof {
                    lemma_first_match_at(vs@, version_in_line(v@), i as int);
                }
                return Some(i);
            }
        }
        i = i + 1;
    }
    proof {
        lemma_first_match_none(vs@, version_in_line(v@));
    }
    None
}

fn is_nightly_alias(v: &str) -> (r: bool)
    ensures
        r == nightly_alias(v@),
{
    str_eq(v, "canary") || str_eq(v, "latest") || str_eq(v, "next") || str_eq(v, "nightly")
        || str_eq(v, "edge")
}

fn is_stable_alias(v: &str) -> (r: bool)
    ensures
        r == stable_alias(v@),
{
    str_eq(v, "lts") || str_eq(v, "stable") || str_eq(v, "current")
}

/// Resolves a version label against a release listing (see `resolution`).
pub fn resolve_from(version_str: &str, versions: &[ReleaseInfo]) -> (r: Result<ReleaseInfo, ResolveError>)
    ensures
        delivers(r, resolution(version_str@, versions@), versions@),
{
    let v = trim(version_str);
    if v.unicode_len() >= 2 && v.get_char(0) == 'v' && is_digit(v.get_char(1)) {
        return Err(ResolveError::NoMatch(String::from_str(v)));
    }
    if str_eq(v, "beta") {
        return Err(ResolveError::BetaChannel);
    }
    if is_nightly_alias(v) {
        return match find_nightly(versions) {
            Some(i) => Ok(copy_release(&versions[i])),
            None => Err(ResolveError::NoNightly),
        };
    }
    if is_stable_alias(v) {
        return match find_stable(versions) {
            Some(i) => Ok(copy_release(&versions[i])),
            None => Err(ResolveError::NoStable),
        };
    }
    match find_exact(versions, v) {
        Some(i) => Ok(copy_release(&versions[i])),
        None => match find_prefixed(versions, v) {
            Some(i) => Ok(copy_release(&versions[i])),
            None => Err(ResolveError::NoMatch(String::from_str(version_str))),
        },
    }
}

/// Resolves a version label against the download index: the index's
/// releases for `target`, in listing order, are searched as `resolve_from`
/// does.
pub fn resolve(version_str: &str, index: &Vec<IndexEntry>, target: &str) -> (r: Result<ReleaseInfo, ResolveError>)
    ensures
        delivers(
            r,
            resolution(version_str@, listing_of(index_releases(index@, target@))),
            listing_of(index_releases(index@, target@)),
        ),
{
    let versions = releases_from_index(index, target);
    resolve_from(version_str, versions.as_slice())
}

/// The special labels exclude one another.
proof fn lemma_label_kinds(v: Seq<char>)
    ensures
        stable_alias(v) ==> !v_prefixed(v) && v != "beta"@ && !nightly_alias(v),
        nightly_alias(v) ==> !v_prefixed(v) && v != "beta"@,
{
    reveal_strlit("lts");
    reveal_strlit("stable");
    reveal_strlit("current");
    reveal_strlit("beta");
    reveal_strlit("canary");
    reveal_strlit("latest");
    reveal_strlit("next");
    reveal_strlit("nightly");
    reveal_strlit("edge");
    if v_prefixed(v) {
        assert(v[0] == 'v');
    }
}

/// In a listing, a stable alias ("lts", "stable", "current") resolves to a
/// stable release whose version is at least that of every other stable
/// release, and fails only when the listing has no stable release.
pub proof fn stable_alias_picks_newest(label: Seq<char>, vs: Seq<ReleaseInfo>)
    requires
        in_listing_order(vs),
        stable_alias(trimmed(label)),
    ensures
        match resolution(label, vs) {
            Resolution::Release(i) => {
                &&& 0 <= i < vs.len()
                &&& !vs[i].is_master
                &&& forall|j: int|
                    0 <= j < vs.len() && !(#[trigger] vs[j]).is_master ==> semver_ge(
                        semver_of(vs[i].version@),
                        semver_of(vs[j].version@),
                    )
            },
            Resolution::NoStable => forall|j: int| 0 <= j < vs.len() ==> (#[trigger] vs[j]).is_master,
            _ => false,
        },
{
    let v = trimmed(label);
    lemma_label_kinds(v);
    match first_match(vs, is_stable()) {
        Some(i) => {
            assert(is_first_match(vs, is_stable(), i));
            assert forall|j: int| 0 <= j < vs.len() && !(#[trigger] vs[j]).is_master implies semver_ge(
                semver_of(vs[i].version@),
                semver_of(vs[j].version@),
            ) by {
                if j < i {
                    assert(!is_stable()(vs[j]));
                } else if i < j {
                    assert(may_precede(vs[i], vs[j]));
                }
            }
        },
        None => {
            assert forall|j: int| 0 <= j < vs.len() implies (#[trigger] vs[j]).is_master by {
                if !vs[j].is_master {
                    lemma_first_match_exists(vs, is_stable(), j);
                }
            }
        },
    }
}

/// In listing order every nightly build comes before every stable release.
pub proof fn listing_puts_nightly_first(vs: Seq<ReleaseInfo>, i: int, j: int)
    requires
        in_listing_order(vs),
        0 <= i < j < vs.len(),
        vs[j].is_master,
    ensures
        vs[i].is_master,
{
    assert(may_precede(vs[i], vs[j]));
}

/// In a listing, a nightly alias ("latest", "canary", "next", "nightly",
/// "edge") resolves to the first release when it is the nightly build, and
/// fails only when the listing has no nightly build.
pub proof fn nightly_alias_picks_first(label: Seq<char>, vs: Seq<ReleaseInfo>)
    requires
        in_listing_order(vs),
        nightly_alias(trimmed(label)),
    ensures
        resolution(label, vs) == (if vs.len() > 0 && vs[0].is_master {
            Resolution::Release(0)
        } else {
            Resolution::NoNightly
        }),
{
    let v = trimmed(label);
    lemma_label_kinds(v);
    if vs.len() > 0 && vs[0].is_master {
        lemma_first_match_at(vs, is_nightly(), 0);
    } else {
        assert forall|j: int| 0 <= j < vs.len() implies !is_nightly()(#[trigger] vs[j]) by {
            if vs[j].is_master && j > 0 {
                listing_puts_nightly_first(vs, 0, j);
            }
        }
        lemma_first_match_none(vs, is_nightly());
    }
}

/// A label that names a release exactly wins over releases it only prefixes.
pub proof fn exact_match_wins(label: Seq<char>, vs: Seq<ReleaseInfo>, i: int)
    requires
        !v_prefixed(trimmed(label)),
        trimmed(label) != "beta"@,
        !nightly_alias(trimmed(label)),
        !stable_alias(trimmed(label)),
        is_first_match(vs, named_exactly(trimmed(label)), i),
    ensures
        resolution(label, vs) == Resolution::Release(i),
{
    lemma_first_match_at(vs, named_exactly(trimmed(label)), i);
}

/// "latest" is the same as "master": in a listing that has a nightly build,
/// both labels resolve to it (it is listed first).
pub proof fn latest_same_as_master(master_label: Seq<char>, latest_label: Seq<char>, vs: Seq<ReleaseInfo>, j: int)
    requires
        in_listing_order(vs),
        trimmed(master_label) == "master"@,
        trimmed(latest_label) == "latest"@,
        0 <= j < vs.len(),
        vs[j].is_master,
    ensures
        resolution(master_label, vs) == Resolution::Release(0),
        resolution(latest_label, vs) == Resolution::Release(0),
{
    if j > 0 {
        listing_puts_nightly_first(vs, 0, j);
    }
    nightly_alias_picks_first(latest_label, vs);
    assert(!v_prefixed("master"@) && "master"@ != "beta"@ && !nightly_alias("master"@)
        && !stable_alias("master"@)) by {
        reveal_strlit("master");
        reveal_strlit("beta");
        reveal_strlit("canary");
        reveal_strlit("latest");
        reveal_strlit("next");
        reveal_strlit("nightly");
        reveal_strlit("edge");
        reveal_strlit("lts");
        reveal_strlit("stable");
        reveal_strlit("current");
    }
    lemma_first_match_at(vs, named_exactly("master"@), 0);
}

/// A partial version such as "0.13" picks the latest patch in its line: in a
/// listing, when no release is named exactly by the label, the release it
/// resolves to lies in the line the label names (the label followed by
/// `.`, `+` or `-`), and
/// if it is a stable release no other stable release in that line is newer;
/// a nightly build is picked only when it lies in that line. When nothing
/// lies in the line, resolution fails.
pub proof fn version_prefix_picks_newest(label: Seq<char>, vs: Seq<ReleaseInfo>)
    requires
        in_listing_order(vs),
        !v_prefixed(trimmed(label)),
        trimmed(label) != "beta"@,
        !nightly_alias(trimmed(label)),
        !stable_alias(trimmed(label)),
        forall|j: int| 0 <= j < vs.len() ==> !named_exactly(trimmed(label))(#[trigger] vs[j]),
    ensures
        match resolution(label, vs) {
            Resolution::Release(i) => {
                &&& 0 <= i < vs.len()
                &&& in_version_line(trimmed(label), vs[i].version@)
                &&& !vs[i].is_master ==> forall|j: int|
                    0 <= j < vs.len() && !(#[trigger] vs[j]).is_master && in_version_line(trimmed(label), vs[j].version@)
                        ==> semver_ge(semver_of(vs[i].version@), semver_of(vs[j].version@))
            },
            Resolution::NoMatch(m) => m == label && forall|j: int|
                0 <= j < vs.len() ==> !in_version_line(trimmed(label), (#[trigger] vs[j]).version@),
            _ => false,
        },
{
    let v = trimmed(label);
    lemma_first_match_none(vs, named_exactly(v));
    match first_match(vs, version_in_line(v)) {
        Some(i) => {
            assert(is_first_match(vs, version_in_line(v), i));
            if !vs[i].is_master {
                assert forall|j: int|
                    0 <= j < vs.len() && !(#[trigger] vs[j]).is_master && in_version_line(v, vs[j].version@)
                        implies semver_ge(semver_of(vs[i].version@), semver_of(vs[j].version@)) by {
                    if j < i {
                        assert(!version_in_line(v)(vs[j]));
                    } else if i < j {
                        assert(may_precede(vs[i], vs[j]));
                    }
                }
            }
        },
        None => {
            assert forall|j: int| 0 <= j < vs.len() implies !in_version_line(v, (#[trigger] vs[j]).version@) by {
                if in_version_line(v, vs[j].version@) {
                    lemma_first_match_exists(vs, version_in_line(v), j);
                }
            }
        },
    }
}

/// A release offered by an index entry comes from the entry's section named
/// exactly by the target: its tarball is that section's, its version is the
/// entry's `version` field (else its key), and it is the nightly build
/// exactly when the key is "master".
pub proof fn release_comes_from_target_section(e: IndexEntry, target: Seq<char>)
    ensures
        release_from_entry(e, target) matches Some(r) ==> {
            &&& exists|i: int|
                0 <= i < e.platforms@.len() && (#[trigger] e.platforms@[i]).name@ == target
                    && e.platforms@[i].tarball == Some(r.tarball_url)
            &&& r.version == (match e.version {
                Some(v) => v,
                None => e.key,
            })
            &&& r.is_master == (e.key@ == "master"@)
        },
{
    match first_match(e.platforms@, names_platform(target)) {
        Some(i) => {
            assert(is_first_match(e.platforms@, names_platform(target), i));
        },
        None => {},
    }
}

/// An index entry offers a release for the target exactly when its first
/// section named by the target holds a tarball, and that tarball is the one
/// offered; sections for other targets (the same architecture on another
/// OS, say) are never taken.
pub proof fn target_section_decides_release(e: IndexEntry, target: Seq<char>, i: int)
    requires
        0 <= i < e.platforms@.len(),
        e.platforms@[i].name@ == target,
        forall|j: int| 0 <= j < i ==> (#[trigger] e.platforms@[j]).name@ != target,
    ensures
        match e.platforms@[i].tarball {
            Some(url) => release_from_entry(e, target) matches Some(r) && r.tarball_url == url,
            None => release_from_entry(e, target) is None,
        },
{
    assert forall|j: int| 0 <= j < i implies !names_platform(target)(#[trigger] e.platforms@[j]) by {
        assert(e.platforms@[j].name@ != target);
    }
    lemma_first_match_at(e.platforms@, names_platform(target), i);
}

/// An entry with no section named by the target offers no release.
pub proof fn no_target_section_no_release(e: IndexEntry, target: Seq<char>)
    requires
        forall|j: int| 0 <= j < e.platforms@.len() ==> (#[trigger] e.platforms@[j]).name@ != target,
    ensures
        release_from_entry(e, target) is None,
{
    assert forall|j: int| 0 <= j < e.platforms@.len() implies !names_platform(target)(#[trigger] e.platforms@[j]) by {
        assert(e.platforms@[j].name@ != target);
    }
    lemma_first_match_none(e.platforms@, names_platform(target));
}

} // verus!

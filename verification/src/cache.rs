//! The version cache: how cache keys ("0.13.0", "0.14.0+abc1234de") are
//! matched against what the user asked for, which cached entry is picked,
//! how cached versions are listed and what pruning removes.

use vstd::prelude::*;
use vstd::string::*;
use crate::text::{split_once, split_once_char, has_prefix, str_eq};

verus! {

/// The part of a cache key after its first `+` (the commit SHA), if any.
pub open spec fn key_sha(key: Seq<char>) -> Option<Seq<char>> {
    match split_once(key, '+') {
        Some((_, sha)) => Some(sha),
        None => None,
    }
}

/// Fuzzy SHA equality: one of the two is a prefix of the other, so a short
/// stored SHA matches a long one given by the user and the other way round.
pub open spec fn shas_match(a: Seq<char>, b: Seq<char>) -> bool {
    b.is_prefix_of(a) || a.is_prefix_of(b)
}

/// SHA matching is symmetric and reflexive: the stored and the given SHA
/// can be swapped, and a SHA matches itself.
pub proof fn sha_matching_symmetric(a: Seq<char>, b: Seq<char>)
    ensures
        shas_match(a, b) == shas_match(b, a),
        shas_match(a, a),
{
    assert(a =~= a.subrange(0, a.len() as int));
}

/// Returns `true` if `a` is a prefix of `b` or `b` is a prefix of `a`.
pub fn sha_matches(a: &str, b: &str) -> (r: bool)
    ensures
        r == shas_match(a@, b@),
{
    has_prefix(a, b) || has_prefix(b, a)
}

/// Returns the SHA portion of a cache key (the part after the first `+`), if any.
pub fn cache_key_sha(key: &str) -> (r: Option<&str>)
    ensures
        r matches Some(t) ==> key_sha(key@) == Some(t@),
        r is None ==> key_sha(key@) is None,
{
    match split_once_char(key, '+') {
        Some((_, sha)) => Some(sha),
        None => None,
    }
}

/// One entry of the cache directory, as the cache logic reads it.
#[derive(Debug)]
pub struct CacheEntry {
    /// The entry's file name, when it is valid Unicode.
    pub name: Option<String>,
    /// The entry is a directory.
    pub is_dir: bool,
    /// A zig binary exists inside the entry.
    pub has_binary: bool,
    /// Last modification time in nanoseconds from the Unix epoch (the epoch
    /// itself when the time cannot be read).
    pub modified: i128,
}

/// A cache key that a version prefix selects: the prefix itself, the
/// prefix with a SHA ("0.13.0+abc…"), or a longer version ("0.13" selects
/// "0.13.0").
pub open spec fn key_has_version_prefix(name: Seq<char>, prefix: Seq<char>) -> bool {
    name == prefix || (prefix + seq!['+']).is_prefix_of(name) || (prefix + seq!['.']).is_prefix_of(name)
}

/// A usable cache entry (a directory with a Unicode name and a zig binary)
/// whose key `prefix` selects.
pub open spec fn selected_by_prefix(prefix: Seq<char>) -> spec_fn(CacheEntry) -> bool {
    |e: CacheEntry| e.is_dir && e.has_binary && e.name is Some && key_has_version_prefix(e.name->0@, prefix)
}

/// A usable cache entry whose key carries a SHA that fuzzily matches `sha`.
pub open spec fn selected_by_sha(sha: Seq<char>) -> spec_fn(CacheEntry) -> bool {
    |e: CacheEntry|
        e.is_dir && e.has_binary && e.name is Some && match key_sha(e.name->0@) {
            Some(stored) => shas_match(stored, sha),
            None => false,
        }
}

/// Entry `i` satisfies `p` and is the most recently modified such entry;
/// among equally recent ones it comes first.
pub open spec fn is_newest_match(es: Seq<CacheEntry>, p: spec_fn(CacheEntry) -> bool, i: int) -> bool {
    &&& 0 <= i < es.len()
    &&& p(es[i])
    &&& forall|j: int| 0 <= j < es.len() && p(#[trigger] es[j]) ==> es[j].modified <= es[i].modified
    &&& forall|j: int| 0 <= j < i && p(#[trigger] es[j]) ==> es[j].modified < es[i].modified
}

/// The position of the most recently modified entry satisfying `p`.
pub open spec fn newest_match(es: Seq<CacheEntry>, p: spec_fn(CacheEntry) -> bool) -> Option<int> {
    if exists|i: int| is_newest_match(es, p, i) {
        Some(choose|i: int| is_newest_match(es, p, i))
    } else {
        None
    }
}

/// The key of the most recently modified entry satisfying `p`, if any.
pub open spec fn newest_key(es: Seq<CacheEntry>, p: spec_fn(CacheEntry) -> bool) -> Option<String> {
    match newest_match(es, p) {
        Some(i) => es[i].name,
        None => None,
    }
}

proof fn lemma_newest_match_at(es: Seq<CacheEntry>, p: spec_fn(CacheEntry) -> bool, i: int)
    requires
        is_newest_match(es, p, i),
    ensures
        newest_match(es, p) == Some(i),
{
    let k = choose|k: int| is_newest_match(es, p, k);
    assert(is_newest_match(es, p, k));
    if k < i {
        assert(es[k].modified < es[i].modified);
    } else if i < k {
        assert(es[i].modified < es[k].modified);
    }
}

proof fn lemma_newest_match_none(es: Seq<CacheEntry>, p: spec_fn(CacheEntry) -> bool)
    requires
        forall|j: int| 0 <= j < es.len() ==> !p(#[trigger] es[j]),
    ensures
        newest_match(es, p) is None,
{
    if exists|i: int| is_newest_match(es, p, i) {
        let k = choose|i: int| is_newest_match(es, p, i);
        assert(p(es[k]));
    }
}

/// The entry that a lookup picks satisfies the lookup, and no entry that
/// satisfies it was modified later; an entry picked among equally recent
/// ones comes first.
pub proof fn newest_match_is_most_recent(es: Seq<CacheEntry>, p: spec_fn(CacheEntry) -> bool)
    ensures
        match newest_match(es, p) {
            Some(i) => is_newest_match(es, p, i),
            None => forall|j: int| 0 <= j < es.len() ==> !p(#[trigger] es[j]),
        },
{
    if newest_match(es, p) is None {
        assert forall|j: int| 0 <= j < es.len() implies !p(#[trigger] es[j]) by {
            if p(es[j]) {
                lemma_newest_exists(es, p, j);
            }
        }
    }
}

proof fn lemma_newest_exists(es: Seq<CacheEntry>, p: spec_fn(CacheEntry) -> bool, j: int)
    requires
        0 <= j < es.len(),
        p(es[j]),
    ensures
        newest_match(es, p) is Some,
    decreases es.len() - j,
{
    if forall|k: int| 0 <= k < es.len() && p(#[trigger] es[k]) ==> es[k].modified <= es[j].modified {
        lemma_newest_first(es, p, j);
    } else {
        let k = choose|k: int| 0 <= k < es.len() && p(#[trigger] es[k]) && es[k].modified > es[j].modified;
        lemma_newest_exists_above(es, p, k, es[j].modified);
    }
}

proof fn lemma_newest_exists_above(es: Seq<CacheEntry>, p: spec_fn(CacheEntry) -> bool, j: int, floor: i128)
    requires
        0 <= j < es.len(),
        p(es[j]),
        es[j].modified > floor,
    ensures
        newest_match(es, p) is Some,
    decreases i128::MAX - floor,
{
    if forall|k: int| 0 <= k < es.len() && p(#[trigger] es[k]) ==> es[k].modified <= es[j].modified {
        lemma_newest_first(es, p, j);
    } else {
        let k = choose|k: int| 0 <= k < es.len() && p(#[trigger] es[k]) && es[k].modified > es[j].modified;
        lemma_newest_exists_above(es, p, k, es[j].modified);
    }
}

/// Given an entry `j` as recent as any satisfying entry, the first entry
/// with that time is the newest match.
proof fn lemma_newest_first(es: Seq<CacheEntry>, p: spec_fn(CacheEntry) -> bool, j: int)
    requires
        0 <= j < es.len(),
        p(es[j]),
        forall|k: int| 0 <= k < es.len() && p(#[trigger] es[k]) ==> es[k].modified <= es[j].modified,
    ensures
        newest_match(es, p) is Some,
    decreases j,
{
    if forall|k: int| 0 <= k < j && p(#[trigger] es[k]) ==> es[k].modified < es[j].modified {
        assert(is_newest_match(es, p, j));
    } else {
        let k = choose|k: int| 0 <= k < j && p(#[trigger] es[k]) && es[k].modified >= es[j].modified;
        lemma_newest_first(es, p, k);
    }
}

fn copy_name(n: &Option<String>) -> (r: Option<String>)
    ensures
        r == *n,
{
    match n {
        Some(s) => Some(s.clone()),
        None => None,
    }
}

/// The key of the newest entry among those flagged.
fn newest_flagged(es: &[CacheEntry], flags: &Vec<bool>, Ghost(p): Ghost<spec_fn(CacheEntry) -> bool>) -> (r: Option<String>)
    requires
        flags@.len() == es@.len(),
        forall|i: int| 0 <= i < es@.len() ==> flags@[i] == p(#[trigger] es@[i]),
    ensures
        r == newest_key(es@, p),
{
    let n = es.len();
    let mut best: Option<usize> = None;
    let mut i: usize = 0;
    while i < n
        invariant
            n == es@.len(),
            flags@.len() == n,
            forall|k: int| 0 <= k < es@.len() ==> flags@[k] == p(#[trigger] es@[k]),
            i <= n,
            match best {
                Some(b) => is_newest_match(es@.take(i as int), p, b as int),
                None => forall|j: int| 0 <= j < i ==> !p(#[trigger] es@[j]),
            },
        decreases n - i,
    {
        if flags[i] {
            let newer = match best {
                Some(b) => es[i].modified > es[b].modified,
                None => true,
            };
            if newer {
                best = Some(i);
            }
        }
        proof {
            let t = es@.take(i + 1);
            match best {
                Some(b) => {
                    assert forall|j: int| 0 <= j < t.len() && p(#[trigger] t[j]) implies t[j].modified <= t[b as int].modified by {
                        if j < i {
                            assert(es@.take(i as int)[j] == t[j]);
                        }
                    }
                    assert forall|j: int| 0 <= j < b && p(#[trigger] t[j]) implies t[j].modified < t[b as int].modified by {
                        assert(es@.take(i as int)[j] == t[j]);
                    }
                },
                None => {},
            }
        }
        i = i + 1;
    }
    assert(es@.take(n as int) == es@);
    match best {
        Some(b) => {
            proof {
                lemma_newest_match_at(es@, p, b as int);
            }
            copy_name(&es[b].name)
        },
        None => {
            proof {
                lemma_newest_match_none(es@, p);
            }
            None
        },
    }
}

fn prefix_selects(e: &CacheEntry, prefix: &str) -> (r: bool)
    ensures
        r == selected_by_prefix(prefix@)(*e),
{
    if !e.is_dir || !e.has_binary {
        return false;
    }
    match &e.name {
        Some(name) => {
            let mut with_plus = String::from_str(prefix);
            with_plus.append("+");
            let mut with_dot = String::from_str(prefix);
            with_dot.append(".");
            proof {
                reveal_strlit("+");
                reveal_strlit(".");
                assert(with_plus@ =~= prefix@ + seq!['+']);
                assert(with_dot@ =~= prefix@ + seq!['.']);
            }
            str_eq(name, prefix) || has_prefix(name, with_plus.as_str()) || has_prefix(name, with_dot.as_str())
        },
        None => false,
    }
}

fn sha_selects(e: &CacheEntry, sha: &str) -> (r: bool)
    ensures
        r == selected_by_sha(sha@)(*e),
{
    if !e.is_dir || !e.has_binary {
        return false;
    }
    match &e.name {
        Some(name) => match cache_key_sha(name.as_str()) {
            Some(stored) => sha_matches(stored, sha),
            None => false,
        },
        None => false,
    }
}

/// Finds a cached version matching the given version prefix: a usable
/// entry whose key equals `prefix`, starts with `"{prefix}+"` (exact
/// version with SHA) or starts with `"{prefix}."` (partial version, e.g.
/// "0.13" matches "0.13.0"). If several match, the most recently modified
/// is returned.
pub fn find_by_version_prefix(prefix: &str, entries: &[CacheEntry]) -> (r: Option<String>)
    ensures
        r == newest_key(entries@, selected_by_prefix(prefix@)),
{
    let mut flags: Vec<bool> = Vec::new();
    let n = entries.len();
    let mut i: usize = 0;
    while i < n
        invariant
            n == entries@.len(),
            i <= n,
            flags@.len() == i,
            forall|k: int| 0 <= k < i ==> flags@[k] == selected_by_prefix(prefix@)(#[trigger] entries@[k]),
        decreases n - i,
    {
        flags.push(prefix_selects(&entries[i], prefix));
        i = i + 1;
    }
    newest_flagged(entries, &flags, Ghost(selected_by_prefix(prefix@)))
}

/// Finds a cached version whose SHA (the part of its key after `+`)
/// fuzzily matches `sha`. If several match, the most recently modified is
/// returned.
pub fn find_by_sha(sha: &str, entries: &[CacheEntry]) -> (r: Option<String>)
    ensures
        r == newest_key(entries@, selected_by_sha(sha@)),
{
    let mut flags: Vec<bool> = Vec::new();
    let n = entries.len();
    let mut i: usize = 0;
    while i < n
        invariant
            n == entries@.len(),
            i <= n,
            flags@.len() == i,
            forall|k: int| 0 <= k < i ==> flags@[k] == selected_by_sha(sha@)(#[trigger] entries@[k]),
        decreases n - i,
    {
        flags.push(sha_selects(&entries[i], sha));
        i = i + 1;
    }
    newest_flagged(entries, &flags, Ghost(selected_by_sha(sha@)))
}

/// Lexicographic `a <= b`, comparing characters by code point. This is the
/// order of `str`'s `Ord`, which compares UTF-8 bytes: UTF-8 orders
/// characters as their code points are ordered.
pub open spec fn lex_le(a: Seq<char>, b: Seq<char>) -> bool
    decreases a.len(),
{
    if a.len() == 0 {
        true
    } else if b.len() == 0 {
        false
    } else if a[0] != b[0] {
        a[0] < b[0]
    } else {
        lex_le(a.drop_first(), b.drop_first())
    }
}

proof fn lemma_lex_total(a: Seq<char>, b: Seq<char>)
    ensures
        lex_le(a, b) || lex_le(b, a),
    decreases a.len(),
{
    if a.len() > 0 && b.len() > 0 && a[0] == b[0] {
        lemma_lex_total(a.drop_first(), b.drop_first());
    }
}

proof fn lemma_lex_trans(a: Seq<char>, b: Seq<char>, c: Seq<char>)
    requires
        lex_le(a, b),
        lex_le(b, c),
    ensures
        lex_le(a, c),
    decreases a.len(),
{
    if a.len() > 0 && b.len() > 0 && c.len() > 0 && a[0] == b[0] && b[0] == c[0] {
        lemma_lex_trans(a.drop_first(), b.drop_first(), c.drop_first());
    }
}

/// Whether `a` sorts no later than `b`.
fn str_le(a: &str, b: &str) -> (r: bool)
    ensures
        r == lex_le(a@, b@),
{
    let n = a.unicode_len();
    let m = b.unicode_len();
    let mut i: usize = 0;
    assert(a@.skip(0) =~= a@);
    assert(b@.skip(0) =~= b@);
    while i < n && i < m && a.get_char(i) == b.get_char(i)
        invariant
            n == a@.len(),
            m == b@.len(),
            i <= n,
            i <= m,
            lex_le(a@, b@) == lex_le(a@.skip(i as int), b@.skip(i as int)),
        decreases n - i,
    {
        proof {
            let sa = a@.skip(i as int);
            let sb = b@.skip(i as int);
            assert(sa.drop_first() =~= a@.skip(i + 1));
            assert(sb.drop_first() =~= b@.skip(i + 1));
        }
        i = i + 1;
    }
    if i == n {
        true
    } else if i == m {
        false
    } else {
        a.get_char(i) < b.get_char(i)
    }
}

/// The name under which an entry is listed: directories with a non-empty
/// name (a name that is not valid Unicode counts as empty).
pub open spec fn listed_name(e: CacheEntry) -> Option<String> {
    if e.is_dir && e.name is Some && e.name->0@.len() > 0 {
        e.name
    } else {
        None
    }
}

pub open spec fn lists_name() -> spec_fn(CacheEntry) -> Option<String> {
    |e: CacheEntry| listed_name(e)
}

/// Newest-looking first: each name sorts no earlier than the names after it.
pub open spec fn sorted_descending(s: Seq<String>) -> bool {
    forall|i: int, j: int| 0 <= i < j < s.len() ==> lex_le(s[j]@, s[i]@)
}

/// Returns the names of all cached versions (directories), sorted in
/// descending order.
pub fn cached_versions(entries: &[CacheEntry]) -> (r: Vec<String>)
    ensures
        sorted_descending(r@),
        r@.to_multiset() == entries@.filter_map(lists_name()).to_multiset(),
{
    broadcast use vstd::seq_lib::group_to_multiset_ensures;
    let mut out: Vec<String> = Vec::new();
    let n = entries.len();
    let mut i: usize = 0;
    while i < n
        invariant
            n == entries@.len(),
            i <= n,
            sorted_descending(out@),
            out@.to_multiset() == entries@.take(i as int).filter_map(lists_name()).to_multiset(),
        decreases n - i,
    {
        proof {
            entries@.lemma_filter_map_take_succ(lists_name(), i as int);
        }
        let e = &entries[i];
        let mut picked: Option<String> = None;
        if e.is_dir {
            match &e.name {
                Some(name) => {
                    if name.unicode_len() > 0 {
                        picked = Some(name.clone());
                    }
                },
                None => {},
            }
        }
        assert(picked == listed_name(entries@[i as int]));
        match picked {
            Some(x) => {
                let m = out.len();
                let mut p: usize = 0;
                while p < m && str_le(x.as_str(), out[p].as_str())
                    invariant
                        m == out@.len(),
                        p <= m,
                        forall|q: int| 0 <= q < p ==> lex_le(x@, (#[trigger] out@[q])@),
                    decreases m - p,
                {
                    p = p + 1;
                }
                let ghost old_out = out@;
                proof {
                    assert forall|q: int| p <= q < m implies lex_le((#[trigger] old_out[q])@, x@) by {
                        lemma_lex_total(x@, old_out[p as int]@);
                        if q > p {
                            lemma_lex_trans(old_out[q]@, old_out[p as int]@, x@);
                        }
                    }
                }
                out.insert(p, x);
                proof {
                    let new_out = out@;
                    old_out.insert_ensures(p as int, x);
                    assert forall|a: int, b: int| 0 <= a < b < new_out.len() implies lex_le(new_out[b]@, new_out[a]@) by {
                        if a < p && b > p {
                            assert(new_out[b] == old_out[b - 1]);
                            lemma_lex_trans(old_out[b - 1]@, x@, old_out[a]@);
                        } else if a == p {
                            assert(new_out[b] == old_out[b - 1]);
                        } else if a > p {
                            assert(new_out[a] == old_out[a - 1]);
                            assert(new_out[b] == old_out[b - 1]);
                        }
                    }
                    vstd::seq_lib::to_multiset_insert(old_out, p as int, x);
                    let prev = entries@.take(i as int).filter_map(lists_name());
                    assert(entries@.take(i + 1).filter_map(lists_name()) =~= prev.push(x));
                    vstd::seq_lib::to_multiset_build(prev, x);
                }
            },
            None => {
                assert(entries@.take(i + 1).filter_map(lists_name()) =~= entries@.take(i as int).filter_map(lists_name()));
            },
        }
        i = i + 1;
    }
    assert(entries@.take(n as int) == entries@);
    out
}

/// What pruning does with one cache entry.
#[derive(Debug, Clone, Copy, PartialEq, Eq, Structural)]
pub enum PruneStep {
    /// Kept because it is the active version ("Skipped ... (active)").
    KeepActive,
    /// Removed with everything inside it.
    Remove,
    /// Left alone: not a directory.
    Leave,
}

/// What pruning does with an entry: without `force` the entry named as the
/// active version is kept; every other directory is removed; anything else
/// is left. A name that is not valid Unicode counts as empty.
pub open spec fn prune_step(e: CacheEntry, active: Option<String>, force: bool) -> PruneStep {
    let name = match e.name {
        Some(n) => n@,
        None => Seq::<char>::empty(),
    };
    if !force && active is Some && active->0@ == name {
        PruneStep::KeepActive
    } else if e.is_dir {
        PruneStep::Remove
    } else {
        PruneStep::Leave
    }
}

/// Decides, entry by entry, what pruning the cache does (see `prune_step`).
/// With `force` the active version is removed too.
pub fn prune_plan(entries: &[CacheEntry], active: &Option<String>, force: bool) -> (r: Vec<PruneStep>)
    ensures
        r@.len() == entries@.len(),
        forall|i: int| 0 <= i < entries@.len() ==> r@[i] == prune_step(#[trigger] entries@[i], *active, force),
{
    let mut out: Vec<PruneStep> = Vec::new();
    let n = entries.len();
    let mut i: usize = 0;
    while i < n
        invariant
            n == entries@.len(),
            i <= n,
            out@.len() == i,
            forall|j: int| 0 <= j < i ==> out@[j] == prune_step(#[trigger] entries@[j], *active, force),
        decreases n - i,
    {
        let e = &entries[i];
        let is_active = match active {
            Some(a) => match &e.name {
                Some(name) => str_eq(a.as_str(), name.as_str()),
                None => {
                    assert(a@.len() == 0 ==> a@ =~= Seq::<char>::empty());
                    a.unicode_len() == 0
                },
            },
            None => false,
        };
        let step = if !force && is_active {
            PruneStep::KeepActive
        } else if e.is_dir {
            PruneStep::Remove
        } else {
            PruneStep::Leave
        };
        out.push(step);
        i = i + 1;
    }
    out
}

/// Without `force`, pruning never removes the active version.
pub proof fn prune_keeps_active(e: CacheEntry, active: String)
    requires
        e.name is Some,
        e.name->0@ == active@,
    ensures
        prune_step(e, Some(active), false) == PruneStep::KeepActive,
{
}

/// With `force`, pruning removes every directory, the active version's too.
pub proof fn prune_force_removes_all(e: CacheEntry, active: Option<String>)
    requires
        e.is_dir,
    ensures
        prune_step(e, active, true) == PruneStep::Remove,
{
}

/// Pruning never removes anything that is not a directory.
pub proof fn prune_removes_only_directories(e: CacheEntry, active: Option<String>, force: bool)
    requires
        !e.is_dir,
    ensures
        prune_step(e, active, force) != PruneStep::Remove,
{
}

/// Without `force`, pruning removes every cached version except the active
/// one: each directory whose name is not the active version is removed,
/// whatever its name sorts before or after.
pub proof fn prune_removes_every_inactive_version(e: CacheEntry, active: Option<String>)
    requires
        e.is_dir,
        e.name is Some,
        match active {
            Some(a) => a@ != e.name->0@,
            None => true,
        },
    ensures
        prune_step(e, active, false) == PruneStep::Remove,
{
}

/// The only entry pruning ever keeps is the one named as the active
/// version, and only without `force`.
pub proof fn prune_keeps_only_the_active_version(e: CacheEntry, active: Option<String>, force: bool)
    requires
        prune_step(e, active, force) == PruneStep::KeepActive,
    ensures
        !force,
        active is Some,
        match e.name {
            Some(n) => n@ == active->0@,
            None => active->0@.len() == 0,
        },
{
}

} // verus!

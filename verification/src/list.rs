//! The lines and menu items shown for cached and remote versions.

use vstd::prelude::*;
use vstd::string::*;
use crate::releases::ReleaseInfo;
use crate::text::{concat, first_match, lemma_first_match_at, lemma_first_match_none, str_eq};

verus! {

/// `v` is the active version.
pub open spec fn is_active(v: Seq<char>, active: Option<&str>) -> bool {
    match active {
        Some(a) => a@ == v,
        None => false,
    }
}

fn active_is(v: &str, active: Option<&str>) -> (r: bool)
    ensures
        r == is_active(v@, active),
{
    match active {
        Some(a) => str_eq(a, v),
        None => false,
    }
}

/// The `ls` line for a cached version: indented, marked when active.
pub open spec fn listing_line(v: Seq<char>, active: Option<&str>) -> Seq<char> {
    "  "@ + v + if is_active(v, active) { " (active)"@ } else { ""@ }
}

fn listing_line_of(v: &str, active: Option<&str>) -> (r: String)
    ensures
        r@ == listing_line(v@, active),
{
    let mut line = concat("  ", v);
    if active_is(v, active) {
        line.append(" (active)");
    } else {
        line.append("");
        proof {
            reveal_strlit("");
        }
    }
    line
}

/// The lines that `ls` prints for the cached versions, in order.
pub fn format_versions(versions: &[String], active: Option<&str>) -> (r: Vec<String>)
    ensures
        r@.len() == versions@.len(),
        forall|i: int| 0 <= i < versions@.len() ==> (#[trigger] r@[i])@ == listing_line(versions@[i]@, active),
{
    let mut out: Vec<String> = Vec::new();
    let n = versions.len();
    let mut i: usize = 0;
    while i < n
        invariant
            n == versions@.len(),
            i <= n,
            out@.len() == i,
            forall|j: int| 0 <= j < i ==> (#[trigger] out@[j])@ == listing_line(versions@[j]@, active),
        decreases n - i,
    {
        out.push(listing_line_of(versions[i].as_str(), active));
        i = i + 1;
    }
    out
}

/// What `ls` prints: a notice and a hint when nothing is cached, else a
/// heading followed by one line per cached version.
pub open spec fn local_listing_lines(versions: Seq<String>, active: Option<&str>) -> Seq<Seq<char>> {
    if versions.len() == 0 {
        seq!["No cached Zig versions found."@, "Run `z install <version>` to install one."@]
    } else {
        seq!["Cached Zig versions:"@] + Seq::new(versions.len(), |i: int| listing_line(versions[i]@, active))
    }
}

/// The complete output of `ls`, line by line.
pub fn local_listing(versions: &[String], active: Option<&str>) -> (r: Vec<String>)
    ensures
        r@.len() == local_listing_lines(versions@, active).len(),
        forall|i: int| 0 <= i < r@.len() ==> (#[trigger] r@[i])@ == local_listing_lines(versions@, active)[i],
{
    let mut out: Vec<String> = Vec::new();
    let n = versions.len();
    if n == 0 {
        out.push(String::from_str("No cached Zig versions found."));
        out.push(String::from_str("Run `z install <version>` to install one."));
        return out;
    }
    out.push(String::from_str("Cached Zig versions:"));
    let mut i: usize = 0;
    while i < n
        invariant
            n == versions@.len(),
            n > 0,
            i <= n,
            out@.len() == i + 1,
            out@[0]@ == "Cached Zig versions:"@,
            forall|j: int| 0 <= j < i ==> (#[trigger] out@[j + 1])@ == listing_line(versions@[j]@, active),
        decreases n - i,
    {
        out.push(listing_line_of(versions[i].as_str(), active));
        i = i + 1;
    }
    proof {
        let l = local_listing_lines(versions@, active);
        assert forall|k: int| 0 <= k < out@.len() implies (#[trigger] out@[k])@ == l[k] by {
            if k > 0 {
                assert(out@[(k - 1) + 1]@ == listing_line(versions@[k - 1]@, active));
            }
        }
    }
    out
}

/// What the picker prints when nothing is cached.
pub open spec fn empty_picker_lines() -> Seq<Seq<char>> {
    seq!["No cached Zig versions found."@, "Run `z install <version>` or `z ls-remote` to get started."@]
}

/// The notice and hint that the picker prints when nothing is cached.
pub fn empty_picker_notice() -> (r: Vec<String>)
    ensures
        r@.len() == empty_picker_lines().len(),
        forall|i: int| 0 <= i < r@.len() ==> (#[trigger] r@[i])@ == empty_picker_lines()[i],
{
    let mut out: Vec<String> = Vec::new();
    out.push(String::from_str("No cached Zig versions found."));
    out.push(String::from_str("Run `z install <version>` or `z ls-remote` to get started."));
    out
}

/// A picker item: the version, followed by " *" when it is active.
pub open spec fn picker_item(v: Seq<char>, active: Option<&str>) -> Seq<char> {
    if is_active(v, active) {
        v + " *"@
    } else {
        v
    }
}

/// The items of the interactive version picker, in order.
pub fn format_items(versions: &[String], active: Option<&str>) -> (r: Vec<String>)
    ensures
        r@.len() == versions@.len(),
        forall|i: int| 0 <= i < versions@.len() ==> (#[trigger] r@[i])@ == picker_item(versions@[i]@, active),
{
    let mut out: Vec<String> = Vec::new();
    let n = versions.len();
    let mut i: usize = 0;
    while i < n
        invariant
            n == versions@.len(),
            i <= n,
            out@.len() == i,
            forall|j: int| 0 <= j < i ==> (#[trigger] out@[j])@ == picker_item(versions@[j]@, active),
        decreases n - i,
    {
        let v = versions[i].as_str();
        if active_is(v, active) {
            out.push(concat(v, " *"));
        } else {
            out.push(String::from_str(v));
        }
        i = i + 1;
    }
    out
}

/// An item of the removal menu: the version, followed by "  (active)" when
/// it is active.
pub open spec fn removal_item(v: Seq<char>, active: Option<&str>) -> Seq<char> {
    if is_active(v, active) {
        v + "  (active)"@
    } else {
        v
    }
}

/// The items of the interactive removal menu, in order.
pub fn removal_items(versions: &[String], active: Option<&str>) -> (r: Vec<String>)
    ensures
        r@.len() == versions@.len(),
        forall|i: int| 0 <= i < versions@.len() ==> (#[trigger] r@[i])@ == removal_item(versions@[i]@, active),
{
    let mut out: Vec<String> = Vec::new();
    let n = versions.len();
    let mut i: usize = 0;
    while i < n
        invariant
            n == versions@.len(),
            i <= n,
            out@.len() == i,
            forall|j: int| 0 <= j < i ==> (#[trigger] out@[j])@ == removal_item(versions@[j]@, active),
        decreases n - i,
    {
        let v = versions[i].as_str();
        if active_is(v, active) {
            out.push(concat(v, "  (active)"));
        } else {
            out.push(String::from_str(v));
        }
        i = i + 1;
    }
    out
}

pub open spec fn names_active(active: Option<&str>) -> spec_fn(String) -> bool {
    |v: String| is_active(v@, active)
}

/// The picker's initial selection: the position of the active version, or
/// the first item when none is active.
pub fn default_index(versions: &[String], active: Option<&str>) -> (r: usize)
    ensures
        r == match first_match(versions@, names_active(active)) {
            Some(i) => i as usize,
            None => 0usize,
        },
{
    let n = versions.len();
    let mut i: usize = 0;
    while i < n
        invariant
            n == versions@.len(),
            i <= n,
            forall|j: int| 0 <= j < i ==> !names_active(active)(#[trigger] versions@[j]),
        decreases n - i,
    {
        if active_is(versions[i].as_str(), active) {
            proof {
                lemma_first_match_at(versions@, names_active(active), i as int);
            }
            return i;
        }
        i = i + 1;
    }
    proof {
        lemma_first_match_none(versions@, names_active(active));
    }
    0
}

/// The `ls-remote` line for a release.
pub open spec fn remote_line(r: ReleaseInfo) -> Seq<char> {
    if r.is_master {
        "  master  ("@ + r.version@ + ")"@
    } else {
        "  "@ + r.version@
    }
}

/// The lines that `ls-remote` prints, in order.
pub fn remote_lines(releases: &[ReleaseInfo]) -> (r: Vec<String>)
    ensures
        r@.len() == releases@.len(),
        forall|i: int| 0 <= i < releases@.len() ==> (#[trigger] r@[i])@ == remote_line(releases@[i]),
{
    let mut out: Vec<String> = Vec::new();
    let n = releases.len();
    let mut i: usize = 0;
    while i < n
        invariant
            n == releases@.len(),
            i <= n,
            out@.len() == i,
            forall|j: int| 0 <= j < i ==> (#[trigger] out@[j])@ == remote_line(releases@[j]),
        decreases n - i,
    {
        let r = &releases[i];
        if r.is_master {
            let mut line = concat("  master  (", r.version.as_str());
            line.append(")");
            out.push(line);
        } else {
            out.push(concat("  ", r.version.as_str()));
        }
        i = i + 1;
    }
    out
}

} // verus!

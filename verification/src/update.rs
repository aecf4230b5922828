//! Self-update: which release of this tool is the newest, whether the
//! running one is it, and where its release asset is downloaded from.

use vstd::prelude::*;
use vstd::string::*;
use crate::text::{concat, str_eq};

verus! {

/// The GitHub repository that publishes this tool.
pub const GITHUB_REPO: &'static str = "THernandez03/z";

/// The GitHub API address of this tool's latest release.
pub const LATEST_RELEASE_URL: &'static str = "https://api.github.com/repos/THernandez03/z/releases/latest";

/// `s` without all its leading `c`, as `str::trim_start_matches` with a
/// character does.
pub open spec fn strip_leading(s: Seq<char>, c: char) -> Seq<char>
    decreases s.len(),
{
    if s.len() > 0 && s[0] == c {
        strip_leading(s.drop_first(), c)
    } else {
        s
    }
}

/// The version named by a release tag: the tag without its leading `v`s.
pub fn remote_version(tag: &str) -> (r: &str)
    ensures
        r@ == strip_leading(tag@, 'v'),
{
    let n = tag.unicode_len();
    let mut i: usize = 0;
    assert(tag@.skip(0) =~= tag@);
    while i < n && tag.get_char(i) == 'v'
        invariant
            n == tag@.len(),
            i <= n,
            strip_leading(tag@.skip(i as int), 'v') == strip_leading(tag@, 'v'),
        decreases n - i,
    {
        assert(tag@.skip(i as int).drop_first() =~= tag@.skip(i + 1));
        i = i + 1;
    }
    let rest = tag.substring_char(i, n);
    assert(rest@ =~= tag@.skip(i as int));
    rest
}

/// Whether the running version `current` is the one the latest release tag names.
pub fn is_up_to_date(tag: &str, current: &str) -> (r: bool)
    ensures
        r == (strip_leading(tag@, 'v') == current@),
{
    str_eq(remote_version(tag), current)
}

/// Where the release asset `artifact` of release `tag` is downloaded from.
pub open spec fn asset_url(tag: Seq<char>, artifact: Seq<char>) -> Seq<char> {
    "https://github.com/THernandez03/z/releases/download/"@ + tag + "/"@ + artifact
}

/// The download address of a release asset.
pub fn release_asset_url(tag: &str, artifact: &str) -> (r: String)
    ensures
        r@ == asset_url(tag@, artifact@),
{
    let mut url = concat("https://github.com/THernandez03/z/releases/download/", tag);
    url.append("/");
    url.append(artifact);
    url
}

} // verus!

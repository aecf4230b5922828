//! Where things live: the installation prefix, the version cache, the
//! active-version marker and the directory that holds the active toolchain.
//!
//! Paths are held as text; joining goes through `std::path::Path::join`.
//! Values read from the environment are passed in by the caller.

use vstd::prelude::*;
use vstd::string::*;
use crate::arch::{binary_name, binary_name_for};
use crate::text::{concat, trim, trimmed, unpadded};

verus! {

/// What `Path::join` makes of `base` and `part`.
pub uninterp spec fn joined(base: Seq<char>, part: Seq<char>) -> Seq<char>;

/// A path separator: `/`, or `\` where the platform (Windows) also takes it.
pub open spec fn is_path_separator(c: char) -> bool {
    c == '/' || c == '\\'
}

/// `part` is one plain path component: not empty, with no separator and no
/// drive colon, so it is relative on every platform.
pub open spec fn plain_component(part: Seq<char>) -> bool {
    part.len() > 0 && forall|i: int| 0 <= i < part.len() ==> !is_path_separator(#[trigger] part[i]) && part[i] != ':'
}

/// `base` is a directory path that joining extends by a separator: not
/// empty, not ending in a separator or a drive colon, and not a Windows
/// verbatim or network path (those start with `\`).
pub open spec fn extendable_base(base: Seq<char>) -> bool {
    &&& base.len() > 0
    &&& !is_path_separator(base.last())
    &&& base.last() != ':'
    &&& base[0] != '\\'
}

/// `base` is a directory path whose text joining keeps as it is: not empty,
/// not ending in `\` (a separator on Windows only) or a drive colon, and
/// not a Windows verbatim or network path (those start with `\`).
pub open spec fn joinable_base(base: Seq<char>) -> bool {
    &&& base.len() > 0
    &&& base.last() != '\\'
    &&& base.last() != ':'
    &&& base[0] != '\\'
}

/// `r` is `base`, one separator, then `part`: a path under `base` whose last
/// component is `part`.
pub open spec fn adjoins(r: Seq<char>, base: Seq<char>, part: Seq<char>) -> bool {
    &&& r.len() == base.len() + 1 + part.len()
    &&& r.take(base.len() as int) == base
    &&& is_path_separator(r[base.len() as int])
    &&& r.skip(base.len() as int + 1) == part
}

/// `r` is `part` under `base`: `base` followed by `part`, with one separator
/// between them unless `base` already ends in `/`.
pub open spec fn lies_under(r: Seq<char>, base: Seq<char>, part: Seq<char>) -> bool {
    if base.last() == '/' {
        r == base + part
    } else {
        adjoins(r, base, part)
    }
}

/// Calls `std::path::Path::join`. Its result depends only on the two paths
/// (and on the platform's separator, fixed for a build); the contract names
/// it `joined`. As documented, joining a relative path extends `base`: for a
/// plain component and a base that does not already end in a separator, the
/// result is `base`, the platform's separator and `part`; a base that ends
/// in `/` (a separator everywhere) is followed by `part` directly. What
/// joining gives in other cases (an absolute `part` replacing `base`, a base
/// ending in `\`, Windows prefixes) is not stated. Both inputs are
/// Unicode, so the lossy conversion back to text is exact.
#[verifier::external_body]
pub(crate) fn join_path(base: &str, part: &str) -> (r: String)
    ensures
        r@ == joined(base@, part@),
        extendable_base(base@) && plain_component(part@) ==> adjoins(r@, base@, part@),
        joinable_base(base@) && base@.last() == '/' && plain_component(part@) ==> r@ == base@ + part@,
{
    std::path::Path::new(base).join(part).to_string_lossy().into_owned()
}

/// The installation prefix: the value of `Z_PREFIX` when it is set, else
/// `.z` under the home directory (under "/tmp" when there is none).
pub open spec fn prefix_path(prefix_env: Option<Seq<char>>, home: Option<Seq<char>>) -> Seq<char> {
    match prefix_env {
        Some(p) => p,
        None => joined(
            match home {
                Some(h) => h,
                None => "/tmp"@,
            },
            ".z"@,
        ),
    }
}

pub open spec fn opt_view(o: Option<&str>) -> Option<Seq<char>> {
    match o {
        Some(s) => Some(s@),
        None => None,
    }
}

/// Installation prefix: `Z_PREFIX` (`prefix_env`) or `~/.z`.
pub fn prefix(prefix_env: Option<&str>, home: Option<&str>) -> (r: String)
    ensures
        r@ == prefix_path(opt_view(prefix_env), opt_view(home)),
        prefix_env is None ==> match home {
            Some(h) => joinable_base(h@) ==> lies_under(r@, h@, ".z"@),
            None => adjoins(r@, "/tmp"@, ".z"@),
        },
{
    proof {
        reveal_strlit(".z");
        reveal_strlit("/tmp");
    }
    match prefix_env {
        Some(p) => String::from_str(p),
        None => match home {
            Some(h) => join_path(h, ".z"),
            None => join_path("/tmp", ".z"),
        },
    }
}

/// The bin directory where the active toolchain is linked.
pub fn bin_dir(prefix: &str) -> (r: String)
    ensures
        r@ == joined(prefix@, "bin"@),
        joinable_base(prefix@) ==> lies_under(r@, prefix@, "bin"@),
{
    proof {
        reveal_strlit("bin");
    }
    join_path(prefix, "bin")
}

/// The file that records the active version.
pub fn active_marker(prefix: &str) -> (r: String)
    ensures
        r@ == joined(prefix@, ".active"@),
        joinable_base(prefix@) ==> lies_under(r@, prefix@, ".active"@),
{
    proof {
        reveal_strlit(".active");
    }
    join_path(prefix, ".active")
}

/// Root cache directory: `Z_CACHE_DIR` (`cache_env`) when it is set, else
/// `versions` under the prefix.
pub fn cache_dir(cache_env: Option<&str>, prefix: &str) -> (r: String)
    ensures
        r@ == match cache_env {
            Some(d) => d@,
            None => joined(prefix@, "versions"@),
        },
        cache_env is None && joinable_base(prefix@) ==> lies_under(r@, prefix@, "versions"@),
{
    proof {
        reveal_strlit("versions");
    }
    match cache_env {
        Some(d) => String::from_str(d),
        None => join_path(prefix, "versions"),
    }
}

/// Path to a specific cached version directory.
pub fn version_dir(cache_dir: &str, version: &str) -> (r: String)
    ensures
        r@ == joined(cache_dir@, version@),
        joinable_base(cache_dir@) && plain_component(version@) ==> lies_under(r@, cache_dir@, version@),
{
    join_path(cache_dir, version)
}

/// Path to the zig binary inside a cached version. For a plain version
/// name it lies under the cache directory: the text starts with it, and its
/// last component is the binary's name.
pub fn zig_binary(cache_dir: &str, version: &str, os: &str) -> (r: String)
    ensures
        r@ == joined(joined(cache_dir@, version@), binary_name_for(os@)),
        joinable_base(cache_dir@) && plain_component(version@) ==> adjoins(
            r@,
            joined(cache_dir@, version@),
            binary_name_for(os@),
        ),
        joinable_base(cache_dir@) && plain_component(version@) ==> cache_dir@.is_prefix_of(r@),
{
    let dir = version_dir(cache_dir, version);
    proof {
        reveal_strlit("zig");
        reveal_strlit("zig.exe");
        if joinable_base(cache_dir@) && plain_component(version@) {
            let d = dir@;
            let c = cache_dir@;
            let v = version@;
            if c.last() == '/' {
                assert(d == c + v);
                assert(d.last() == v.last());
                assert(d[0] == c[0]);
            } else {
                assert(d.last() == d.skip(c.len() as int + 1).last());
                assert(d[0] == d.take(c.len() as int)[0]);
            }
            assert(extendable_base(d));
            assert(c =~= d.subrange(0, c.len() as int));
        }
    }
    join_path(dir.as_str(), binary_name(os))
}

/// The active version recorded in the marker file's contents (`None` when
/// the marker could not be read), without surrounding white space. A key
/// written by activation is read back unchanged when it neither starts nor
/// ends with white space (as every cache key does).
pub fn active_version(marker: Option<&str>) -> (r: Option<String>)
    ensures
        match marker {
            Some(m) => r matches Some(v) && v@ == trimmed(m@),
            None => r is None,
        },
        match marker {
            Some(m) => unpadded(m@) ==> (r matches Some(v) && v@ == m@),
            None => true,
        },
{
    match marker {
        Some(m) => Some(String::from_str(trim(m))),
        None => None,
    }
}

/// The text shown when a version is asked for that is not cached.
pub open spec fn not_cached_text(version: Seq<char>) -> Seq<char> {
    "Version '"@ + version + "' is not cached. Run `z "@ + version + "` to install it."@
}

/// Return the path to the zig binary when it exists, else the error
/// message for a version that is not cached.
pub fn which(binary: String, binary_exists: bool, version: &str) -> (r: Result<String, String>)
    ensures
        binary_exists ==> r == Ok::<String, String>(binary),
        !binary_exists ==> (r matches Err(m) && m@ == not_cached_text(version@)),
{
    if binary_exists {
        Ok(binary)
    } else {
        let mut m = concat("Version '", version);
        m.append("' is not cached. Run `z ");
        m.append(version);
        m.append("` to install it.");
        Err(m)
    }
}

} // verus!

//! Downloading a toolchain archive: its format and the progress shown.

use vstd::prelude::*;
use vstd::string::*;
use crate::paths::is_path_separator;
use crate::text::{has_prefix, is_char, is_last_match, last_match, lemma_last_match_at};

verus! {

/// What `Path::extension` gives for `p`, as text.
pub uninterp spec fn extension_of(p: Seq<char>) -> Option<Seq<char>>;

/// The text after the last `/` of `p` (all of `p` when it has none).
pub open spec fn last_component(p: Seq<char>) -> Seq<char> {
    match last_match(p, is_char('/')) {
        Some(i) => p.skip(i + 1),
        None => p,
    }
}

/// `name` is an ordinary file name on every platform: not empty, not `.`
/// or `..`, and free of `\` and `:` (which Windows reads as separators and
/// drive prefixes).
pub open spec fn plain_file_name(name: Seq<char>) -> bool {
    &&& name.len() > 0
    &&& name != "."@
    &&& name != ".."@
    &&& forall|i: int| 0 <= i < name.len() ==> #[trigger] name[i] != '\\' && name[i] != ':'
}

/// `p` names an ordinary file: it does not start with two separators
/// (which Windows reads as a network-share or device prefix), and its last
/// component is an ordinary file name.
pub open spec fn ordinary_file_path(p: Seq<char>) -> bool {
    &&& !(p.len() >= 2 && is_path_separator(p[0]) && is_path_separator(p[1]))
    &&& plain_file_name(last_component(p))
}

/// The extension of a file name as `Path::extension` documents it: none
/// without a dot, none when the only dot is the first character, otherwise
/// the text after the last dot.
pub open spec fn name_extension(name: Seq<char>) -> Option<Seq<char>> {
    match last_match(name, is_char('.')) {
        Some(i) => if i == 0 {
            None
        } else {
            Some(name.skip(i + 1))
        },
        None => None,
    }
}

/// Calls `std::path::Path::extension` on the text `p`. The contract names
/// the result `extension_of(p@)`, and, for a path that names an ordinary
/// file (see `ordinary_file_path`), states what the documentation gives:
/// the text after the file name's last dot, or nothing when it has no dot
/// or only a leading one. For other paths (a trailing separator, `..`,
/// Windows network-share, device and verbatim prefixes) nothing more is
/// stated. The extension of a Unicode path is
/// Unicode, so the lossy conversion is exact.
#[verifier::external_body]
fn path_extension(p: &str) -> (r: Option<String>)
    ensures
        match extension_of(p@) {
            Some(e) => r matches Some(s) && s@ == e,
            None => r is None,
        },
        ordinary_file_path(p@) ==> match name_extension(last_component(p@)) {
            Some(e) => r matches Some(s) && s@ == e,
            None => r is None,
        },
{
    match std::path::Path::new(p).extension() {
        Some(e) => Some(e.to_string_lossy().into_owned()),
        None => None,
    }
}

/// ASCII lower case of a character.
pub open spec fn ascii_lower(c: char) -> char {
    if 'A' <= c && c <= 'Z' {
        ((c as u32) + 32) as char
    } else {
        c
    }
}

/// Equal up to ASCII case, as `str::eq_ignore_ascii_case` compares.
pub open spec fn eq_ignoring_ascii_case(a: Seq<char>, b: Seq<char>) -> bool {
    a.len() == b.len() && forall|i: int| 0 <= i < a.len() ==> ascii_lower(#[trigger] a[i]) == ascii_lower(b[i])
}

fn lower_eq(c: char, d: char) -> (r: bool)
    ensures
        r == (ascii_lower(c) == ascii_lower(d)),
{
    let cu = c as u32;
    let du = d as u32;
    let cl = if 65 <= cu && cu <= 90 { cu + 32 } else { cu };
    let dl = if 65 <= du && du <= 90 { du + 32 } else { du };
    cl == dl
}

fn eq_ignore_ascii_case(a: &str, b: &str) -> (r: bool)
    ensures
        r == eq_ignoring_ascii_case(a@, b@),
{
    let n = a.unicode_len();
    if n != b.unicode_len() {
        return false;
    }
    let mut i: usize = 0;
    while i < n
        invariant
            n == a@.len(),
            n == b@.len(),
            i <= n,
            forall|j: int| 0 <= j < i ==> ascii_lower(#[trigger] a@[j]) == ascii_lower(b@[j]),
        decreases n - i,
    {
        if !lower_eq(a.get_char(i), b.get_char(i)) {
            return false;
        }
        i = i + 1;
    }
    true
}

/// The archive format of a download.
#[derive(Debug, Clone, Copy, PartialEq, Eq, Structural)]
pub enum ArchiveKind {
    /// A zip archive (the URL's extension is "zip", in any case).
    Zip,
    /// An xz-compressed tarball (the URL ends with ".tar.xz").
    TarXz,
    /// Neither: nothing is extracted.
    Other,
}

/// The archive format that a download URL names.
pub open spec fn archive_kind_of(url: Seq<char>) -> ArchiveKind {
    let zip = match extension_of(url) {
        Some(e) => eq_ignoring_ascii_case(e, "zip"@),
        None => false,
    };
    if zip {
        ArchiveKind::Zip
    } else if ".tar.xz"@.is_suffix_of(url) {
        ArchiveKind::TarXz
    } else {
        ArchiveKind::Other
    }
}

fn ends_with(s: &str, suffix: &str) -> (r: bool)
    ensures
        r == suffix@.is_suffix_of(s@),
{
    let n = s.unicode_len();
    let m = suffix.unicode_len();
    if m > n {
        return false;
    }
    let tail = s.substring_char(n - m, n);
    has_prefix(tail, suffix) && tail.unicode_len() == m
}

/// The archive format that a URL names when it names an ordinary file: zip when the file name's extension is "zip" in any
/// case, else an xz tarball when the URL ends with ".tar.xz".
pub open spec fn archive_kind_by_name(url: Seq<char>) -> ArchiveKind {
    let zip = match name_extension(last_component(url)) {
        Some(e) => eq_ignoring_ascii_case(e, "zip"@),
        None => false,
    };
    if zip {
        ArchiveKind::Zip
    } else if ".tar.xz"@.is_suffix_of(url) {
        ArchiveKind::TarXz
    } else {
        ArchiveKind::Other
    }
}

/// Determines the archive format of a download from its URL.
pub fn archive_kind(url: &str) -> (r: ArchiveKind)
    ensures
        r == archive_kind_of(url@),
        ordinary_file_path(url@) ==> r == archive_kind_by_name(url@),
{
    let zip = match path_extension(url) {
        Some(e) => eq_ignore_ascii_case(e.as_str(), "zip"),
        None => false,
    };
    if zip {
        ArchiveKind::Zip
    } else if ends_with(url, ".tar.xz") {
        ArchiveKind::TarXz
    } else {
        ArchiveKind::Other
    }
}

/// The extension of the temporary download file: "zip" for zip archives,
/// "tar.xz" for everything else.
pub fn download_file_ext(kind: ArchiveKind) -> (r: &'static str)
    ensures
        r@ == if kind == ArchiveKind::Zip { "zip"@ } else { "tar.xz"@ },
{
    match kind {
        ArchiveKind::Zip => "zip",
        _ => "tar.xz",
    }
}

/// Whether an unpacked archive is flattened: its listing (each entry given
/// by whether it is a directory) is exactly one directory, whose contents
/// then move up one level.
pub fn flattens(entry_is_dir: &[bool]) -> (r: bool)
    ensures
        r == (entry_is_dir@.len() == 1 && entry_is_dir@[0]),
{
    entry_is_dir.len() == 1 && entry_is_dir[0]
}

/// The percentage of a download shown as progress; `None` when the total
/// size is unknown (0).
pub fn progress_percent(downloaded: u64, total: u64) -> (r: Option<u64>)
    requires
        downloaded * 100 <= u64::MAX,
    ensures
        total == 0 ==> r is None,
        total != 0 ==> r == Some(((downloaded * 100) / (total as int)) as u64),
{
    let scaled = downloaded * 100;
    if total == 0 {
        None
    } else {
        Some(scaled / total)
    }
}

/// A download whose file name ends in ".zip" (and is more than that) is
/// unpacked as a zip archive.
pub proof fn zip_file_is_zip(url: Seq<char>)
    requires
        ordinary_file_path(url),
        last_component(url).len() > 4,
        ".zip"@.is_suffix_of(last_component(url)),
    ensures
        archive_kind_by_name(url) == ArchiveKind::Zip,
{
    reveal_strlit(".zip");
    reveal_strlit("zip");
    let name = last_component(url);
    let n = name.len() as int;
    assert(name[n - 4] == ".zip"@[0]);
    assert(name[n - 3] == ".zip"@[1]);
    assert(name[n - 2] == ".zip"@[2]);
    assert(name[n - 1] == ".zip"@[3]);
    assert(is_last_match(name, is_char('.'), n - 4));
    lemma_last_match_at(name, is_char('.'), n - 4);
    assert(name.skip(n - 3) =~= "zip"@);
}

} // verus!

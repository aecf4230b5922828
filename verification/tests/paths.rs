use std::path::Path;
use zvm::text::trim;
use zvm::arch::{archive_ext, binary_name, self_artifact, target, target_str};
use zvm::paths::{
    active_marker, active_version, bin_dir, cache_dir, prefix, version_dir, which, zig_binary,
};

#[test]
fn cache_dir_respects_env_var() {
    let result = cache_dir(Some("/tmp/zcache"), "/home/u/.z");
    assert_eq!(result, "/tmp/zcache");
}

#[test]
fn cache_dir_defaults_under_prefix() {
    assert_eq!(Path::new(&cache_dir(None, "/home/u/.z")), Path::new("/home/u/.z").join("versions"));
}

#[test]
fn version_dir_is_under_cache_dir() {
    let vdir = version_dir("/tmp/zcache", "0.13.0");
    assert_eq!(Path::new(&vdir), Path::new("/tmp/zcache").join("0.13.0"));
}

#[test]
fn zig_binary_points_into_version_dir() {
    let bin = zig_binary("/tmp/zcache", "0.13.0", "linux");
    let bin = Path::new(&bin);
    assert!(bin.starts_with("/tmp/zcache"));
    let name = bin.file_name().unwrap().to_string_lossy();
    assert!(name == "zig" || name == "zig.exe");
}

#[test]
fn zig_binary_name_depends_on_os() {
    assert_eq!(Path::new(&zig_binary("/c", "0.13.0", "windows")), Path::new("/c").join("0.13.0").join("zig.exe"));
    assert_eq!(Path::new(&zig_binary("/c", "0.13.0", "linux")), Path::new("/c").join("0.13.0").join("zig"));
    assert_eq!(binary_name("macos"), "zig");
}

#[test]
fn prefix_respects_env_var() {
    let result = prefix(Some("/opt/zp"), Some("/home/u"));
    assert_eq!(result, "/opt/zp");
}

#[test]
fn prefix_defaults_to_home() {
    assert_eq!(Path::new(&prefix(None, Some("/home/u"))), Path::new("/home/u").join(".z"));
    assert_eq!(Path::new(&prefix(None, None)), Path::new("/tmp").join(".z"));
}

#[test]
fn bin_dir_is_under_prefix() {
    let b = bin_dir("/opt/zp");
    assert_eq!(Path::new(&b), Path::new("/opt/zp").join("bin"));
    assert_eq!(Path::new(&active_marker("/opt/zp")), Path::new("/opt/zp").join(".active"));
}

#[test]
fn active_version_returns_none_when_marker_missing() {
    assert_eq!(active_version(None), None);
}

#[test]
fn active_version_reads_marker_file() {
    assert_eq!(active_version(Some("0.13.0")), Some("0.13.0".to_string()));
}

#[test]
fn active_version_trims_whitespace() {
    assert_eq!(active_version(Some("  0.13.0\n")), Some("0.13.0".to_string()));
}

#[test]
fn which_errors_when_not_cached() {
    assert!(which(zig_binary("/tmp/zcache", "nope", "linux"), false, "nope").is_err());
}

#[test]
fn which_returns_path_when_cached() {
    let result = which(zig_binary("/tmp/zcache", "0.13.0", "linux"), true, "0.13.0");
    assert!(result.is_ok());
}

#[test]
fn which_error_message() {
    assert_eq!(
        which(String::new(), false, "0.13.0").unwrap_err(),
        "Version '0.13.0' is not cached. Run `z 0.13.0` to install it."
    );
}

#[test]
fn target_known_platforms() {
    assert_eq!(target("x86_64", "linux"), "x86_64-linux");
    assert_eq!(target("aarch64", "macos"), "aarch64-macos");
    assert_eq!(target("x86_64", "windows"), "x86_64-windows");
    assert_eq!(target("riscv64", "linux"), "riscv64-linux");
}

#[test]
fn target_falls_back_per_component() {
    assert_eq!(target("mips", "macos"), "x86_64-macos");
    assert_eq!(target("aarch64", "freebsd"), "aarch64-linux");
    assert_eq!(target_str("mips", "macos"), "x86_64-linux");
    assert_eq!(target("arm", "macos"), "x86_64-linux");
}

#[test]
fn archive_ext_by_os() {
    assert_eq!(archive_ext("windows"), "zip");
    assert_eq!(archive_ext("linux"), "tar.xz");
    assert_eq!(archive_ext("macos"), "tar.xz");
}

#[test]
fn self_artifact_names() {
    assert_eq!(self_artifact("z", "linux", "x86_64"), "z-linux-x64");
    assert_eq!(self_artifact("z", "macos", "aarch64"), "z-darwin-arm64");
    assert_eq!(self_artifact("z", "windows", "x86_64"), "z-windows-x64.exe");
    assert_eq!(self_artifact("z", "windows", "aarch64"), "z-linux-x64.exe");
}

#[test]
fn trim_removes_unicode_white_space() {
    assert_eq!(trim("\u{3000}\u{a0} 0.13.0\t\u{2028}\n"), "0.13.0");
    assert_eq!(trim(" a b "), "a b");
    assert_eq!(trim(" \u{85}\u{205f} "), "");
    assert_eq!(trim(""), "");
    assert_eq!(trim("\u{200b}x\u{200b}"), "\u{200b}x\u{200b}");
    for s in ["  x y \n", "\u{1680}\u{2000}z\u{200a}\u{202f}", "\r\u{b}\u{c}q", "é1é"] {
        assert_eq!(trim(s), s.trim());
    }
}

#[test]
fn active_version_reads_back_any_unpadded_key() {
    assert_eq!(active_version(Some("é1é")), Some("é1é".to_string()));
    assert_eq!(active_version(Some("0.14.0+ééé")), Some("0.14.0+ééé".to_string()));
    assert_eq!(active_version(Some("\u{3000}0.13.0\u{a0}")), Some("0.13.0".to_string()));
}

#[test]
fn joining_a_plain_name_adds_one_separator() {
    assert_eq!(bin_dir("/opt/zp"), "/opt/zp/bin");
    assert_eq!(active_marker("/opt/zp"), "/opt/zp/.active");
    assert_eq!(version_dir("/c", "0.13.0"), "/c/0.13.0");
    assert_eq!(prefix(None, None), "/tmp/.z");
}

#[test]
fn zig_binary_lies_under_cache_dir_with_or_without_trailing_slash() {
    assert_eq!(zig_binary("/tmp/z/", "0.13.0", "linux"), "/tmp/z/0.13.0/zig");
    assert_eq!(zig_binary("/tmp/z", "0.13.0", "windows"), "/tmp/z/0.13.0/zig.exe");
    assert_eq!(version_dir("/tmp/z/", "0.13.0"), "/tmp/z/0.13.0");
    assert!(zig_binary("/tmp/z/", "0.14.0+abc", "linux").starts_with("/tmp/z/"));
}

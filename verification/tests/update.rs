use zvm::download::{archive_kind, download_file_ext, flattens, progress_percent, ArchiveKind};
use zvm::update::{is_up_to_date, release_asset_url, remote_version, GITHUB_REPO, LATEST_RELEASE_URL};

#[test]
fn remote_version_strips_leading_v() {
    assert_eq!(remote_version("v0.7.0"), "0.7.0");
    assert_eq!(remote_version("vv1.0"), "1.0");
    assert_eq!(remote_version("0.7.0"), "0.7.0");
}

#[test]
fn up_to_date_compares_without_v() {
    assert!(is_up_to_date("v0.7.0", "0.7.0"));
    assert!(!is_up_to_date("v0.8.0", "0.7.0"));
}

#[test]
fn release_asset_url_layout() {
    assert_eq!(
        release_asset_url("v0.7.0", "z-linux-x64"),
        "https://github.com/THernandez03/z/releases/download/v0.7.0/z-linux-x64"
    );
    assert_eq!(
        LATEST_RELEASE_URL,
        format!("https://api.github.com/repos/{GITHUB_REPO}/releases/latest")
    );
}

#[test]
fn archive_kind_from_url() {
    assert_eq!(archive_kind("https://ziglang.org/builds/zig-x86_64-windows-0.13.0.zip"), ArchiveKind::Zip);
    assert_eq!(archive_kind("https://ziglang.org/builds/zig-x86_64-windows-0.13.0.ZIP"), ArchiveKind::Zip);
    assert_eq!(archive_kind("https://ziglang.org/builds/zig-linux-x86_64-0.13.0.tar.xz"), ArchiveKind::TarXz);
    assert_eq!(archive_kind("https://example.com/zig.tar.gz"), ArchiveKind::Other);
    assert_eq!(archive_kind("zip"), ArchiveKind::Other);
}

#[test]
fn download_file_ext_by_kind() {
    assert_eq!(download_file_ext(ArchiveKind::Zip), "zip");
    assert_eq!(download_file_ext(ArchiveKind::TarXz), "tar.xz");
    assert_eq!(download_file_ext(ArchiveKind::Other), "tar.xz");
}

#[test]
fn progress_percent_values() {
    assert_eq!(progress_percent(50, 200), Some(25));
    assert_eq!(progress_percent(200, 200), Some(100));
    assert_eq!(progress_percent(10, 0), None);
}

#[test]
fn archive_kind_reads_the_file_name_extension() {
    assert_eq!(archive_kind("https://example.com/a.b.ZiP"), ArchiveKind::Zip);
    assert_eq!(archive_kind("https://example.com/.zip"), ArchiveKind::Other);
    assert_eq!(archive_kind("https://example.com/zip"), ArchiveKind::Other);
    assert_eq!(archive_kind("https://example.com/zig.zip.tar.xz"), ArchiveKind::TarXz);
    assert_eq!(archive_kind("zig-0.13.0.zip"), ArchiveKind::Zip);
}

#[test]
fn flattens_only_a_single_directory() {
    assert!(flattens(&[true]));
    assert!(!flattens(&[false]));
    assert!(!flattens(&[]));
    assert!(!flattens(&[true, true]));
    assert!(!flattens(&[true, false]));
}

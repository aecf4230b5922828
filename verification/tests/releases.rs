use zvm::releases::{
    parse_semver, parse_u32, releases_from_index, resolve, resolve_from, sort_releases, IndexEntry,
    PlatformEntry, ReleaseInfo, ResolveError, INDEX_URL,
};

fn make_release(version: &str, is_master: bool) -> ReleaseInfo {
    ReleaseInfo {
        version: version.to_string(),
        tarball_url: format!("https://example.com/zig-{version}.tar.xz"),
        is_master,
    }
}

/// Resolve within a pre-built list, bypassing network.
fn resolve_in(versions: &[ReleaseInfo], label: &str) -> Result<ReleaseInfo, ResolveError> {
    resolve_from(label, versions)
}

#[test]
fn resolve_exact_version() {
    let releases = [make_release("0.13.0", false), make_release("0.12.0", false)];
    let r = resolve_in(&releases, "0.13.0").unwrap();
    assert_eq!(r.version, "0.13.0");
}

#[test]
fn resolve_master_label() {
    let releases = [make_release("master", true), make_release("0.13.0", false)];
    let r = resolve_in(&releases, "master").unwrap();
    assert!(r.is_master);
}

#[test]
fn resolve_prefix_match() {
    let releases = [make_release("0.13.0", false), make_release("0.12.0", false)];
    let r = resolve_in(&releases, "0.13").unwrap();
    assert_eq!(r.version, "0.13.0");
}

#[test]
fn resolve_v_prefix_rejected() {
    let releases = [make_release("0.13.0", false)];
    assert!(resolve_in(&releases, "v0.13.0").is_err());
}

#[test]
fn resolve_beta_returns_error() {
    let releases = [make_release("0.13.0", false)];
    assert!(resolve_in(&releases, "beta").is_err());
}

#[test]
fn resolve_current_returns_stable() {
    let releases = [make_release("master", true), make_release("0.13.0", false)];
    let r = resolve_in(&releases, "current").unwrap();
    assert!(!r.is_master);
    assert_eq!(r.version, "0.13.0");
}

#[test]
fn resolve_errors_on_unknown_version() {
    let releases = [make_release("0.13.0", false)];
    assert!(resolve_in(&releases, "99.99.99").is_err());
}

#[test]
fn resolve_errors_on_empty_list() {
    assert!(resolve_in(&[], "0.13.0").is_err());
}

// --- alias tests ---

#[test]
fn alias_latest_resolves_to_master() {
    let releases = [make_release("master", true), make_release("0.13.0", false)];
    let r = resolve_in(&releases, "latest").unwrap();
    assert!(r.is_master);
}

#[test]
fn alias_canary_resolves_to_master() {
    let releases = [make_release("master", true), make_release("0.13.0", false)];
    let r = resolve_in(&releases, "canary").unwrap();
    assert!(r.is_master);
}

#[test]
fn alias_next_resolves_to_master() {
    let releases = [make_release("master", true), make_release("0.13.0", false)];
    let r = resolve_in(&releases, "next").unwrap();
    assert!(r.is_master);
}

#[test]
fn alias_nightly_resolves_to_master() {
    let releases = [make_release("master", true), make_release("0.13.0", false)];
    let r = resolve_in(&releases, "nightly").unwrap();
    assert!(r.is_master);
}

#[test]
fn alias_edge_resolves_to_master() {
    let releases = [make_release("master", true), make_release("0.13.0", false)];
    let r = resolve_in(&releases, "edge").unwrap();
    assert!(r.is_master);
}

#[test]
fn alias_lts_resolves_to_first_stable() {
    // master comes first in the sorted list; lts should skip it
    let releases = [
        make_release("master", true),
        make_release("0.13.0", false),
        make_release("0.12.0", false),
    ];
    let r = resolve_in(&releases, "lts").unwrap();
    assert!(!r.is_master);
    assert_eq!(r.version, "0.13.0");
}

#[test]
fn alias_lts_errors_when_no_stable() {
    let releases = [make_release("master", true)];
    assert!(resolve_in(&releases, "lts").is_err());
}

#[test]
fn alias_latest_errors_when_no_master() {
    let releases = [make_release("0.13.0", false)];
    assert!(resolve_in(&releases, "latest").is_err());
}

#[test]
fn release_info_clone() {
    let r = make_release("0.13.0", false);
    let r2 = r.clone();
    assert_eq!(r.version, r2.version);
    assert_eq!(r.tarball_url, r2.tarball_url);
    assert_eq!(r.is_master, r2.is_master);
}

#[test]
fn index_url_is_https() {
    assert!(INDEX_URL.starts_with("https://"));
}

#[test]
fn sort_master_first() {
    let mut releases = [
        make_release("0.13.0", false),
        make_release("master", true),
        make_release("0.12.0", false),
    ];
    releases.sort_by(|a, b| {
        if a.is_master {
            return std::cmp::Ordering::Less;
        }
        if b.is_master {
            return std::cmp::Ordering::Greater;
        }
        parse_semver(&b.version).cmp(&parse_semver(&a.version))
    });
    assert_eq!(releases[0].version, "master");
    assert_eq!(releases[1].version, "0.13.0");
    assert_eq!(releases[2].version, "0.12.0");
}

#[test]
fn parse_semver_numeric_ordering() {
    // "0.9.1" > "0.16.0" lexicographically but < numerically — verify numeric wins.
    assert!(parse_semver("0.16.0") > parse_semver("0.9.1"));
}

#[test]
fn stable_picks_highest_semver() {
    // Mirrors the order fetch_versions produces after the numeric sort:
    // master first, then 0.16.0 before 0.9.1.
    let releases = vec![
        make_release("master", true),
        make_release("0.16.0", false),
        make_release("0.9.1", false),
    ];
    let r = resolve_in(&releases, "stable").unwrap();
    assert_eq!(r.version, "0.16.0");
}

// --- further cases ---

#[test]
fn parse_semver_fields() {
    assert_eq!(parse_semver("0.13.0"), (0, 13, 0));
    assert_eq!(parse_semver("0.14.0-dev.321"), (0, 14, 0));
    assert_eq!(parse_semver("1.2.3.4"), (1, 2, 0));
    assert_eq!(parse_semver("master"), (0, 0, 0));
    assert_eq!(parse_semver(""), (0, 0, 0));
    assert_eq!(parse_semver("7"), (7, 0, 0));
    assert_eq!(parse_semver("+1.2"), (1, 2, 0));
}

#[test]
fn parse_u32_follows_from_str() {
    for s in ["0", "42", "+7", "", "+", "-1", "4294967295", "4294967296", "12a", "007"] {
        assert_eq!(parse_u32(s), s.parse::<u32>().ok(), "input {s:?}");
    }
}

#[test]
fn sort_releases_orders_for_listing() {
    let sorted = sort_releases(vec![
        make_release("0.9.1", false),
        make_release("0.16.0", false),
        make_release("master", true),
        make_release("0.10.0", false),
    ]);
    let names: Vec<&str> = sorted.iter().map(|r| r.version.as_str()).collect();
    assert_eq!(names, vec!["master", "0.16.0", "0.10.0", "0.9.1"]);
}

#[test]
fn sort_releases_keeps_ties_in_order() {
    let sorted = sort_releases(vec![
        make_release("0.14.0-dev.1", false),
        make_release("0.15.0", false),
        make_release("0.14.0", false),
    ]);
    let names: Vec<&str> = sorted.iter().map(|r| r.version.as_str()).collect();
    assert_eq!(names, vec!["0.15.0", "0.14.0-dev.1", "0.14.0"]);
}

fn entry(key: &str, version: Option<&str>, platforms: &[(&str, Option<&str>)]) -> IndexEntry {
    IndexEntry {
        key: key.to_string(),
        version: version.map(|v| v.to_string()),
        platforms: platforms
            .iter()
            .map(|(n, t)| PlatformEntry { name: n.to_string(), tarball: t.map(|t| t.to_string()) })
            .collect(),
    }
}

#[test]
fn releases_from_index_picks_platform_and_sorts() {
    let index = vec![
        entry("0.12.0", None, &[("x86_64-linux", Some("u12")), ("aarch64-macos", Some("m12"))]),
        entry("0.13.0", None, &[("x86_64-linux", Some("u13"))]),
        entry("0.9.1", None, &[("aarch64-macos", Some("m91"))]),
        entry("master", Some("0.14.0-dev.5+abc"), &[("x86_64-linux", Some("um"))]),
        entry("0.11.0", None, &[("x86_64-linux", None)]),
    ];
    let rs = releases_from_index(&index, "x86_64-linux");
    let got: Vec<(&str, &str, bool)> =
        rs.iter().map(|r| (r.version.as_str(), r.tarball_url.as_str(), r.is_master)).collect();
    assert_eq!(
        got,
        vec![("0.14.0-dev.5+abc", "um", true), ("0.13.0", "u13", false), ("0.12.0", "u12", false)]
    );
}

#[test]
fn resolve_uses_index_listing() {
    let index = vec![
        entry("0.9.1", None, &[("x86_64-linux", Some("a"))]),
        entry("0.16.0", None, &[("x86_64-linux", Some("b"))]),
        entry("master", Some("0.17.0-dev.1+abc"), &[("x86_64-linux", Some("c"))]),
    ];
    assert_eq!(resolve("stable", &index, "x86_64-linux").unwrap().version, "0.16.0");
    assert_eq!(resolve(" latest ", &index, "x86_64-linux").unwrap().tarball_url, "c");
    assert_eq!(resolve("0.9", &index, "x86_64-linux").unwrap().version, "0.9.1");
}

#[test]
fn resolve_error_messages() {
    let releases = [make_release("0.13.0", false)];
    assert_eq!(resolve_in(&releases, " v0.13.0 ").unwrap_err().message(), "No Zig release found matching 'v0.13.0'");
    assert_eq!(resolve_in(&releases, " 9.9 ").unwrap_err().message(), "No Zig release found matching ' 9.9 '");
    assert_eq!(resolve_in(&releases, "beta").unwrap_err().message(), "'beta' channel is not supported for Zig");
    assert_eq!(resolve_in(&releases, "edge").unwrap_err().message(), "No master/nightly release found");
    assert_eq!(resolve_in(&[make_release("master", true)], "lts").unwrap_err().message(), "No stable release found");
}

#[test]
fn resolve_exact_beats_prefix() {
    let releases = [make_release("0.13.0", false), make_release("0.1", false)];
    assert_eq!(resolve_in(&releases, "0.1").unwrap().version, "0.1");
}

#[test]
fn resolve_empty_label_matches_nothing() {
    let releases = [make_release("0.13.0", false), make_release("0.12.0", false)];
    assert_eq!(resolve_in(&releases, "   ").unwrap_err().message(), "No Zig release found matching '   '");
}

#[test]
fn partial_version_matches_only_its_own_line() {
    let releases = [make_release("0.13.0", false)];
    assert!(matches!(resolve_in(&releases, "0.1"), Err(ResolveError::NoMatch(ref m)) if m == "0.1"));
    let releases = [make_release("0.130.0", false), make_release("0.13.4", false)];
    assert_eq!(resolve_in(&releases, "0.13").unwrap().version, "0.13.4");
    assert_eq!(resolve_in(&releases, "0").unwrap().version, "0.130.0");
}

#[test]
fn latest_and_master_resolve_alike() {
    let releases = [make_release("0.14.0-dev.2+abc", true), make_release("0.13.0", false)];
    let a = resolve_in(&releases, "latest").unwrap();
    let b = resolve_in(&releases, "master").unwrap();
    assert_eq!(a.version, b.version);
    assert!(a.is_master && b.is_master);
}

#[test]
fn partial_version_picks_latest_patch() {
    let releases = sort_releases(vec![
        make_release("0.13.1", false),
        make_release("0.12.0", false),
        make_release("0.13.2", false),
        make_release("0.13.0", false),
    ]);
    assert_eq!(resolve_in(&releases, "0.13").unwrap().version, "0.13.2");
}

#[test]
fn dev_build_label_resolves_to_its_nightly() {
    let releases = [make_release("0.14.0-dev.321+abc1234", true), make_release("0.13.0", false)];
    assert_eq!(resolve_in(&releases, "0.14.0-dev.321").unwrap().version, "0.14.0-dev.321+abc1234");
    assert_eq!(resolve_in(&releases, "0.14.0").unwrap().version, "0.14.0-dev.321+abc1234");
    assert!(resolve_in(&releases, "0.14.0-dev.32").is_err());
    assert!(resolve_in(&releases, "0.1").is_err());
}

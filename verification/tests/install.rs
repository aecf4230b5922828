use zvm::cache::CacheEntry;
use zvm::install::{
    cache_key, extract_ver_sha, find_cached_for_label, find_cached_for_release, is_alias,
    is_sha_input, looks_like_version, needs_activation, parse_version_output, removal_target,
    version_prefix,
};

fn cached(tag: &str) -> CacheEntry {
    CacheEntry { name: Some(tag.to_string()), is_dir: true, has_binary: true, modified: 0 }
}

// ── is_alias ───────────────────────────────────────────────────

#[test]
fn is_alias_known_aliases() {
    assert!(is_alias("lts"));
    assert!(is_alias("stable"));
    assert!(is_alias("current"));
    assert!(is_alias("latest"));
    assert!(is_alias("canary"));
    assert!(is_alias("nightly"));
    assert!(is_alias("next"));
    assert!(is_alias("edge"));
    assert!(is_alias("beta"));
    assert!(is_alias("master"));
}

#[test]
fn is_alias_version_not_alias() {
    assert!(!is_alias("0.13.0"));
    assert!(!is_alias("abc1234d"));
    assert!(!is_alias(""));
}

// ── looks_like_version ──────────────────────────────────────────

#[test]
fn looks_like_version_semver() {
    assert!(looks_like_version("0.13.0"));
    assert!(looks_like_version("0.12.0"));
}

#[test]
fn looks_like_version_x_notation() {
    assert!(looks_like_version("0.x"));
    assert!(looks_like_version("0.13.X"));
}

#[test]
fn looks_like_version_non_versions() {
    assert!(!looks_like_version("master"));
    assert!(!looks_like_version("v0.13.0"));
    assert!(!looks_like_version("abc1234d"));
}

#[test]
fn looks_like_version_rejects_empty_and_leading_dot() {
    assert!(!looks_like_version(""));
    assert!(!looks_like_version(".13"));
}

// ── is_sha_input ───────────────────────────────────────────────

#[test]
fn is_sha_input_valid() {
    assert!(is_sha_input("abc1234d"));
    assert!(is_sha_input("abc1234def5678"));
}

#[test]
fn is_sha_input_too_short() {
    assert!(!is_sha_input("abc123"));
}

#[test]
fn is_sha_input_all_digits_rejected() {
    assert!(!is_sha_input("12345678"));
}

#[test]
fn is_sha_input_non_hex_rejected() {
    assert!(!is_sha_input("abc1234g"));
}

#[test]
fn is_sha_input_length_bounds() {
    assert!(is_sha_input("abcdef1"));
    assert!(is_sha_input(&"a".repeat(40)));
    assert!(!is_sha_input(&"a".repeat(41)));
    assert!(is_sha_input("ABCDEF1"));
}

// ── extract_ver_sha ─────────────────────────────────────────────

#[test]
fn extract_ver_sha_with_sha() {
    let (ver, sha) = extract_ver_sha("0.13.0+abc1234def");
    assert_eq!(ver, "0.13.0");
    assert_eq!(sha, Some("abc1234def"));
}

#[test]
fn extract_ver_sha_without_sha() {
    let (ver, sha) = extract_ver_sha("0.13.0");
    assert_eq!(ver, "0.13.0");
    assert!(sha.is_none());
}

#[test]
fn extract_ver_sha_strips_dev_suffix() {
    let (ver, sha) = extract_ver_sha("0.14.0-dev.321+abc1234de");
    assert_eq!(ver, "0.14.0");
    assert_eq!(sha, Some("abc1234de"));
}

#[test]
fn extract_ver_sha_dev_no_sha() {
    let (ver, sha) = extract_ver_sha("0.14.0-dev.321");
    assert_eq!(ver, "0.14.0");
    assert!(sha.is_none());
}

// ── wildcard prefixes ───────────────────────────────────────────

#[test]
fn version_prefix_strips_wildcards() {
    assert_eq!(version_prefix("0.13.x"), "0.13");
    assert_eq!(version_prefix("0.x.x"), "0");
    assert_eq!(version_prefix("0.13.X"), "0.13");
    assert_eq!(version_prefix("0.13.x.X"), "0.13.x");
    assert_eq!(version_prefix("0.13.0"), "0.13.0");
}

// ── cache lookups around resolution ─────────────────────────────

#[test]
fn download_only_skips_if_already_cached() {
    let entries = vec![cached("0.13.0")];
    assert_eq!(find_cached_for_label("0.13.0", &entries), Some("0.13.0".to_string()));
}

#[test]
fn label_lookup_handles_whitespace_and_wildcards() {
    let entries = vec![cached("0.13.0")];
    assert_eq!(find_cached_for_label("  0.13.x \n", &entries), Some("0.13.0".to_string()));
}

#[test]
fn label_lookup_never_serves_aliases() {
    let entries = vec![cached("master"), cached("latest")];
    assert!(find_cached_for_label("master", &entries).is_none());
    assert!(find_cached_for_label("latest", &entries).is_none());
}

#[test]
fn label_lookup_by_sha() {
    let entries = vec![cached("0.14.0+abc1234de")];
    assert_eq!(find_cached_for_label("abc1234de5", &entries), Some("0.14.0+abc1234de".to_string()));
}

#[test]
fn release_lookup_requires_matching_sha() {
    let entries = vec![cached("0.14.0+abc1234de")];
    assert_eq!(
        find_cached_for_release("0.14.0-dev.321+abc1234de5f", &entries),
        Some("0.14.0+abc1234de".to_string())
    );
    assert!(find_cached_for_release("0.14.0-dev.400+fff0000aa", &entries).is_none());
}

#[test]
fn release_lookup_without_sha_accepts_any_key() {
    let entries = vec![cached("0.13.0+abc1234de")];
    assert_eq!(find_cached_for_release("0.13.0", &entries), Some("0.13.0+abc1234de".to_string()));
}

#[test]
fn release_lookup_with_sha_rejects_key_without_sha() {
    let entries = vec![cached("0.14.0")];
    assert!(find_cached_for_release("0.14.0-dev.1+abc1234de", &entries).is_none());
}

// ── version query and cache keys ────────────────────────────────

#[test]
fn parse_version_output_release() {
    assert_eq!(parse_version_output("0.13.0\n"), ("0.13.0".to_string(), None));
}

#[test]
fn parse_version_output_dev_build_keeps_nine_chars() {
    assert_eq!(
        parse_version_output("0.14.0-dev.321+abc1234e5f6\n"),
        ("0.14.0".to_string(), Some("abc1234e5".to_string()))
    );
}

#[test]
fn parse_version_output_short_sha_kept_whole() {
    assert_eq!(
        parse_version_output("0.14.0-dev.1+abc"),
        ("0.14.0".to_string(), Some("abc".to_string()))
    );
}

#[test]
fn parse_version_output_counts_characters_not_bytes() {
    assert_eq!(
        parse_version_output("0.14.0+\u{e9}\u{e9}\u{e9}\u{e9}\u{e9}1"),
        ("0.14.0".to_string(), Some("\u{e9}\u{e9}\u{e9}\u{e9}\u{e9}1".to_string()))
    );
    assert_eq!(
        parse_version_output("0.1+abcdefgh\u{e9}\u{e9}"),
        ("0.1".to_string(), Some("abcdefgh\u{e9}".to_string()))
    );
}

#[test]
fn parse_version_output_empty_gives_empty_key() {
    assert_eq!(parse_version_output(""), (String::new(), None));
    assert_eq!(parse_version_output(" \n"), (String::new(), None));
}

#[test]
fn cache_key_joins_version_and_sha() {
    assert_eq!(cache_key("0.14.0", Some("abc1234e5")), "0.14.0+abc1234e5");
    assert_eq!(cache_key("0.13.0", None), "0.13.0");
}

#[test]
fn cache_key_sha_reads_back_queried_sha() {
    let (ver, sha) = parse_version_output("0.14.0-dev.321+abc1234e5f6");
    let key = cache_key(&ver, sha.as_deref());
    assert_eq!(zvm::cache::cache_key_sha(&key), Some("abc1234e5"));
}

// ── activation and removal ──────────────────────────────────────

#[test]
fn activation_skipped_when_already_active() {
    assert!(!needs_activation(Some("0.13.0"), "0.13.0"));
    assert!(needs_activation(Some("0.12.0"), "0.13.0"));
    assert!(needs_activation(None, "0.13.0"));
}

#[test]
fn removal_target_prefers_exact_then_sha_then_prefix() {
    let entries = vec![cached("0.13.0"), cached("0.14.0+abc1234de")];
    assert_eq!(removal_target("0.13.0", true, &entries), Some("0.13.0".to_string()));
    assert_eq!(removal_target("abc1234d", false, &entries), Some("0.14.0+abc1234de".to_string()));
    assert_eq!(removal_target("0.13", false, &entries), Some("0.13.0".to_string()));
    assert_eq!(removal_target("0.12", false, &entries), None);
}

use zvm::list::{default_index, format_items, format_versions, remote_lines, removal_items};
use zvm::releases::ReleaseInfo;

#[test]
fn format_no_active() {
    let versions = ["0.13.0".to_string(), "0.12.0".to_string()];
    let lines = format_versions(&versions, None);
    assert_eq!(lines, vec!["  0.13.0", "  0.12.0"]);
}

#[test]
fn format_with_active() {
    let versions = ["0.13.0".to_string(), "0.12.0".to_string()];
    let lines = format_versions(&versions, Some("0.13.0"));
    assert_eq!(lines, vec!["  0.13.0 (active)", "  0.12.0"]);
}

#[test]
fn format_items_no_active() {
    let versions = ["0.13.0".to_string(), "0.12.0".to_string()];
    let items = format_items(&versions, None);
    assert_eq!(items, vec!["0.13.0", "0.12.0"]);
}

#[test]
fn format_items_marks_active() {
    let versions = ["0.13.0".to_string(), "0.12.0".to_string()];
    let items = format_items(&versions, Some("0.13.0"));
    assert_eq!(items[0], "0.13.0 *");
    assert_eq!(items[1], "0.12.0");
}

#[test]
fn default_index_for_active_version() {
    let versions = [
        "0.13.0".to_string(),
        "0.12.0".to_string(),
        "0.11.0".to_string(),
    ];
    let active = Some("0.12.0".to_string());
    let idx = default_index(&versions, active.as_deref());
    assert_eq!(idx, 1);
}

#[test]
fn default_index_falls_back_to_zero_when_no_active() {
    let versions = ["0.13.0".to_string()];
    let idx = default_index(&versions, None::<String>.as_deref());
    assert_eq!(idx, 0);
}

#[test]
fn default_index_falls_back_to_zero_when_active_not_listed() {
    let versions = ["0.13.0".to_string(), "0.12.0".to_string()];
    assert_eq!(default_index(&versions, Some("0.11.0")), 0);
}

#[test]
fn removal_items_mark_active() {
    let versions = ["0.13.0".to_string(), "0.12.0".to_string()];
    assert_eq!(removal_items(&versions, Some("0.12.0")), vec!["0.13.0", "0.12.0  (active)"]);
}

#[test]
fn remote_lines_show_master_with_version() {
    let releases = [
        ReleaseInfo { version: "0.14.0-dev.1+abc".to_string(), tarball_url: String::new(), is_master: true },
        ReleaseInfo { version: "0.13.0".to_string(), tarball_url: String::new(), is_master: false },
    ];
    assert_eq!(remote_lines(&releases), vec!["  master  (0.14.0-dev.1+abc)", "  0.13.0"]);
}

#[test]
fn list_local_works_with_empty_cache() {
    let versions: Vec<String> = zvm::cache::cached_versions(&[]);
    assert!(format_versions(&versions, None).is_empty());
}

#[test]
fn list_local_works_with_versions() {
    let entries = vec![zvm::cache::CacheEntry {
        name: Some("0.13.0".to_string()),
        is_dir: true,
        has_binary: false,
        modified: 0,
    }];
    let versions = zvm::cache::cached_versions(&entries);
    assert_eq!(format_versions(&versions, None), vec!["  0.13.0"]);
}

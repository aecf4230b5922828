use zvm::cache::{prune_plan, CacheEntry, PruneStep};
use zvm::flow::{start, step, Action, FlowEvent, FlowState, Mode, Outcome};
use zvm::paths::{which, zig_binary};
use zvm::releases::ReleaseInfo;

fn cached(tag: &str) -> CacheEntry {
    CacheEntry { name: Some(tag.to_string()), is_dir: true, has_binary: true, modified: 0 }
}

fn release(version: &str) -> ReleaseInfo {
    ReleaseInfo { version: version.to_string(), tarball_url: format!("https://x/{version}.tar.xz"), is_master: false }
}

fn run_to_resolve(mode: Mode, label: &str, entries: Vec<CacheEntry>) -> (FlowState, Action) {
    let (state, action) = start(label);
    assert!(matches!(action, Action::ListCache));
    step(mode, state, FlowEvent::CacheListed(entries))
}

#[test]
fn fetch_skips_download_when_already_cached() {
    let (state, action) = run_to_resolve(Mode::Fetch, "0.13.0", vec![cached("0.13.0")]);
    assert!(matches!(state, FlowState::Done));
    assert!(matches!(action, Action::Finish(Outcome::AlreadyCached(k)) if k == "0.13.0"));
}

#[test]
fn install_uses_cached_version_without_network() {
    let (_, action) = run_to_resolve(Mode::Install, "0.13", vec![cached("0.13.0")]);
    assert!(matches!(action, Action::Finish(Outcome::Use(k)) if k == "0.13.0"));
}

#[test]
fn install_downloads_queries_and_renames() {
    let (s, a) = run_to_resolve(Mode::Install, " master ", vec![]);
    assert!(matches!(&a, Action::Resolve(l) if l == "master"));
    let (s, a) = step(Mode::Install, s, FlowEvent::Resolved(release("0.14.0-dev.3+abcdef123456")));
    assert!(matches!(a, Action::ListCache));
    let (s, a) = step(Mode::Install, s, FlowEvent::CacheListed(vec![]));
    assert!(matches!(&a, Action::CheckBinary(v) if v == "0.14.0-dev.3+abcdef123456"));
    let (s, a) = step(Mode::Install, s, FlowEvent::BinaryCached(false));
    assert!(matches!(&a, Action::Download { url, version } if url == "https://x/0.14.0-dev.3+abcdef123456.tar.xz" && version == "0.14.0-dev.3+abcdef123456"));
    let (s, a) = step(Mode::Install, s, FlowEvent::Downloaded);
    assert!(matches!(&a, Action::Query(_)));
    let (s, a) = step(
        Mode::Install,
        s,
        FlowEvent::Queried(Some(("0.14.0".to_string(), Some("abcdef123".to_string())))),
    );
    assert!(matches!(&a, Action::Rename { from, to } if from == "0.14.0-dev.3+abcdef123456" && to == "0.14.0+abcdef123"));
    let (s, a) = step(Mode::Install, s, FlowEvent::Renamed);
    assert!(matches!(s, FlowState::Done));
    assert!(matches!(a, Action::Finish(Outcome::Use(k)) if k == "0.14.0+abcdef123"));
}

#[test]
fn run_uses_release_version_when_query_fails() {
    let (s, _) = run_to_resolve(Mode::Run, "latest", vec![]);
    let (s, _) = step(Mode::Run, s, FlowEvent::Resolved(release("0.13.0")));
    let (s, _) = step(Mode::Run, s, FlowEvent::CacheListed(vec![]));
    let (s, a) = step(Mode::Run, s, FlowEvent::BinaryCached(true));
    assert!(matches!(&a, Action::Query(v) if v == "0.13.0"));
    let (_, a) = step(Mode::Run, s, FlowEvent::Queried(None));
    assert!(matches!(a, Action::Finish(Outcome::Use(k)) if k == "0.13.0"));
}

#[test]
fn fetch_reports_cached_binary_and_finishes_after_download() {
    let (s, _) = run_to_resolve(Mode::Fetch, "stable", vec![]);
    let (s, _) = step(Mode::Fetch, s, FlowEvent::Resolved(release("0.13.0")));
    let (s2, _) = step(Mode::Fetch, s, FlowEvent::CacheListed(vec![]));
    let (_, a) = step(Mode::Fetch, s2, FlowEvent::BinaryCached(true));
    assert!(matches!(a, Action::Finish(Outcome::AlreadyCached(k)) if k == "0.13.0"));

    let (s, _) = run_to_resolve(Mode::Fetch, "stable", vec![]);
    let (s, _) = step(Mode::Fetch, s, FlowEvent::Resolved(release("0.13.0")));
    let (s, _) = step(Mode::Fetch, s, FlowEvent::CacheListed(vec![]));
    let (s, _) = step(Mode::Fetch, s, FlowEvent::BinaryCached(false));
    let (s, _) = step(Mode::Fetch, s, FlowEvent::Downloaded);
    let (_, a) = step(Mode::Fetch, s, FlowEvent::Queried(Some(("0.13.0".to_string(), None))));
    assert!(matches!(a, Action::Finish(Outcome::Fetched)));
}

#[test]
fn post_resolve_cache_hit_ends_command() {
    let (s, _) = run_to_resolve(Mode::Install, "latest", vec![]);
    let (s, _) = step(Mode::Install, s, FlowEvent::Resolved(release("0.14.0-dev.3+abcdef123456")));
    let (_, a) = step(Mode::Install, s, FlowEvent::CacheListed(vec![cached("0.14.0+abcdef123")]));
    assert!(matches!(a, Action::Finish(Outcome::Use(k)) if k == "0.14.0+abcdef123"));
}

#[test]
fn which_prints_binary_path() {
    let path = zig_binary("/tmp/zcache", "0.13.0", "linux");
    let out = which(path, true, "0.13.0").unwrap();
    assert!(out.contains("0.13.0") && out.contains("zig"));
}

#[test]
fn which_fails_when_not_cached() {
    let path = zig_binary("/tmp/zcache", "0.13.0", "linux");
    assert!(which(path, false, "0.13.0").is_err());
}

#[test]
fn ls_empty_cache_reports_none() {
    let versions = zvm::cache::cached_versions(&[]);
    let stdout = zvm::list::local_listing(&versions, None).join("\n");
    assert!(stdout.contains("No cached Zig versions found."), "unexpected output: {stdout}");
}

#[test]
fn ls_shows_cached_version() {
    let versions = zvm::cache::cached_versions(&[cached("0.13.0")]);
    let stdout = zvm::list::local_listing(&versions, None).join("\n");
    assert!(stdout.contains("0.13.0"), "unexpected output: {stdout}");
}

#[test]
fn ls_marks_active_version() {
    let versions = zvm::cache::cached_versions(&[cached("0.13.0")]);
    let active = zvm::paths::active_version(Some("0.13.0"));
    let stdout = zvm::list::local_listing(&versions, active.as_deref()).join("\n");
    assert!(stdout.contains("(active)"), "unexpected output: {stdout}");
}

#[test]
fn ls_output_lines_exactly() {
    assert_eq!(
        zvm::list::local_listing(&[], None),
        vec!["No cached Zig versions found.", "Run `z install <version>` to install one."]
    );
    let versions = vec!["0.13.0".to_string(), "0.12.0".to_string()];
    assert_eq!(
        zvm::list::local_listing(&versions, Some("0.12.0")),
        vec!["Cached Zig versions:", "  0.13.0", "  0.12.0 (active)"]
    );
    assert_eq!(
        zvm::list::empty_picker_notice(),
        vec!["No cached Zig versions found.", "Run `z install <version>` or `z ls-remote` to get started."]
    );
}

#[test]
fn prune_removes_inactive_keeps_active() {
    let entries = vec![cached("0.12.0"), cached("0.13.0")];
    let plan = prune_plan(&entries, &Some("0.13.0".to_string()), false);
    assert_eq!(plan, vec![PruneStep::Remove, PruneStep::KeepActive]);
}

#[test]
fn prune_force_removes_all_including_active() {
    let entries = vec![cached("0.12.0"), cached("0.13.0")];
    let plan = prune_plan(&entries, &Some("0.13.0".to_string()), true);
    assert_eq!(plan, vec![PruneStep::Remove, PruneStep::Remove]);
}

#[test]
fn every_action_is_answered_until_finish() {
    // Answer each action with an event of the kind it asks for.
    let (mut s, mut a) = start("0.13");
    let mut steps = 0;
    loop {
        let e = match &a {
            Action::ListCache => FlowEvent::CacheListed(vec![]),
            Action::Resolve(_) => FlowEvent::Resolved(release("0.13.1")),
            Action::CheckBinary(_) => FlowEvent::BinaryCached(false),
            Action::Download { .. } => FlowEvent::Downloaded,
            Action::Query(_) => FlowEvent::Queried(Some(("0.13.1".to_string(), None))),
            Action::Rename { .. } => FlowEvent::Renamed,
            Action::Finish(_) => break,
        };
        let next = step(Mode::Install, s, e);
        s = next.0;
        a = next.1;
        steps += 1;
    }
    assert!(matches!(s, FlowState::Done));
    assert!(matches!(a, Action::Finish(Outcome::Use(k)) if k == "0.13.1"));
    assert_eq!(steps, 6);
}

#[test]
fn empty_version_report_keeps_release_key() {
    let (s, _) = run_to_resolve(Mode::Install, "0.13", vec![]);
    let (s, _) = step(Mode::Install, s, FlowEvent::Resolved(release("0.13.0")));
    let (s, _) = step(Mode::Install, s, FlowEvent::CacheListed(vec![]));
    let (s, _) = step(Mode::Install, s, FlowEvent::BinaryCached(false));
    let (s, _) = step(Mode::Install, s, FlowEvent::Downloaded);
    let (s, a) = step(Mode::Install, s, FlowEvent::Queried(Some((String::new(), None))));
    assert!(matches!(s, FlowState::Done));
    assert!(matches!(a, Action::Finish(Outcome::Use(k)) if k == "0.13.0"));
}

//! The install, fetch and run commands as a state machine. Each step takes
//! what the last outside action produced (a cache listing, a resolved
//! release, whether a binary exists, ...) and decides the next action; the
//! caller performs the actions (file system, network, processes).

use vstd::prelude::*;
use vstd::string::*;
use crate::cache::CacheEntry;
use crate::install::{
    cache_key, cached_after_resolve, cached_before_resolve, find_cached_for_label,
    find_cached_for_release, key_for,
};
use crate::releases::ReleaseInfo;
use crate::text::{str_eq, trim, trimmed};

verus! {

/// Which command runs.
#[derive(Debug, Clone, Copy, PartialEq, Eq, Structural)]
pub enum Mode {
    /// Install a version and make it the active one.
    Install,
    /// Put a version into the cache without activating it.
    Fetch,
    /// Run a version.
    Run,
}

/// Where a command stands.
#[derive(Debug)]
pub enum FlowState {
    /// Nothing done yet for this label.
    Start(String),
    /// The cache did not serve the label; waiting for it to be resolved.
    AwaitRelease(String),
    /// Resolved to (version, tarball URL); waiting for a cache listing.
    CheckRelease(String, String),
    /// Waiting to learn whether the version's binary is cached.
    AwaitCheck(String, String),
    /// Waiting for the download of the version to finish.
    AwaitDownload(String),
    /// Waiting for the version that the installed binary reports.
    AwaitQuery(String),
    /// Waiting for the cache entry to be renamed to this key.
    AwaitRename(String),
    /// Finished.
    Done,
}

/// What an outside action produced.
#[derive(Debug)]
pub enum FlowEvent {
    /// The entries of the cache directory.
    CacheListed(Vec<CacheEntry>),
    /// The label resolved to this release.
    Resolved(ReleaseInfo),
    /// Whether the binary of the version is cached.
    BinaryCached(bool),
    /// The download finished.
    Downloaded,
    /// What the binary reports as its version and SHA; `None` when it could not be run.
    Queried(Option<(String, Option<String>)>),
    /// The cache entry was renamed.
    Renamed,
}

/// How a command ends.
#[derive(Debug)]
pub enum Outcome {
    /// Install activates, and run runs, the version cached under this key.
    Use(String),
    /// Fetch found the version already cached under this key.
    AlreadyCached(String),
    /// Fetch downloaded the version.
    Fetched,
}

/// What the caller does next.
#[derive(Debug)]
pub enum Action {
    /// List the cache directory (answer: `CacheListed`).
    ListCache,
    /// Resolve this label against the download index (answer: `Resolved`).
    Resolve(String),
    /// Tell whether the binary of this version is cached (answer: `BinaryCached`).
    CheckBinary(String),
    /// Download and unpack the archive at `url` as `version` (answer: `Downloaded`).
    Download { url: String, version: String },
    /// Ask the binary of this version for its version (answer: `Queried`).
    Query(String),
    /// Rename the cache entry `from` to `to` (answer: `Renamed`).
    Rename { from: String, to: String },
    /// The command is over.
    Finish(Outcome),
}

pub enum StateView {
    Start(Seq<char>),
    AwaitRelease(Seq<char>),
    CheckRelease(Seq<char>, Seq<char>),
    AwaitCheck(Seq<char>, Seq<char>),
    AwaitDownload(Seq<char>),
    AwaitQuery(Seq<char>),
    AwaitRename(Seq<char>),
    Done,
}

pub enum OutcomeView {
    Use(Seq<char>),
    AlreadyCached(Seq<char>),
    Fetched,
}

pub enum ActionView {
    ListCache,
    Resolve(Seq<char>),
    CheckBinary(Seq<char>),
    Download(Seq<char>, Seq<char>),
    Query(Seq<char>),
    Rename(Seq<char>, Seq<char>),
    Finish(OutcomeView),
}

impl View for FlowState {
    type V = StateView;

    open spec fn view(&self) -> StateView {
        match self {
            FlowState::Start(l) => StateView::Start(l@),
            FlowState::AwaitRelease(l) => StateView::AwaitRelease(l@),
            FlowState::CheckRelease(v, u) => StateView::CheckRelease(v@, u@),
            FlowState::AwaitCheck(v, u) => StateView::AwaitCheck(v@, u@),
            FlowState::AwaitDownload(v) => StateView::AwaitDownload(v@),
            FlowState::AwaitQuery(v) => StateView::AwaitQuery(v@),
            FlowState::AwaitRename(k) => StateView::AwaitRename(k@),
            FlowState::Done => StateView::Done,
        }
    }
}

impl View for Outcome {
    type V = OutcomeView;

    open spec fn view(&self) -> OutcomeView {
        match self {
            Outcome::Use(k) => OutcomeView::Use(k@),
            Outcome::AlreadyCached(k) => OutcomeView::AlreadyCached(k@),
            Outcome::Fetched => OutcomeView::Fetched,
        }
    }
}

impl View for Action {
    type V = ActionView;

    open spec fn view(&self) -> ActionView {
        match self {
            Action::ListCache => ActionView::ListCache,
            Action::Resolve(l) => ActionView::Resolve(l@),
            Action::CheckBinary(v) => ActionView::CheckBinary(v@),
            Action::Download { url, version } => ActionView::Download(url@, version@),
            Action::Query(v) => ActionView::Query(v@),
            Action::Rename { from, to } => ActionView::Rename(from@, to@),
            Action::Finish(o) => ActionView::Finish(o@),
        }
    }
}

/// The event answers the action that led to the state.
pub open spec fn answers(s: StateView, e: FlowEvent) -> bool {
    match (s, e) {
        (StateView::Start(_), FlowEvent::CacheListed(_)) => true,
        (StateView::AwaitRelease(_), FlowEvent::Resolved(_)) => true,
        (StateView::CheckRelease(_, _), FlowEvent::CacheListed(_)) => true,
        (StateView::AwaitCheck(_, _), FlowEvent::BinaryCached(_)) => true,
        (StateView::AwaitDownload(_), FlowEvent::Downloaded) => true,
        (StateView::AwaitQuery(_), FlowEvent::Queried(_)) => true,
        (StateView::AwaitRename(_), FlowEvent::Renamed) => true,
        _ => false,
    }
}

/// How a command ends when the cache already serves key `k`.
pub open spec fn found(mode: Mode, k: Seq<char>) -> OutcomeView {
    if mode == Mode::Fetch {
        OutcomeView::AlreadyCached(k)
    } else {
        OutcomeView::Use(k)
    }
}

/// How a command ends once the version is cached under key `k` after a download or query.
pub open spec fn completed(mode: Mode, k: Seq<char>) -> OutcomeView {
    if mode == Mode::Fetch {
        OutcomeView::Fetched
    } else {
        OutcomeView::Use(k)
    }
}

/// The key reported by a queried binary; none when it could not be run or
/// reported no version (an empty key would name the cache root itself).
pub open spec fn queried_key(q: Option<(String, Option<String>)>) -> Option<Seq<char>> {
    match q {
        Some((v, sha)) => if v@.len() > 0 {
            Some(key_for(v@, match sha {
                Some(s) => Some(s@),
                None => None,
            }))
        } else {
            None
        },
        None => None,
    }
}

/// One step of install, fetch or run.
///
/// A label served by the cache before resolving (a cached SHA or version
/// prefix) ends the command at once. Otherwise the label (trimmed) is
/// resolved; a cached build compatible with the release ends it too.
/// Otherwise, if the release's binary is not cached it is downloaded (fetch
/// ends with "already cached" when it is). The binary is then asked for its
/// version; when the key it reports differs from the release's version the
/// cache entry is renamed to it. Install and run then use that key (the
/// release's version when the binary could not be asked or reported no
/// version); fetch ends.
pub open spec fn transition(mode: Mode, s: StateView, e: FlowEvent) -> (StateView, ActionView) {
    match (s, e) {
        (StateView::Start(label), FlowEvent::CacheListed(es)) => match cached_before_resolve(label, es@) {
            Some(k) => (StateView::Done, ActionView::Finish(found(mode, k@))),
            None => (StateView::AwaitRelease(trimmed(label)), ActionView::Resolve(trimmed(label))),
        },
        (StateView::AwaitRelease(_), FlowEvent::Resolved(rel)) => (
            StateView::CheckRelease(rel.version@, rel.tarball_url@),
            ActionView::ListCache,
        ),
        (StateView::CheckRelease(raw, url), FlowEvent::CacheListed(es)) => match cached_after_resolve(raw, es@) {
            Some(k) => (StateView::Done, ActionView::Finish(found(mode, k@))),
            None => (StateView::AwaitCheck(raw, url), ActionView::CheckBinary(raw)),
        },
        (StateView::AwaitCheck(raw, url), FlowEvent::BinaryCached(cached)) => if !cached {
            (StateView::AwaitDownload(raw), ActionView::Download(url, raw))
        } else if mode == Mode::Fetch {
            (StateView::Done, ActionView::Finish(OutcomeView::AlreadyCached(raw)))
        } else {
            (StateView::AwaitQuery(raw), ActionView::Query(raw))
        },
        (StateView::AwaitDownload(raw), FlowEvent::Downloaded) => (StateView::AwaitQuery(raw), ActionView::Query(raw)),
        (StateView::AwaitQuery(raw), FlowEvent::Queried(q)) => match queried_key(q) {
            Some(k) => if k != raw {
                (StateView::AwaitRename(k), ActionView::Rename(raw, k))
            } else {
                (StateView::Done, ActionView::Finish(completed(mode, k)))
            },
            None => (StateView::Done, ActionView::Finish(completed(mode, raw))),
        },
        (StateView::AwaitRename(k), FlowEvent::Renamed) => (StateView::Done, ActionView::Finish(completed(mode, k))),
        _ => (StateView::Done, ActionView::Finish(OutcomeView::Fetched)),
    }
}

fn found_outcome(mode: Mode, k: String) -> (r: Outcome)
    ensures
        r@ == found(mode, k@),
{
    match mode {
        Mode::Fetch => Outcome::AlreadyCached(k),
        _ => Outcome::Use(k),
    }
}

fn completed_outcome(mode: Mode, k: String) -> (r: Outcome)
    ensures
        r@ == completed(mode, k@),
{
    match mode {
        Mode::Fetch => Outcome::Fetched,
        _ => Outcome::Use(k),
    }
}

/// The first action of a command for `label`: list the cache.
pub fn start(label: &str) -> (r: (FlowState, Action))
    ensures
        r.0@ == StateView::Start(label@),
        r.1@ == ActionView::ListCache,
{
    (FlowState::Start(String::from_str(label)), Action::ListCache)
}

/// Decides the next state and action (see `transition`).
pub fn step(mode: Mode, state: FlowState, event: FlowEvent) -> (r: (FlowState, Action))
    requires
        answers(state@, event),
    ensures
        (r.0@, r.1@) == transition(mode, state@, event),
{
    match (state, event) {
        (FlowState::Start(label), FlowEvent::CacheListed(es)) => match find_cached_for_label(label.as_str(), es.as_slice()) {
            Some(k) => (FlowState::Done, Action::Finish(found_outcome(mode, k))),
            None => {
                let v = trim(label.as_str());
                (FlowState::AwaitRelease(String::from_str(v)), Action::Resolve(String::from_str(v)))
            },
        },
        (FlowState::AwaitRelease(_), FlowEvent::Resolved(rel)) => (
            FlowState::CheckRelease(rel.version, rel.tarball_url),
            Action::ListCache,
        ),
        (FlowState::CheckRelease(raw, url), FlowEvent::CacheListed(es)) => match find_cached_for_release(raw.as_str(), es.as_slice()) {
            Some(k) => (FlowState::Done, Action::Finish(found_outcome(mode, k))),
            None => {
                let r2 = raw.clone();
                (FlowState::AwaitCheck(raw, url), Action::CheckBinary(r2))
            },
        },
        (FlowState::AwaitCheck(raw, url), FlowEvent::BinaryCached(cached)) => if !cached {
            let r2 = raw.clone();
            (FlowState::AwaitDownload(raw), Action::Download { url, version: r2 })
        } else {
            match mode {
                Mode::Fetch => (FlowState::Done, Action::Finish(Outcome::AlreadyCached(raw))),
                _ => {
                    let r2 = raw.clone();
                    (FlowState::AwaitQuery(raw), Action::Query(r2))
                },
            }
        },
        (FlowState::AwaitDownload(raw), FlowEvent::Downloaded) => {
            let r2 = raw.clone();
            (FlowState::AwaitQuery(raw), Action::Query(r2))
        },
        (FlowState::AwaitQuery(raw), FlowEvent::Queried(q)) => {
            let key = match &q {
                Some((v, sha)) => if v.unicode_len() > 0 {
                    Some(cache_key(v.as_str(), match sha {
                        Some(s) => Some(s.as_str()),
                        None => None,
                    }))
                } else {
                    None
                },
                None => None,
            };
            match key {
                Some(k) => if !str_eq(k.as_str(), raw.as_str()) {
                    let k2 = k.clone();
                    (FlowState::AwaitRename(k), Action::Rename { from: raw, to: k2 })
                } else {
                    (FlowState::Done, Action::Finish(completed_outcome(mode, k)))
                },
                None => (FlowState::Done, Action::Finish(completed_outcome(mode, raw))),
            }
        },
        (FlowState::AwaitRename(k), FlowEvent::Renamed) => (FlowState::Done, Action::Finish(completed_outcome(mode, k))),
        _ => (FlowState::Done, Action::Finish(Outcome::Fetched)),
    }
}

/// How many steps at most remain from a state.
pub open spec fn steps_left(s: StateView) -> nat {
    match s {
        StateView::Start(_) => 7,
        StateView::AwaitRelease(_) => 6,
        StateView::CheckRelease(_, _) => 5,
        StateView::AwaitCheck(_, _) => 4,
        StateView::AwaitDownload(_) => 3,
        StateView::AwaitQuery(_) => 2,
        StateView::AwaitRename(_) => 1,
        StateView::Done => 0,
    }
}

/// Every command ends: each step moves closer to `Done`, and a step ends in
/// `Done` exactly when its action is `Finish`.
pub proof fn every_step_progresses(mode: Mode, s: StateView, e: FlowEvent)
    requires
        answers(s, e),
    ensures
        steps_left(transition(mode, s, e).0) < steps_left(s),
        (transition(mode, s, e).0 is Done) <==> (transition(mode, s, e).1 is Finish),
{
}

/// `e` is the kind of event that action `a` asks for.
pub open spec fn asked_by(a: ActionView, e: FlowEvent) -> bool {
    match (a, e) {
        (ActionView::ListCache, FlowEvent::CacheListed(_)) => true,
        (ActionView::Resolve(_), FlowEvent::Resolved(_)) => true,
        (ActionView::CheckBinary(_), FlowEvent::BinaryCached(_)) => true,
        (ActionView::Download(_, _), FlowEvent::Downloaded) => true,
        (ActionView::Query(_), FlowEvent::Queried(_)) => true,
        (ActionView::Rename(_, _), FlowEvent::Renamed) => true,
        _ => false,
    }
}

/// The first action of a command can always be answered: any cache listing
/// is an event that the start state admits.
pub proof fn start_is_answerable(label: Seq<char>, e: FlowEvent)
    requires
        asked_by(ActionView::ListCache, e),
    ensures
        answers(StateView::Start(label), e),
{
}

/// Every action that a step asks for can be answered: whatever event of the
/// kind the action names the caller hands back, the next step admits it.
/// Only a finished command asks for nothing.
pub proof fn actions_are_answerable(mode: Mode, s: StateView, e: FlowEvent, next: FlowEvent)
    requires
        answers(s, e),
        asked_by(transition(mode, s, e).1, next),
    ensures
        answers(transition(mode, s, e).0, next),
{
}

/// Asking the binary never yields an empty cache key: when the release's
/// version is not empty, the step after the query renames to, or uses, a
/// key that is not empty (a binary that reports no version leaves the
/// release's version in place).
pub proof fn query_never_yields_empty_key(mode: Mode, raw: Seq<char>, q: Option<(String, Option<String>)>)
    requires
        raw.len() > 0,
    ensures
        match transition(mode, StateView::AwaitQuery(raw), FlowEvent::Queried(q)) {
            (StateView::AwaitRename(k), ActionView::Rename(from, to)) => k.len() > 0 && to == k && from == raw,
            (StateView::Done, ActionView::Finish(OutcomeView::Use(k))) => k.len() > 0,
            (StateView::Done, ActionView::Finish(OutcomeView::Fetched)) => mode == Mode::Fetch,
            _ => false,
        },
{
}

/// A label that the cache serves before resolving ends the command in its
/// first step, without any network access.
pub proof fn cached_label_needs_no_resolution(mode: Mode, label: Seq<char>, es: Vec<CacheEntry>)
    requires
        cached_before_resolve(label, es@) is Some,
    ensures
        transition(mode, StateView::Start(label), FlowEvent::CacheListed(es)).1
            == ActionView::Finish(found(mode, cached_before_resolve(label, es@)->0@)),
{
}

/// Fetch never activates or runs anything.
pub proof fn fetch_never_uses(s: StateView, e: FlowEvent)
    ensures
        !(transition(Mode::Fetch, s, e).1 matches ActionView::Finish(OutcomeView::Use(_))),
{
}

/// A version whose binary is not cached is downloaded before anything is done with it.
pub proof fn missing_binary_is_downloaded(mode: Mode, raw: Seq<char>, url: Seq<char>)
    ensures
        transition(mode, StateView::AwaitCheck(raw, url), FlowEvent::BinaryCached(false))
            == (StateView::AwaitDownload(raw), ActionView::Download(url, raw)),
{
}

/// Install and run always end by using a version: whenever a step of either
/// finishes the command, the outcome is `Use` of some key; only fetch ends
/// with "already cached" or "fetched".
pub proof fn install_and_run_end_in_use(mode: Mode, s: StateView, e: FlowEvent)
    requires
        mode != Mode::Fetch,
        answers(s, e),
        transition(mode, s, e).1 is Finish,
    ensures
        transition(mode, s, e).1 matches ActionView::Finish(OutcomeView::Use(_)),
{
}

/// A cache hit ends the command with the cached key: install and run use
/// it, fetch reports it as already cached. This holds for a hit before
/// resolving (on the label) and after resolving (on the release).
pub proof fn cache_hit_ends_with_its_key(mode: Mode, label: Seq<char>, raw: Seq<char>, url: Seq<char>, es: Vec<CacheEntry>)
    ensures
        cached_before_resolve(label, es@) matches Some(k) ==> transition(
            mode,
            StateView::Start(label),
            FlowEvent::CacheListed(es),
        ) == (StateView::Done, ActionView::Finish(
            if mode == Mode::Fetch { OutcomeView::AlreadyCached(k@) } else { OutcomeView::Use(k@) },
        )),
        cached_after_resolve(raw, es@) matches Some(k) ==> transition(
            mode,
            StateView::CheckRelease(raw, url),
            FlowEvent::CacheListed(es),
        ) == (StateView::Done, ActionView::Finish(
            if mode == Mode::Fetch { OutcomeView::AlreadyCached(k@) } else { OutcomeView::Use(k@) },
        )),
{
}

} // verus!

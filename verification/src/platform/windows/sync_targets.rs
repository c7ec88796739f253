//! The windows that a running mirror reaches: the target handles resolved when sync starts,
//! targets dropped while it runs, and the dispatch mode chosen for each target.
use std::collections::HashSet;
use vstd::prelude::*;
use crate::models::{DispatchMode, SessionConfig, SessionConfigView};
use crate::platform::windows::{handle_of_id, parse_hwnd, HandleParseError, IntErrorKind};
use crate::platform::windows::runtime_report::{log_target_removed, target_removed_log, ThrottledLog};
use crate::text::{chars_of, contains_seq, push_char, str_contains, to_lowercase, unicode_lowercase};

verus! {

broadcast use {vstd::seq_lib::group_seq_properties, vstd::std_specs::hash::group_hash_axioms};

/// Why input sync could not start.
#[derive(Debug, PartialEq, Eq)]
pub enum SyncStartError {
    /// A window id of the session is not a native handle.
    InvalidHandle(HandleParseError),
    /// The primary window of the session (its id given) no longer exists.
    PrimaryInvalid(String),
    /// None of the target windows exists.
    NoLiveTargets,
}

impl SyncStartError {
    /// The text shown for this error.
    pub fn message(&self) -> (m: String)
        ensures
            match self {
                SyncStartError::InvalidHandle(e) => m@ == "Invalid native window handle '"@ + e.window_id@
                    + "': "@ + crate::platform::windows::int_error_text(e.kind),
                SyncStartError::PrimaryInvalid(id) => m@ == "Primary window for session '"@ + id@
                    + "' is no longer valid."@,
                SyncStartError::NoLiveTargets => m@ == "No live target windows were available when starting sync."@,
            },
    {
        match self {
            SyncStartError::InvalidHandle(e) => e.message(),
            SyncStartError::PrimaryInvalid(id) => {
                let mut m = "Primary window for session '".to_owned();
                m.append(id.as_str());
                m.append("' is no longer valid.");
                m
            },
            SyncStartError::NoLiveTargets => "No live target windows were available when starting sync.".to_owned(),
        }
    }
}

/// The windows that a session's input sync reaches.
#[derive(Debug)]
pub struct SyncTargets {
    /// The session's configuration, its target ids reduced to the live windows.
    pub config: SessionConfig,
    pub primary_root: usize,
    /// The live target handles, each once, in the order of the target ids.
    pub target_roots: Vec<usize>,
}

/// Index of the first id, from `k` on, that is not a native handle.
pub open spec fn first_invalid_from(ids: Seq<Seq<char>>, k: int) -> Option<int>
    decreases ids.len() - k,
{
    if k < 0 || k >= ids.len() {
        None
    } else if handle_of_id(ids[k]) is Err {
        Some(k)
    } else {
        first_invalid_from(ids, k + 1)
    }
}

/// The first `n` ids, kept where the window is live.
pub open spec fn live_ids(ids: Seq<Seq<char>>, live: Seq<bool>, n: nat) -> Seq<Seq<char>>
    decreases n,
{
    if n == 0 {
        Seq::empty()
    } else {
        let rest = live_ids(ids, live, (n - 1) as nat);
        if live[n - 1] {
            rest.push(ids[n - 1])
        } else {
            rest
        }
    }
}

/// The handles of the first `n` ids whose window is live, each handle once, in order.
pub open spec fn live_handles(ids: Seq<Seq<char>>, live: Seq<bool>, n: nat) -> Seq<usize>
    decreases n,
{
    if n == 0 {
        Seq::empty()
    } else {
        let rest = live_handles(ids, live, (n - 1) as nat);
        let h = handle_of_id(ids[n - 1])->Ok_0 as usize;
        if live[n - 1] && !rest.contains(h) {
            rest.push(h)
        } else {
            rest
        }
    }
}

/// The failure to start input sync for a session, if any: the primary id is checked first,
/// then whether the primary window lives, then each target id in order, then whether any
/// target window lives. `live[i]` tells whether the window of the `i`th target lives.
pub open spec fn sync_start_error(config: SessionConfigView, primary_live: bool, live: Seq<bool>) -> Option<
    SyncStartErrorView,
> {
    let ids = config.target_window_ids;
    match handle_of_id(config.primary_window_id) {
        Err(k) => Some(SyncStartErrorView::InvalidHandle(config.primary_window_id, k)),
        Ok(_) => if !primary_live {
            Some(SyncStartErrorView::PrimaryInvalid)
        } else {
            match first_invalid_from(ids, 0) {
                Some(i) => Some(SyncStartErrorView::InvalidHandle(ids[i], handle_of_id(ids[i])->Err_0)),
                None => if live_handles(ids, live, ids.len()).len() == 0 {
                    Some(SyncStartErrorView::NoLiveTargets)
                } else {
                    None
                },
            }
        },
    }
}

/// Abstract value of a `SyncStartError` (the session id left out).
pub enum SyncStartErrorView {
    InvalidHandle(Seq<char>, IntErrorKind),
    PrimaryInvalid,
    NoLiveTargets,
}

/// Abstract value of a `SyncStartError`.
pub open spec fn start_error_view(e: SyncStartError) -> SyncStartErrorView {
    match e {
        SyncStartError::InvalidHandle(p) => SyncStartErrorView::InvalidHandle(p.window_id@, p.kind),
        SyncStartError::PrimaryInvalid(_) => SyncStartErrorView::PrimaryInvalid,
        SyncStartError::NoLiveTargets => SyncStartErrorView::NoLiveTargets,
    }
}

/// The resolved targets hold no handle twice, and only handles of live target windows.
pub proof fn lemma_live_handles(ids: Seq<Seq<char>>, live: Seq<bool>, n: nat)
    requires
        n <= ids.len(),
        n <= live.len(),
    ensures
        live_handles(ids, live, n).no_duplicates(),
        forall|h: usize| #[trigger] live_handles(ids, live, n).contains(h) ==> exists|i: int| 0 <= i < n && live[i]
            && handle_of_id(ids[i])->Ok_0 as usize == h,
    decreases n,
{
    if n > 0 {
        let rest = live_handles(ids, live, (n - 1) as nat);
        lemma_live_handles(ids, live, (n - 1) as nat);
        let h = handle_of_id(ids[n - 1])->Ok_0 as usize;
        if live[n - 1] && !rest.contains(h) {
            assert forall|a: int, b: int| 0 <= a < rest.push(h).len() && 0 <= b < rest.push(h).len() && a != b
                implies rest.push(h)[a] != rest.push(h)[b] by {
                if a == rest.len() as int {
                    assert(rest.contains(rest[b]));
                } else if b == rest.len() as int {
                    assert(rest.contains(rest[a]));
                }
            }
            assert forall|x: usize| #[trigger] rest.push(h).contains(x) implies exists|i: int| 0 <= i < n && live[i]
                && handle_of_id(ids[i])->Ok_0 as usize == x by {
                if x == h {
                    assert(live[n - 1] && handle_of_id(ids[n - 1])->Ok_0 as usize == x);
                } else {
                    assert(rest.contains(x)) by {
                        let k = choose|k: int| 0 <= k < rest.push(h).len() && rest.push(h)[k] == x;
                        assert(rest[k] == x);
                    }
                }
            }
        }
    }
}

proof fn lemma_first_invalid_from(ids: Seq<Seq<char>>, k: int)
    requires
        0 <= k,
    ensures
        first_invalid_from(ids, k) matches Some(i) ==> k <= i < ids.len() && handle_of_id(ids[i]) is Err
            && forall|j: int| k <= j < i ==> handle_of_id(#[trigger] ids[j]) is Ok,
        first_invalid_from(ids, k) is None ==> forall|j: int| k <= j < ids.len() ==> handle_of_id(
            #[trigger] ids[j],
        ) is Ok,
    decreases ids.len() - k,
{
    if k < ids.len() {
        lemma_first_invalid_from(ids, k + 1);
    }
}

/// Resolves the windows that input sync of session `session_id` reaches. `primary_live` tells
/// whether the primary window exists, and `live[i]` whether the window of the `i`th target id
/// exists.
pub fn resolve_sync_targets(session_id: &str, config: SessionConfig, primary_live: bool, live: &Vec<bool>)
    -> (r: Result<SyncTargets, SyncStartError>)
    requires
        live@.len() == config.target_window_ids@.len(),
    ensures
        match sync_start_error(config@, primary_live, live@) {
            Some(e) => r matches Err(x) && start_error_view(x) == e && (x matches SyncStartError::PrimaryInvalid(
                id,
            ) ==> id@ == session_id@),
            None => r matches Ok(t) && {
                &&& t.primary_root as nat == handle_of_id(config@.primary_window_id)->Ok_0
                &&& t.target_roots@ == live_handles(config@.target_window_ids, live@,
                    config@.target_window_ids.len())
                &&& t.config@ == SessionConfigView {
                    target_window_ids: live_ids(config@.target_window_ids, live@,
                        config@.target_window_ids.len()),
                    ..config@
                }
            },
        },
{
    let primary_root = match parse_hwnd(config.primary_window_id.as_str()) {
        Ok(h) => h,
        Err(e) => return Err(SyncStartError::InvalidHandle(e)),
    };
    if !primary_live {
        return Err(SyncStartError::PrimaryInvalid(session_id.to_owned()));
    }
    let ghost ids = config@.target_window_ids;
    let mut roots: Vec<usize> = Vec::new();
    let mut kept: Vec<String> = Vec::new();
    let mut i: usize = 0;
    proof {
        lemma_first_invalid_from(ids, 0);
    }
    while i < config.target_window_ids.len()
        invariant
            ids == config@.target_window_ids,
            primary_live,
            primary_root as nat == handle_of_id(config@.primary_window_id)->Ok_0,
            handle_of_id(config@.primary_window_id) is Ok,
            live@.len() == ids.len(),
            i <= ids.len(),
            forall|j: int| 0 <= j < i ==> handle_of_id(#[trigger] ids[j]) is Ok,
            first_invalid_from(ids, 0) matches Some(f) ==> i <= f,
            first_invalid_from(ids, 0) matches Some(f) ==> f < ids.len() && handle_of_id(ids[f]) is Err
                && forall|j: int| 0 <= j < f ==> handle_of_id(#[trigger] ids[j]) is Ok,
            first_invalid_from(ids, 0) is None ==> forall|j: int| 0 <= j < ids.len() ==> handle_of_id(
                #[trigger] ids[j],
            ) is Ok,
            roots@ == live_handles(ids, live@, i as nat),
            kept.deep_view() == live_ids(ids, live@, i as nat),
        decreases ids.len() - i,
    {
        let id = &config.target_window_ids[i];
        assert(id@ == ids[i as int]);
        match parse_hwnd(id.as_str()) {
            Err(e) => {
                proof {
                    if first_invalid_from(ids, 0) is Some {
                        let f = first_invalid_from(ids, 0)->0;
                        assert(f == i);
                    } else {
                        assert(handle_of_id(ids[i as int]) is Ok);
                    }
                }
                return Err(SyncStartError::InvalidHandle(e));
            },
            Ok(h) => {
                if live[i] && !contains_handle(&roots, h) {
                    roots.push(h);
                }
                if live[i] {
                    kept.push(id.clone());
                    assert(kept.deep_view() =~= live_ids(ids, live@, i as nat).push(ids[i as int]));
                }
            },
        }
        i = i + 1;
    }
    assert(first_invalid_from(ids, 0) is None);
    if roots.len() == 0 {
        return Err(SyncStartError::NoLiveTargets);
    }
    let resolved = SessionConfig { target_window_ids: kept, ..config };
    Ok(SyncTargets { config: resolved, primary_root, target_roots: roots })
}

/// Whether `handles` holds `handle`.
pub fn contains_handle(handles: &Vec<usize>, handle: usize) -> (b: bool)
    ensures
        b == handles@.contains(handle),
{
    let mut i: usize = 0;
    while i < handles.len()
        invariant
            i <= handles@.len(),
            forall|j: int| 0 <= j < i ==> handles@[j] != handle,
        decreases handles@.len() - i,
    {
        if handles[i] == handle {
            return true;
        }
        i = i + 1;
    }
    false
}

/// `handles` without `handle`, order kept.
pub open spec fn without_handle(handles: Seq<usize>, handle: usize) -> Seq<usize>
    decreases handles.len(),
{
    if handles.len() == 0 {
        handles
    } else if handles.last() == handle {
        without_handle(handles.drop_last(), handle)
    } else {
        without_handle(handles.drop_last(), handle).push(handles.last())
    }
}

/// Removes `handle` from `handles`; returns whether it was there.
pub fn remove_target(handles: &mut Vec<usize>, handle: usize) -> (removed: bool)
    ensures
        final(handles)@ == without_handle(old(handles)@, handle),
        removed == old(handles)@.contains(handle),
{
    let ghost before = handles@;
    let mut kept: Vec<usize> = Vec::new();
    let mut i: usize = 0;
    while i < handles.len()
        invariant
            handles@ == before,
            i <= before.len(),
            kept@ == without_handle(before.take(i as int), handle),
        decreases before.len() - i,
    {
        let h = handles[i];
        assert(before.take(i + 1).drop_last() == before.take(i as int));
        if h != handle {
            kept.push(h);
        }
        i = i + 1;
    }
    assert(before.take(i as int) == before);
    let removed = kept.len() != handles.len();
    proof {
        if before.contains(handle) {
            let k = choose|k: int| 0 <= k < before.len() && before[k] == handle;
            lemma_filter_shorter(before, handle, k);
        } else {
            lemma_filter_keeps_all(before, handle);
        }
    }
    *handles = kept;
    removed
}

proof fn lemma_filter_keeps_all(s: Seq<usize>, handle: usize)
    requires
        !s.contains(handle),
    ensures
        without_handle(s, handle) == s,
    decreases s.len(),
{
    if s.len() > 0 {
        assert(s == s.drop_last().push(s.last()));
        assert(!s.drop_last().contains(handle)) by {
            if s.drop_last().contains(handle) {
                let k = choose|k: int| 0 <= k < s.drop_last().len() && s.drop_last()[k] == handle;
                assert(s[k] == handle);
            }
        }
        assert(s.last() != handle) by {
            assert(s[s.len() - 1] == s.last());
        }
        lemma_filter_keeps_all(s.drop_last(), handle);
    }
}

proof fn lemma_filter_shorter(s: Seq<usize>, handle: usize, k: int)
    requires
        0 <= k < s.len(),
        s[k] == handle,
    ensures
        without_handle(s, handle).len() < s.len(),
    decreases s.len(),
{
    let d = s.drop_last();
    if k == s.len() - 1 {
        lemma_filter_len(d, handle);
    } else {
        assert(d[k] == handle);
        lemma_filter_shorter(d, handle, k);
    }
}

proof fn lemma_filter_len(s: Seq<usize>, handle: usize)
    ensures
        without_handle(s, handle).len() <= s.len(),
    decreases s.len(),
{
    if s.len() > 0 {
        lemma_filter_len(s.drop_last(), handle);
    }
}

/// Records that `handle` has had its dispatch mode reported; returns whether it had not been
/// before (so that the mode is reported once per target).
pub fn note_dispatch_target(logged: &mut HashSet<usize>, handle: usize) -> (first: bool)
    ensures
        first == !old(logged)@.contains(handle),
        final(logged)@ == old(logged)@.insert(handle),
{
    logged.insert(handle)
}

/// Takes `target` out of mirroring for `reason`: it leaves the targets and, when it was one,
/// the targets whose dispatch mode was reported (so that it is reported again if it returns).
/// Returns the line to write.
pub fn mark_target_unavailable(targets: &mut Vec<usize>, logged: &mut HashSet<usize>, session_id: &str,
    target: usize, reason: &str) -> (l: ThrottledLog)
    ensures
        final(targets)@ == without_handle(old(targets)@, target),
        final(logged)@ == if old(targets)@.contains(target) {
            old(logged)@.remove(target)
        } else {
            old(logged)@
        },
        l@ == target_removed_log(session_id@, target, reason@),
{
    let removed = remove_target(targets, target);
    if removed {
        let _ = logged.remove(&target);
    }
    log_target_removed(session_id, target, reason)
}

/// Window classes or executable names that mark a browser or an ordinary application, which
/// takes window messages.
pub open spec fn browser_indicators() -> Seq<Seq<char>> {
    seq![
        "chrome"@, "firefox"@, "edge"@, "msedge"@, "brave"@, "opera"@, "electron"@, "cef"@, "notepad"@,
        "explorer"@, "code.exe"@, "vscode"@,
    ]
}

/// Window classes or executable names that mark a game engine, a game launcher or a
/// DirectX/OpenGL surface, which take injected input.
pub open spec fn game_indicators() -> Seq<Seq<char>> {
    seq![
        "unityplayer"@, "ue4"@, "ue5"@, "unreal"@, "steam"@, "epic"@, "origin"@, "uplay"@, "battlenet"@,
        "d3d"@, "opengl"@, "vulkan"@, "godot"@, "dxgi"@,
    ]
}

/// Whether the class or the process name holds one of `indicators`.
pub open spec fn mentions_any(class_name: Seq<char>, process_name: Seq<char>, indicators: Seq<Seq<char>>) -> bool {
    exists|i: int| 0 <= i < indicators.len() && (contains_seq(process_name, #[trigger] indicators[i])
        || contains_seq(class_name, indicators[i]))
}

/// The dispatch mode for a window of lower-case class `class_name` in a process whose
/// lower-case executable name is `process_name`: browsers and ordinary applications take
/// window messages, games take injected input, anything else takes window messages.
pub open spec fn dispatch_mode_for(class_name: Seq<char>, process_name: Seq<char>) -> DispatchMode {
    if mentions_any(class_name, process_name, browser_indicators()) {
        DispatchMode::WindowMessage
    } else if mentions_any(class_name, process_name, game_indicators()) {
        DispatchMode::SendInput
    } else {
        DispatchMode::WindowMessage
    }
}

/// A window whose class or executable name mentions a browser or an ordinary application
/// (`chrome`, `firefox`, `edge`, `msedge`, `brave`, `opera`, `electron`, `cef`, `notepad`,
/// `explorer`, `code.exe`, `vscode`) takes window messages, whatever else either name holds,
/// game indicators included.
pub proof fn lemma_browser_names_take_window_messages(class_name: Seq<char>, process_name: Seq<char>,
    indicator: Seq<char>)
    requires
        indicator == "chrome"@ || indicator == "firefox"@ || indicator == "edge"@ || indicator == "msedge"@ || indicator == "brave"@ || indicator == "opera"@ || indicator == "electron"@ || indicator == "cef"@ || indicator == "notepad"@ || indicator == "explorer"@ || indicator == "code.exe"@ || indicator == "vscode"@,
        contains_seq(class_name, indicator) || contains_seq(process_name, indicator),
    ensures
        dispatch_mode_for(class_name, process_name) == DispatchMode::WindowMessage,
{
    if indicator == "chrome"@ { assert(browser_indicators()[0] == indicator); }
    if indicator == "firefox"@ { assert(browser_indicators()[1] == indicator); }
    if indicator == "edge"@ { assert(browser_indicators()[2] == indicator); }
    if indicator == "msedge"@ { assert(browser_indicators()[3] == indicator); }
    if indicator == "brave"@ { assert(browser_indicators()[4] == indicator); }
    if indicator == "opera"@ { assert(browser_indicators()[5] == indicator); }
    if indicator == "electron"@ { assert(browser_indicators()[6] == indicator); }
    if indicator == "cef"@ { assert(browser_indicators()[7] == indicator); }
    if indicator == "notepad"@ { assert(browser_indicators()[8] == indicator); }
    if indicator == "explorer"@ { assert(browser_indicators()[9] == indicator); }
    if indicator == "code.exe"@ { assert(browser_indicators()[10] == indicator); }
    if indicator == "vscode"@ { assert(browser_indicators()[11] == indicator); }
}

/// A window whose class or executable name mentions a game engine, a launcher or a graphics
/// surface (`unityplayer`, `ue4`, `ue5`, `unreal`, `steam`, `epic`, `origin`, `uplay`,
/// `battlenet`, `d3d`, `opengl`, `vulkan`, `godot`, `dxgi`), and neither name a browser
/// indicator, takes injected input.
pub proof fn lemma_game_names_take_injected_input(class_name: Seq<char>, process_name: Seq<char>,
    indicator: Seq<char>)
    requires
        indicator == "unityplayer"@ || indicator == "ue4"@ || indicator == "ue5"@ || indicator == "unreal"@ || indicator == "steam"@ || indicator == "epic"@ || indicator == "origin"@ || indicator == "uplay"@ || indicator == "battlenet"@ || indicator == "d3d"@ || indicator == "opengl"@ || indicator == "vulkan"@ || indicator == "godot"@ || indicator == "dxgi"@,
        contains_seq(class_name, indicator) || contains_seq(process_name, indicator),
        forall|b: Seq<char>| (b == "chrome"@ || b == "firefox"@ || b == "edge"@ || b == "msedge"@ || b == "brave"@ || b == "opera"@ || b == "electron"@ || b == "cef"@ || b == "notepad"@ || b == "explorer"@ || b == "code.exe"@ || b == "vscode"@) ==> !#[trigger] contains_seq(class_name, b)
            && !contains_seq(process_name, b),
    ensures
        dispatch_mode_for(class_name, process_name) == DispatchMode::SendInput,
{
    let inds = browser_indicators();
    assert forall|i: int| 0 <= i < inds.len() implies !(contains_seq(process_name, #[trigger] inds[i])
        || contains_seq(class_name, inds[i])) by {
        let b = inds[i];
        assert(b == "chrome"@ || b == "firefox"@ || b == "edge"@ || b == "msedge"@ || b == "brave"@ || b == "opera"@ || b == "electron"@ || b == "cef"@ || b == "notepad"@ || b == "explorer"@ || b == "code.exe"@ || b == "vscode"@);
        assert(!contains_seq(class_name, b));
    }
    if indicator == "unityplayer"@ { assert(game_indicators()[0] == indicator); }
    if indicator == "ue4"@ { assert(game_indicators()[1] == indicator); }
    if indicator == "ue5"@ { assert(game_indicators()[2] == indicator); }
    if indicator == "unreal"@ { assert(game_indicators()[3] == indicator); }
    if indicator == "steam"@ { assert(game_indicators()[4] == indicator); }
    if indicator == "epic"@ { assert(game_indicators()[5] == indicator); }
    if indicator == "origin"@ { assert(game_indicators()[6] == indicator); }
    if indicator == "uplay"@ { assert(game_indicators()[7] == indicator); }
    if indicator == "battlenet"@ { assert(game_indicators()[8] == indicator); }
    if indicator == "d3d"@ { assert(game_indicators()[9] == indicator); }
    if indicator == "opengl"@ { assert(game_indicators()[10] == indicator); }
    if indicator == "vulkan"@ { assert(game_indicators()[11] == indicator); }
    if indicator == "godot"@ { assert(game_indicators()[12] == indicator); }
    if indicator == "dxgi"@ { assert(game_indicators()[13] == indicator); }
}

/// A window whose names mention no indicator at all takes window messages.
pub proof fn lemma_unknown_names_take_window_messages(class_name: Seq<char>, process_name: Seq<char>)
    requires
        forall|b: Seq<char>| (b == "chrome"@ || b == "firefox"@ || b == "edge"@ || b == "msedge"@ || b == "brave"@ || b == "opera"@ || b == "electron"@ || b == "cef"@ || b == "notepad"@ || b == "explorer"@ || b == "code.exe"@ || b == "vscode"@ || b == "unityplayer"@ || b == "ue4"@ || b == "ue5"@ || b == "unreal"@ || b == "steam"@ || b == "epic"@ || b == "origin"@ || b == "uplay"@ || b == "battlenet"@ || b == "d3d"@ || b == "opengl"@ || b == "vulkan"@ || b == "godot"@ || b == "dxgi"@) ==> !#[trigger] contains_seq(class_name, b)
            && !contains_seq(process_name, b),
    ensures
        dispatch_mode_for(class_name, process_name) == DispatchMode::WindowMessage,
{
    let inds = browser_indicators();
    assert forall|i: int| 0 <= i < inds.len() implies !(contains_seq(process_name, #[trigger] inds[i])
        || contains_seq(class_name, inds[i])) by {
        let b = inds[i];
        assert(b == "chrome"@ || b == "firefox"@ || b == "edge"@ || b == "msedge"@ || b == "brave"@ || b == "opera"@ || b == "electron"@ || b == "cef"@ || b == "notepad"@ || b == "explorer"@ || b == "code.exe"@ || b == "vscode"@);
        assert(!contains_seq(class_name, b));
    }
    let games = game_indicators();
    assert forall|i: int| 0 <= i < games.len() implies !(contains_seq(process_name, #[trigger] games[i])
        || contains_seq(class_name, games[i])) by {
        let b = games[i];
        assert(b == "unityplayer"@ || b == "ue4"@ || b == "ue5"@ || b == "unreal"@ || b == "steam"@ || b == "epic"@ || b == "origin"@ || b == "uplay"@ || b == "battlenet"@ || b == "d3d"@ || b == "opengl"@ || b == "vulkan"@ || b == "godot"@ || b == "dxgi"@);
        assert(!contains_seq(class_name, b));
    }
}

fn mentions_any_of(class_name: &str, process_name: &str, indicators: &Vec<&str>) -> (b: bool)
    ensures
        b == mentions_any(class_name@, process_name@, indicators@.map_values(|s: &str| s@)),
{
    let ghost inds = indicators@.map_values(|s: &str| s@);
    let mut i: usize = 0;
    while i < indicators.len()
        invariant
            i <= indicators@.len(),
            inds == indicators@.map_values(|s: &str| s@),
            forall|j: int| 0 <= j < i ==> !(contains_seq(process_name@, #[trigger] inds[j]) || contains_seq(
                class_name@,
                inds[j],
            )),
        decreases indicators@.len() - i,
    {
        let ind = indicators[i];
        assert(inds[i as int] == ind@);
        if str_contains(process_name, ind) || str_contains(class_name, ind) {
            return true;
        }
        i = i + 1;
    }
    false
}

/// The dispatch mode for a window from its lower-case class and executable names; see
/// `dispatch_mode_for`.
pub fn dispatch_mode_for_names(class_name: &str, process_name: &str) -> (mode: DispatchMode)
    ensures
        mode == dispatch_mode_for(class_name@, process_name@),
{
    let browsers: Vec<&str> = vec![
        "chrome", "firefox", "edge", "msedge", "brave", "opera", "electron", "cef", "notepad",
        "explorer", "code.exe", "vscode",
    ];
    assert(browsers@.map_values(|s: &str| s@) =~= browser_indicators());
    if mentions_any_of(class_name, process_name, &browsers) {
        return DispatchMode::WindowMessage;
    }
    let games: Vec<&str> = vec![
        "unityplayer", "ue4", "ue5", "unreal", "steam", "epic", "origin", "uplay", "battlenet", "d3d",
        "opengl", "vulkan", "godot", "dxgi",
    ];
    assert(games@.map_values(|s: &str| s@) =~= game_indicators());
    if mentions_any_of(class_name, process_name, &games) {
        return DispatchMode::SendInput;
    }
    DispatchMode::WindowMessage
}

/// What follows the last backslash of a path (the whole path when it has none).
pub open spec fn last_path_segment(path: Seq<char>) -> Seq<char>
    decreases path.len(),
{
    if path.len() == 0 {
        path
    } else if path.last() == '\\' {
        Seq::empty()
    } else {
        last_path_segment(path.drop_last()).push(path.last())
    }
}

/// The file name of a Windows path: what follows its last backslash.
pub fn file_name_of_path(path: &str) -> (name: String)
    ensures
        name@ == last_path_segment(path@),
{
    let cs = chars_of(path);
    let mut start: usize = 0;
    let mut i: usize = 0;
    while i < cs.len()
        invariant
            i <= cs@.len(),
            cs@ == path@,
            start <= i,
            last_path_segment(cs@.take(i as int)) == cs@.subrange(start as int, i as int),
        decreases cs@.len() - i,
    {
        assert(cs@.take(i + 1).drop_last() == cs@.take(i as int));
        if cs[i] == '\\' {
            start = i + 1;
        }
        assert(cs@.subrange(start as int, i + 1) == if cs@[i as int] == '\\' {
            Seq::empty()
        } else {
            cs@.subrange(start as int, i as int).push(cs@[i as int])
        });
        i = i + 1;
    }
    assert(cs@.take(i as int) == cs@);
    let mut name = String::new();
    let mut k: usize = start;
    while k < cs.len()
        invariant
            start <= k <= cs@.len(),
            name@ == cs@.subrange(start as int, k as int),
        decreases cs@.len() - k,
    {
        push_char(&mut name, cs[k]);
        assert(cs@.subrange(start as int, k + 1) == cs@.subrange(start as int, k as int).push(cs@[k as int]));
        k = k + 1;
    }
    name
}

/// The dispatch mode for a window of class `class_name` whose process runs the executable at
/// `process_path` (either may be empty when it could not be read): both are compared in lower
/// case, the process by its file name; see `dispatch_mode_for`.
pub fn detect_dispatch_mode(class_name: &str, process_path: &str) -> (mode: DispatchMode)
    ensures
        mode == dispatch_mode_for(unicode_lowercase(class_name@), unicode_lowercase(last_path_segment(
            process_path@,
        ))),
{
    let class_lower = to_lowercase(class_name);
    let file_name = file_name_of_path(process_path);
    let process_lower = to_lowercase(file_name.as_str());
    dispatch_mode_for_names(class_lower.as_str(), process_lower.as_str())
}

} // verus!

//! The two command channels from webview scripts.
//!
//! - `dispatch`: the chrome UI's channel. The chrome webview only ever shows
//!   SCIFI's own pages, so any well-formed command it sends is carried out.
//! - `dispatch_settings`: a narrow channel for the Settings page, which runs
//!   inside a content webview; it is only fed messages whose sending document
//!   is `scifi://settings` (see `sync::is_settings_origin`).
//!
//! Messages are parsed elsewhere into these strictly typed commands; anything
//! malformed never reaches them.
use vstd::prelude::*;
use crate::state::{
    AppState,
    Activation,
    Closing,
    Navigation,
    activated_ok,
    navigated_ok,
    closed_ok,
    close_allowed,
    opened_ok,
    active_view_of,
};
use crate::history::HistoryEntry;
use crate::sync;

verus! {

/// A command from the chrome UI.
#[derive(Debug, PartialEq, Eq)]
pub enum ChromeCommand {
    Navigate { url: String },
    NewTab { url: Option<String> },
    NewIncognitoTab,
    CloseTab { id: u32 },
    SwitchTab { id: u32 },
    GoBack,
    GoForward,
    Reload,
}

/// A history-navigation command for the active webview.
#[derive(Clone, Copy, PartialEq, Eq, Structural, Debug)]
pub enum ViewCommand {
    GoBack,
    GoForward,
    Reload,
}

/// What a chrome command asks of the webviews.
#[derive(Debug)]
pub enum ChromeOutcome {
    Navigated(Navigation),
    Opened(u32, Activation),
    Closed(Closing),
    Switched(Activation),
    /// Run `command` on the active webview, when it is warm (`view`).
    OnActiveView { view: Option<u32>, command: ViewCommand },
}

/// A command from the Settings page.
#[derive(Clone, Copy, PartialEq, Eq, Structural, Debug)]
pub enum SettingsCommand {
    SetTrackingProtection { enabled: bool },
    PickBackground,
    ResetBackground,
    ClearHistory,
    ClearPrivateSession,
    SetDevtools { enabled: bool },
}

/// What a Settings command leaves to do outside the state: refresh the
/// Settings pages, or first run the background picker, remove the background
/// or remove the disk history (each followed by a refresh).
#[derive(Clone, Copy, PartialEq, Eq, Structural, Debug)]
pub enum SettingsEffect {
    SyncSettings,
    PickBackground,
    ResetBackground,
    ClearHistory,
}

/// Whether `cmd` can be carried out from `s` without running out of tab ids.
pub open spec fn chrome_command_allowed(s: AppState, cmd: ChromeCommand) -> bool {
    match cmd {
        ChromeCommand::NewTab { .. } => s.next_id < u32::MAX,
        ChromeCommand::NewIncognitoTab => s.next_id < u32::MAX,
        ChromeCommand::CloseTab { id } => close_allowed(s, id),
        _ => true,
    }
}

/// The url a new-tab command opens.
pub open spec fn new_tab_url(url: Option<String>) -> Seq<char> {
    match url {
        Some(u) => u@,
        None => "scifi://home/"@,
    }
}

/// Carries out one command from the chrome UI.
pub fn dispatch(state: &mut AppState, cmd: ChromeCommand) -> (out: ChromeOutcome)
    requires
        old(state).wf(),
        chrome_command_allowed(*old(state), cmd),
    ensures
        final(state).wf(),
        match cmd {
            ChromeCommand::Navigate { url } => out matches ChromeOutcome::Navigated(n)
                && navigated_ok(*old(state), *final(state), url@, n),
            ChromeCommand::NewTab { url } => out matches ChromeOutcome::Opened(id, a) && opened_ok(
                *old(state),
                *final(state),
                new_tab_url(url),
                false,
                id,
                a,
            ),
            ChromeCommand::NewIncognitoTab => out matches ChromeOutcome::Opened(id, a)
                && opened_ok(*old(state), *final(state), "scifi://incognito/"@, true, id, a),
            ChromeCommand::CloseTab { id } => out matches ChromeOutcome::Closed(c) && closed_ok(
                *old(state),
                *final(state),
                id,
                c,
            ),
            ChromeCommand::SwitchTab { id } => out matches ChromeOutcome::Switched(a)
                && activated_ok(*old(state), *final(state), id, a),
            ChromeCommand::GoBack => out == (ChromeOutcome::OnActiveView {
                view: active_view_of(*old(state)),
                command: ViewCommand::GoBack,
            }) && *final(state) == *old(state),
            ChromeCommand::GoForward => out == (ChromeOutcome::OnActiveView {
                view: active_view_of(*old(state)),
                command: ViewCommand::GoForward,
            }) && *final(state) == *old(state),
            ChromeCommand::Reload => out == (ChromeOutcome::OnActiveView {
                view: active_view_of(*old(state)),
                command: ViewCommand::Reload,
            }) && *final(state) == *old(state),
        },
{
    match cmd {
        ChromeCommand::Navigate { url } => ChromeOutcome::Navigated(
            state.navigate_active(url.as_str()),
        ),
        ChromeCommand::NewTab { url } => {
            let target = match url {
                Some(u) => u,
                None => String::from_str("scifi://home/"),
            };
            let (id, a) = state.open_tab(target.as_str(), false);
            ChromeOutcome::Opened(id, a)
        },
        ChromeCommand::NewIncognitoTab => {
            let (id, a) = state.open_tab("scifi://incognito/", true);
            ChromeOutcome::Opened(id, a)
        },
        ChromeCommand::CloseTab { id } => ChromeOutcome::Closed(state.close_tab(id)),
        ChromeCommand::SwitchTab { id } => ChromeOutcome::Switched(state.activate_tab(id)),
        ChromeCommand::GoBack => ChromeOutcome::OnActiveView {
            view: state.active_view(),
            command: ViewCommand::GoBack,
        },
        ChromeCommand::GoForward => ChromeOutcome::OnActiveView {
            view: state.active_view(),
            command: ViewCommand::GoForward,
        },
        ChromeCommand::Reload => ChromeOutcome::OnActiveView {
            view: state.active_view(),
            command: ViewCommand::Reload,
        },
    }
}

/// `new` is `old` after the Settings command `cmd`, which leaves `e` to do.
pub open spec fn settings_dispatched_ok(
    old: AppState,
    new: AppState,
    cmd: SettingsCommand,
    e: SettingsEffect,
) -> bool {
    &&& new.tabs == old.tabs
    &&& new.lru == old.lru
    &&& new.active == old.active
    &&& new.next_id == old.next_id
    &&& new.notice == old.notice
    &&& new.blocked_count == old.blocked_count
    &&& new.content_size == old.content_size
    &&& new.tracking_protection == (match cmd {
        SettingsCommand::SetTrackingProtection { enabled } => enabled,
        _ => old.tracking_protection,
    })
    &&& new.devtools_enabled == (match cmd {
        SettingsCommand::SetDevtools { enabled } => enabled,
        _ => old.devtools_enabled,
    })
    &&& new.incognito_session_log@ == (match cmd {
        SettingsCommand::ClearPrivateSession => Seq::<HistoryEntry>::empty(),
        _ => old.incognito_session_log@,
    })
    &&& e == (match cmd {
        SettingsCommand::PickBackground => SettingsEffect::PickBackground,
        SettingsCommand::ResetBackground => SettingsEffect::ResetBackground,
        SettingsCommand::ClearHistory => SettingsEffect::ClearHistory,
        _ => SettingsEffect::SyncSettings,
    })
}

/// Handles a Settings command posted by a content webview, acting on it only
/// when the sending document is SCIFI's own Settings page (`scheme` and `host`
/// of its URI). A message from any other page changes nothing and leaves
/// nothing to do.
pub fn dispatch_settings_from(
    state: &mut AppState,
    scheme: Option<&str>,
    host: Option<&str>,
    cmd: SettingsCommand,
) -> (e: Option<SettingsEffect>)
    requires
        old(state).wf(),
    ensures
        final(state).wf(),
        !(scheme is Some && scheme->0@ == "scifi"@ && host is Some && host->0@ == "settings"@)
            ==> e is None && *final(state) == *old(state),
        (scheme is Some && scheme->0@ == "scifi"@ && host is Some && host->0@ == "settings"@)
            ==> (e matches Some(eff) && settings_dispatched_ok(*old(state), *final(state), cmd, eff)),
{
    if sync::is_settings_origin(scheme, host) {
        Some(dispatch_settings(state, cmd))
    } else {
        None
    }
}

/// Carries out one command from the Settings page. Only ever to be called for
/// a message whose sending document is `scifi://settings`.
pub fn dispatch_settings(state: &mut AppState, cmd: SettingsCommand) -> (e: SettingsEffect)
    requires
        old(state).wf(),
    ensures
        final(state).wf(),
        settings_dispatched_ok(*old(state), *final(state), cmd, e),
{
    match cmd {
        SettingsCommand::SetTrackingProtection { enabled } => {
            state.tracking_protection = enabled;
            SettingsEffect::SyncSettings
        },
        SettingsCommand::PickBackground => SettingsEffect::PickBackground,
        SettingsCommand::ResetBackground => SettingsEffect::ResetBackground,
        SettingsCommand::ClearHistory => SettingsEffect::ClearHistory,
        SettingsCommand::ClearPrivateSession => {
            state.incognito_session_log.clear();
            SettingsEffect::SyncSettings
        },
        SettingsCommand::SetDevtools { enabled } => {
            state.devtools_enabled = enabled;
            SettingsEffect::SyncSettings
        },
    }
}

} // verus!

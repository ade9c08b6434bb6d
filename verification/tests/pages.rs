use std::time::{Duration, SystemTime};
use scifi::background::{background_file_name, content_type_for_extension, is_background_file_name};
use scifi::history::{millis_or_zero, seconds_or_zero, most_recent_first, now_unix_millis, now_unix_secs, record_visit, HistoryEntry};
use scifi::ipc::{dispatch, dispatch_settings, dispatch_settings_from, ChromeCommand, ChromeOutcome, SettingsCommand, SettingsEffect, ViewCommand};
use scifi::protocol::{background_reply, asset_content_type, asset_headers, chrome_route, content_route, Asset, Route, CSP};
use scifi::state::AppState;
use scifi::sync::{background_script, is_settings_origin, render_script, settings_render_script};

fn entry(url: &str, t: u64) -> HistoryEntry {
    HistoryEntry { url: url.to_string(), title: String::new(), visited_at: t }
}

#[test]
fn record_visit_skips_internal_pages() {
    assert!(record_visit("scifi://home/", "Home", 42).is_none());
    let e = record_visit("https://example.com", "Ex", 42).unwrap();
    assert_eq!(e.url, "https://example.com");
    assert_eq!(e.title, "Ex");
    assert_eq!(e.visited_at, 42);
    let now = now_unix_secs();
    assert!(record_visit("https://example.com", "Ex", now).unwrap().visited_at == now);
}

#[test]
fn clock_reads_after_2020() {
    assert!(now_unix_secs() > 1_577_836_800);
    assert!(now_unix_millis() > 1_577_836_800_000);
}

#[test]
fn recent_history_newest_first_and_capped() {
    let v = vec![entry("a", 1), entry("b", 2), entry("c", 3)];
    let r = most_recent_first(v, 2);
    assert_eq!(r.iter().map(|e| e.url.as_str()).collect::<Vec<_>>(), vec!["c", "b"]);
    let v = vec![entry("a", 1), entry("b", 2)];
    let r = most_recent_first(v, 500);
    assert_eq!(r.iter().map(|e| e.url.as_str()).collect::<Vec<_>>(), vec!["b", "a"]);
    assert!(most_recent_first(vec![entry("a", 1)], 0).is_empty());
}

#[test]
fn background_content_types() {
    assert_eq!(content_type_for_extension("JPG"), "image/jpeg");
    assert_eq!(content_type_for_extension("jpeg"), "image/jpeg");
    assert_eq!(content_type_for_extension("png"), "image/png");
    assert_eq!(content_type_for_extension("WebP"), "image/webp");
    assert_eq!(content_type_for_extension("gif"), "image/gif");
    assert_eq!(content_type_for_extension("bmp"), "image/bmp");
    assert_eq!(content_type_for_extension("tiff"), "application/octet-stream");
}

#[test]
fn background_file_names() {
    assert_eq!(background_file_name(Some("PNG")), "background.png");
    assert_eq!(background_file_name(None), "background.img");
    assert!(is_background_file_name("background.jpg"));
    assert!(!is_background_file_name("history.ndjson"));
}

#[test]
fn chrome_routes() {
    assert_eq!(chrome_route("/"), Route::Asset(Asset::ChromeHtml));
    assert_eq!(chrome_route("/index.html"), Route::Asset(Asset::ChromeHtml));
    assert_eq!(chrome_route("/chrome.css"), Route::Asset(Asset::ChromeCss));
    assert_eq!(chrome_route("/chrome.js"), Route::Asset(Asset::ChromeJs));
    assert_eq!(chrome_route("/asset/background"), Route::Background);
    assert_eq!(chrome_route("/home.js"), Route::NotFound);
}

#[test]
fn content_routes_by_host() {
    assert_eq!(content_route(Some("home"), "/"), Route::Asset(Asset::HomeHtml));
    assert_eq!(content_route(Some("settings"), "/"), Route::Asset(Asset::SettingsHtml));
    assert_eq!(content_route(Some("incognito"), ""), Route::Asset(Asset::IncognitoHtml));
    assert_eq!(content_route(Some("incognito"), "/home.js"), Route::Asset(Asset::HomeJs));
    assert_eq!(content_route(Some("settings"), "/settings.js"), Route::Asset(Asset::SettingsJs));
    assert_eq!(content_route(Some("home"), "/settings.js"), Route::NotFound);
    assert_eq!(content_route(Some("chrome"), "/"), Route::NotFound);
    assert_eq!(content_route(Some("chrome"), "/chrome.js"), Route::NotFound);
    assert_eq!(content_route(None, "/asset/background"), Route::Background);
    assert_eq!(content_route(None, "/"), Route::NotFound);
}

#[test]
fn asset_types_and_headers() {
    assert_eq!(asset_content_type(Asset::HomeHtml), "text/html; charset=utf-8");
    assert_eq!(asset_content_type(Asset::SettingsCss), "text/css; charset=utf-8");
    assert_eq!(asset_content_type(Asset::HomeJs), "application/javascript; charset=utf-8");
    let h = asset_headers();
    assert_eq!(h[0], ("Content-Security-Policy", CSP));
    assert_eq!(h[2], ("X-Frame-Options", "DENY"));
    assert!(CSP.contains("frame-ancestors 'none'"));
}

#[test]
fn scripts() {
    assert_eq!(render_script("{\"a\":1}"), "window.scifiRender({\"a\":1})");
    assert_eq!(settings_render_script("{}"), "window.scifiSettingsRender({})");
    assert_eq!(
        background_script(1700000000123),
        "window.scifiSetBackground && window.scifiSetBackground(1700000000123)"
    );
    assert_eq!(background_script(0), "window.scifiSetBackground && window.scifiSetBackground(0)");
}

#[test]
fn settings_origin_check() {
    assert!(is_settings_origin(Some("scifi"), Some("settings")));
    assert!(!is_settings_origin(Some("https"), Some("settings")));
    assert!(!is_settings_origin(Some("scifi"), Some("home")));
    assert!(!is_settings_origin(None, Some("settings")));
}

#[test]
fn chrome_and_settings_payloads() {
    let mut s = AppState::new(1280, 800);
    s.open_tab("https://example.com", false);
    s.open_tab("scifi://settings/", true);
    s.on_title_changed("Settings".to_string());
    let c = s.chrome_state(Some(true), None);
    assert_eq!(c.tabs.len(), 2);
    assert!(!c.tabs[0].is_active);
    assert!(c.tabs[1].is_active);
    assert!(c.tabs[1].is_incognito);
    assert_eq!(c.active_url, "scifi://settings/");
    assert!(!c.is_secure);
    assert!(c.is_incognito);
    assert!(c.can_go_back);
    assert!(!c.can_go_forward);
    assert_eq!(s.window_title(), "\u{1F576} Settings \u{2014} SCIFI");
    assert_eq!(s.settings_views(), vec![2]);
    let st = s.settings_state(true, vec![entry("x", 1)]);
    assert!(st.tracking_protection);
    assert_eq!(st.blocked_hosts.len(), 13);
    assert_eq!(st.history.len(), 1);
    assert!(st.private_session.is_empty());
    s.activate_tab(1);
    assert!(s.chrome_state(None, None).is_secure);
    assert_eq!(s.window_title(), "New Tab \u{2014} SCIFI");
    let empty = AppState::new(10, 10);
    assert_eq!(empty.window_title(), "SCIFI \u{2014} SCIFI");
    assert_eq!(s.live_views(), vec![1, 2]);
}

#[test]
fn chrome_commands() {
    let mut s = AppState::new(1280, 800);
    match dispatch(&mut s, ChromeCommand::NewTab { url: None }) {
        ChromeOutcome::Opened(id, _) => assert_eq!(id, 1),
        _ => panic!(),
    }
    assert_eq!(s.tabs[0].url, "scifi://home/");
    match dispatch(&mut s, ChromeCommand::NewIncognitoTab) {
        ChromeOutcome::Opened(id, _) => assert_eq!(id, 2),
        _ => panic!(),
    }
    assert_eq!(s.tabs[1].url, "scifi://incognito/");
    assert!(s.tabs[1].incognito);
    match dispatch(&mut s, ChromeCommand::GoBack) {
        ChromeOutcome::OnActiveView { view, command } => {
            assert_eq!(view, Some(2));
            assert_eq!(command, ViewCommand::GoBack);
        }
        _ => panic!(),
    }
    match dispatch(&mut s, ChromeCommand::SwitchTab { id: 1 }) {
        ChromeOutcome::Switched(a) => assert_eq!(a.show, 1),
        _ => panic!(),
    }
    match dispatch(&mut s, ChromeCommand::Navigate { url: "example.org".to_string() }) {
        ChromeOutcome::Navigated(_) => {}
        _ => panic!(),
    }
    assert_eq!(s.tabs[0].url, "https://example.org");
    match dispatch(&mut s, ChromeCommand::CloseTab { id: 2 }) {
        ChromeOutcome::Closed(c) => assert!(c.was_live),
        _ => panic!(),
    }
    assert_eq!(s.tabs.len(), 1);
}

#[test]
fn settings_commands() {
    let mut s = AppState::new(1280, 800);
    s.open_tab("scifi://incognito/", true);
    s.on_page_loaded("https://p.example/", true, 5);
    assert_eq!(dispatch_settings(&mut s, SettingsCommand::SetTrackingProtection { enabled: false }), SettingsEffect::SyncSettings);
    assert!(!s.tracking_protection);
    assert_eq!(dispatch_settings(&mut s, SettingsCommand::SetDevtools { enabled: true }), SettingsEffect::SyncSettings);
    assert!(s.devtools_enabled);
    assert_eq!(dispatch_settings(&mut s, SettingsCommand::PickBackground), SettingsEffect::PickBackground);
    assert_eq!(dispatch_settings(&mut s, SettingsCommand::ResetBackground), SettingsEffect::ResetBackground);
    assert_eq!(dispatch_settings(&mut s, SettingsCommand::ClearHistory), SettingsEffect::ClearHistory);
    assert_eq!(s.incognito_session_log.len(), 1);
    assert_eq!(dispatch_settings(&mut s, SettingsCommand::ClearPrivateSession), SettingsEffect::SyncSettings);
    assert!(s.incognito_session_log.is_empty());
}

#[test]
fn clock_before_epoch_gives_zero() {
    let before = SystemTime::UNIX_EPOCH.duration_since(SystemTime::now());
    assert!(before.is_err());
    assert_eq!(seconds_or_zero(before), 0);
    let before = SystemTime::UNIX_EPOCH.duration_since(SystemTime::now());
    assert_eq!(millis_or_zero(before), 0);
    assert_eq!(seconds_or_zero(Ok(Duration::from_millis(5_999))), 5);
    assert_eq!(millis_or_zero(Ok(Duration::from_millis(5_999))), 5_999);
}

#[test]
fn settings_commands_only_from_settings_page() {
    let mut s = AppState::new(1280, 800);
    let off = SettingsCommand::SetTrackingProtection { enabled: false };
    assert_eq!(dispatch_settings_from(&mut s, Some("https"), Some("evil.example"), off), None);
    assert!(s.tracking_protection);
    assert_eq!(dispatch_settings_from(&mut s, Some("scifi"), Some("home"), off), None);
    assert!(s.tracking_protection);
    assert_eq!(dispatch_settings_from(&mut s, None, None, SettingsCommand::ClearHistory), None);
    assert_eq!(
        dispatch_settings_from(&mut s, Some("scifi"), Some("settings"), off),
        Some(SettingsEffect::SyncSettings)
    );
    assert!(!s.tracking_protection);
}

#[test]
fn background_reply_status_and_no_store() {
    let ok = background_reply(Some(vec![1, 2, 3]), Some("image/png"));
    assert_eq!(ok.status, 200);
    assert_eq!(ok.content_type, Some("image/png"));
    assert_eq!(ok.cache_control, "no-store");
    assert_eq!(ok.body, vec![1, 2, 3]);
    let missing = background_reply(None, Some("image/png"));
    assert_eq!(missing.status, 404);
    assert_eq!(missing.content_type, None);
    assert_eq!(missing.cache_control, "no-store");
    assert!(missing.body.is_empty());
    assert_eq!(background_reply(Some(vec![9]), None).status, 404);
}

use scifi::state::{AfterClose, AppState, Bounds, Navigation, Popup, MAX_LIVE_TABS, TOOLBAR_HEIGHT};
use scifi::security::BlockReason;

fn browser() -> AppState {
    let mut s = AppState::new(1280, 800);
    s.open_tab("scifi://home/", false);
    s
}

#[test]
fn new_state_defaults() {
    let s = AppState::new(1280, 800);
    assert_eq!(s.content_size, (1280, 800 - TOOLBAR_HEIGHT));
    assert_eq!(s.next_id, 1);
    assert_eq!(s.active, 0);
    assert!(s.tabs.is_empty());
    assert!(s.lru.is_empty());
    assert!(s.tracking_protection);
    assert!(!s.devtools_enabled);
    assert_eq!(s.blocked_count, 0);
    let small = AppState::new(100, 50);
    assert_eq!(small.content_size, (100, 0));
}

#[test]
fn open_first_tab_builds_and_shows_it() {
    let mut s = AppState::new(1280, 800);
    let (id, a) = s.open_tab("scifi://home/", false);
    assert_eq!(id, 1);
    assert_eq!(s.next_id, 2);
    assert_eq!(s.active, 1);
    assert_eq!(s.tabs.len(), 1);
    assert_eq!(s.tabs[0].title, "New Tab");
    assert_eq!(a.hide, None);
    let b = a.build.expect("cold tab is built");
    assert_eq!(b.id, 1);
    assert_eq!(b.url, "scifi://home/");
    assert!(!b.incognito);
    assert!(!b.devtools);
    assert_eq!(a.show, 1);
    assert_eq!(a.bounds, Bounds { x: 0, y: TOOLBAR_HEIGHT, width: 1280, height: 800 - TOOLBAR_HEIGHT });
    assert!(a.evicted.is_empty());
    assert_eq!(s.lru, vec![1]);
}

#[test]
fn second_tab_hides_first() {
    let mut s = browser();
    let (id, a) = s.open_tab("https://example.com", true);
    assert_eq!(id, 2);
    assert_eq!(a.hide, Some(1));
    assert!(a.build.as_ref().unwrap().incognito);
    assert_eq!(s.lru, vec![2, 1]);
}

#[test]
fn warm_pool_never_exceeds_cap_and_evicts_least_recent() {
    let mut s = browser();
    for i in 0..MAX_LIVE_TABS - 1 {
        let (_, a) = s.open_tab(&format!("https://site{i}.example"), false);
        assert!(a.evicted.is_empty());
    }
    assert_eq!(s.lru.len(), MAX_LIVE_TABS);
    let (id, a) = s.open_tab("https://one-more.example", false);
    assert_eq!(a.evicted, vec![1]);
    assert_eq!(s.lru.len(), MAX_LIVE_TABS);
    assert_eq!(s.lru[0], id);
    assert!(!s.is_live(1));
    // switching back to the cold tab rebuilds it from its stored url
    let a = s.activate_tab(1);
    let b = a.build.expect("cold tab rebuilt");
    assert_eq!(b.url, "scifi://home/");
    assert_eq!(a.evicted, vec![2]);
    assert_eq!(s.lru.len(), MAX_LIVE_TABS);
    assert_eq!(s.lru[0], 1);
}

#[test]
fn activating_a_warm_tab_does_not_rebuild() {
    let mut s = browser();
    s.open_tab("https://a.example", false);
    let a = s.activate_tab(1);
    assert!(a.build.is_none());
    assert_eq!(a.hide, Some(2));
    assert_eq!(s.lru, vec![1, 2]);
    let again = s.activate_tab(1);
    assert_eq!(again.hide, None);
}

#[test]
fn activating_an_unknown_id_builds_home_page() {
    let mut s = browser();
    let a = s.activate_tab(42);
    let b = a.build.unwrap();
    assert_eq!(b.url, "scifi://home/");
    assert!(!b.incognito);
    assert_eq!(s.active, 42);
}

#[test]
fn devtools_setting_reaches_new_webviews() {
    let mut s = browser();
    s.devtools_enabled = true;
    let (_, a) = s.open_tab("https://a.example", false);
    assert!(a.build.unwrap().devtools);
}

#[test]
fn close_inactive_tab() {
    let mut s = browser();
    s.open_tab("https://a.example", false);
    s.activate_tab(1);
    let c = s.close_tab(2);
    assert!(c.was_live);
    assert!(matches!(c.next, AfterClose::Stay));
    assert_eq!(s.tabs.len(), 1);
    assert_eq!(s.lru, vec![1]);
    assert_eq!(s.active, 1);
}

#[test]
fn close_active_tab_switches_to_last() {
    let mut s = browser();
    s.open_tab("https://a.example", false);
    s.open_tab("https://b.example", false);
    s.activate_tab(2);
    let c = s.close_tab(2);
    match c.next {
        AfterClose::Switched(a) => {
            assert_eq!(a.show, 3);
            assert_eq!(a.hide, None);
        }
        _ => panic!("expected a switch"),
    }
    assert_eq!(s.active, 3);
    assert_eq!(s.tabs.iter().map(|t| t.id).collect::<Vec<_>>(), vec![1, 3]);
}

#[test]
fn close_last_tab_opens_home() {
    let mut s = browser();
    let c = s.close_tab(1);
    match c.next {
        AfterClose::OpenedHome(id, a) => {
            assert_eq!(id, 2);
            assert_eq!(a.build.unwrap().url, "scifi://home/");
        }
        _ => panic!("expected a fresh home tab"),
    }
    assert_eq!(s.tabs.len(), 1);
    assert_eq!(s.tabs[0].url, "scifi://home/");
    assert_eq!(s.active, 2);
}

#[test]
fn closing_last_incognito_tab_clears_private_log() {
    let mut s = browser();
    s.open_tab("scifi://incognito/", true);
    assert!(s.on_page_loaded("https://secret.example/", true, 1_700_000_000).is_none());
    assert_eq!(s.incognito_session_log.len(), 1);
    s.open_tab("https://plain.example", false);
    s.close_tab(2);
    assert!(s.incognito_session_log.is_empty());
}

#[test]
fn private_log_kept_while_an_incognito_tab_remains() {
    let mut s = browser();
    s.open_tab("scifi://incognito/", true);
    s.open_tab("scifi://incognito/", true);
    s.on_page_loaded("https://secret.example/", true, 1_700_000_000);
    s.close_tab(2);
    assert_eq!(s.incognito_session_log.len(), 1);
}

#[test]
fn navigate_loads_url_in_active_tab() {
    let mut s = browser();
    s.notice = Some("old".to_string());
    match s.navigate_active("example.com") {
        Navigation::Load { view, url } => {
            assert_eq!(view, Some(1));
            assert_eq!(url, "https://example.com");
        }
        _ => panic!("expected a load"),
    }
    assert_eq!(s.tabs[0].url, "https://example.com");
    assert_eq!(s.notice, None);
}

#[test]
fn navigate_empty_does_nothing() {
    let mut s = browser();
    assert!(matches!(s.navigate_active("   "), Navigation::Ignored));
    assert_eq!(s.tabs[0].url, "scifi://home/");
}

#[test]
fn navigate_not_an_address_sets_notice() {
    let mut s = browser();
    assert!(matches!(s.navigate_active("cats"), Navigation::Rejected));
    assert_eq!(
        s.notice.as_deref(),
        Some("Can't open \"cats\" \u{2014} try a full address like https://example.com")
    );
}

#[test]
fn navigate_blocked_counts_only_trackers() {
    let mut s = browser();
    assert!(matches!(s.navigate_active("doubleclick.net"), Navigation::Blocked(BlockReason::TrackerHost)));
    assert_eq!(s.blocked_count, 1);
    assert_eq!(s.notice.as_deref(), Some("Blocked: doubleclick.net (known tracker/ad domain)"));
    assert!(matches!(s.navigate_active("file:///etc/passwd"), Navigation::Blocked(BlockReason::DisallowedScheme)));
    assert_eq!(s.blocked_count, 1);
    assert_eq!(s.notice.as_deref(), Some("Blocked: file:///etc/passwd (disallowed scheme)"));
}

#[test]
fn blocked_count_saturates() {
    let mut s = browser();
    s.blocked_count = u32::MAX;
    s.check_navigation("https://adnxs.com/");
    assert_eq!(s.blocked_count, u32::MAX);
}

#[test]
fn navigation_handler_blocks_and_allows() {
    let mut s = browser();
    assert_eq!(s.check_navigation("https://ok.example/"), scifi::security::Verdict::Allow);
    assert_eq!(s.notice, None);
    assert_eq!(
        s.check_navigation("javascript:void(0)"),
        scifi::security::Verdict::Block(BlockReason::DisallowedScheme)
    );
    assert_eq!(s.notice.as_deref(), Some("Blocked: javascript:void(0) (disallowed scheme)"));
    assert_eq!(s.blocked_count, 0);
}

#[test]
fn popups_open_tabs_and_keep_incognito() {
    let mut s = browser();
    match s.on_new_window_request("https://popup.example/", true) {
        Popup::Opened(id, a) => {
            assert_eq!(id, 2);
            assert!(a.build.unwrap().incognito);
        }
        _ => panic!("expected a new tab"),
    }
    assert!(s.tabs[1].incognito);
    match s.on_new_window_request("https://googletagmanager.com/x", false) {
        Popup::Blocked(r) => assert_eq!(r, BlockReason::TrackerHost),
        _ => panic!("expected a block"),
    }
    assert_eq!(s.tabs.len(), 2);
    assert_eq!(s.blocked_count, 1);
}

#[test]
fn page_load_updates_active_tab_and_records_history() {
    let mut s = browser();
    s.on_title_changed("Example".to_string());
    let rec = s.on_page_loaded("https://example.com/", false, 1_700_000_000).expect("recorded");
    assert_eq!(rec.url, "https://example.com/");
    assert_eq!(rec.title, "Example");
    assert_eq!(rec.visited_at, 1_700_000_000);
    assert_eq!(s.tabs[0].url, "https://example.com/");
    assert_eq!(s.tabs[0].title, "Example");
    assert!(s.incognito_session_log.is_empty());
}

#[test]
fn internal_page_load_not_recorded() {
    let mut s = browser();
    assert!(s.on_page_loaded("scifi://settings/", false, 1_700_000_000).is_none());
}

#[test]
fn incognito_page_load_goes_to_private_log() {
    let mut s = browser();
    s.open_tab("scifi://incognito/", true);
    s.on_title_changed("Secret".to_string());
    assert!(s.on_page_loaded("https://secret.example/", true, 1_700_000_000).is_none());
    assert_eq!(s.incognito_session_log.len(), 1);
    assert_eq!(s.incognito_session_log[0].url, "https://secret.example/");
    assert_eq!(s.incognito_session_log[0].title, "Secret");
    assert_eq!(s.incognito_session_log[0].visited_at, 1_700_000_000);
}

#[test]
fn layout_moves_chrome_and_active_view() {
    let mut s = browser();
    let l = s.layout(1000, 700);
    assert_eq!(l.chrome, Bounds { x: 0, y: 0, width: 1000, height: TOOLBAR_HEIGHT });
    assert_eq!(l.active_view, Some(1));
    assert_eq!(l.content, Bounds { x: 0, y: TOOLBAR_HEIGHT, width: 1000, height: 700 - TOOLBAR_HEIGHT });
    assert_eq!(s.content_size, (1000, 700 - TOOLBAR_HEIGHT));
    let l = s.layout(10, 10);
    assert_eq!(l.content.height, 0);
}

#[test]
fn active_view_only_when_warm() {
    let mut s = AppState::new(800, 600);
    assert_eq!(s.active_view(), None);
    s.open_tab("scifi://home/", false);
    assert_eq!(s.active_view(), Some(1));
}

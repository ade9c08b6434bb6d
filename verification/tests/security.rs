use scifi::security::{
    blocked_hosts, classify, resolve_address_bar_input, AddressResolution, BlockReason, Verdict,
};

#[test]
fn https_and_http_and_internal_pages_allowed() {
    assert_eq!(classify("https://example.com/", true), Verdict::Allow);
    assert_eq!(classify("http://example.com", true), Verdict::Allow);
    assert_eq!(classify("scifi://home/", true), Verdict::Allow);
    assert_eq!(classify("HTTPS://Example.com", true), Verdict::Allow);
}

#[test]
fn local_and_script_schemes_refused() {
    assert_eq!(classify("file:///etc/passwd", false), Verdict::Block(BlockReason::DisallowedScheme));
    assert_eq!(classify("javascript:alert(1)", true), Verdict::Block(BlockReason::DisallowedScheme));
    assert_eq!(classify("data:text/html,hi", false), Verdict::Block(BlockReason::DisallowedScheme));
    assert_eq!(classify("FILE:///x", true), Verdict::Block(BlockReason::DisallowedScheme));
}

#[test]
fn missing_scheme_refused() {
    assert_eq!(classify("example.com", true), Verdict::Block(BlockReason::NoScheme));
    assert_eq!(classify("", false), Verdict::Block(BlockReason::NoScheme));
}

#[test]
fn tracker_hosts_blocked_only_with_protection_on() {
    assert_eq!(classify("https://doubleclick.net/ad", true), Verdict::Block(BlockReason::TrackerHost));
    assert_eq!(classify("https://doubleclick.net/ad", false), Verdict::Allow);
    assert_eq!(classify("https://stats.g.doubleclick.net/x", true), Verdict::Block(BlockReason::TrackerHost));
    assert_eq!(classify("http://user@WWW.Facebook.NET:8080/p?q#f", true), Verdict::Block(BlockReason::TrackerHost));
    assert_eq!(classify("https://notdoubleclick.net/", true), Verdict::Allow);
    assert_eq!(classify("https://doubleclick.net.example.com/", true), Verdict::Allow);
}

#[test]
fn blocklist_does_not_apply_to_internal_scheme() {
    assert_eq!(classify("scifi://doubleclick.net/", true), Verdict::Allow);
}

#[test]
fn host_ends_at_path_query_fragment_and_next_separator() {
    assert_eq!(classify("https://criteo.com?x=1", true), Verdict::Block(BlockReason::TrackerHost));
    assert_eq!(classify("https://criteo.com#top", true), Verdict::Block(BlockReason::TrackerHost));
    assert_eq!(classify("https://criteo.com://other", true), Verdict::Block(BlockReason::TrackerHost));
    assert_eq!(classify("https://a@b@taboola.com/", true), Verdict::Block(BlockReason::TrackerHost));
}

#[test]
fn block_reason_tracker_and_labels() {
    assert!(BlockReason::TrackerHost.is_tracker());
    assert!(!BlockReason::NoScheme.is_tracker());
    assert!(!BlockReason::DisallowedScheme.is_tracker());
    assert_eq!(BlockReason::NoScheme.label(), "no scheme");
    assert_eq!(BlockReason::DisallowedScheme.label(), "disallowed scheme");
    assert_eq!(BlockReason::TrackerHost.label(), "known tracker/ad domain");
}

#[test]
fn address_bar_empty_input() {
    assert_eq!(resolve_address_bar_input("", true), AddressResolution::Empty);
    assert_eq!(resolve_address_bar_input("   \t\n", true), AddressResolution::Empty);
}

#[test]
fn address_bar_domain_gets_https() {
    assert_eq!(
        resolve_address_bar_input("  example.com  ", true),
        AddressResolution::Url("https://example.com".to_string())
    );
}

#[test]
fn address_bar_full_url_kept() {
    assert_eq!(
        resolve_address_bar_input("http://example.com/a b", true),
        AddressResolution::Url("http://example.com/a b".to_string())
    );
}

#[test]
fn address_bar_not_an_address() {
    assert_eq!(resolve_address_bar_input("hello world", true), AddressResolution::NotAnAddress);
    assert_eq!(resolve_address_bar_input("localhost", true), AddressResolution::NotAnAddress);
    assert_eq!(resolve_address_bar_input("a.b c", true), AddressResolution::NotAnAddress);
}

#[test]
fn address_bar_blocked() {
    assert_eq!(
        resolve_address_bar_input("javascript://alert(1)", true),
        AddressResolution::Blocked(BlockReason::DisallowedScheme)
    );
    assert_eq!(
        resolve_address_bar_input("doubleclick.net", true),
        AddressResolution::Blocked(BlockReason::TrackerHost)
    );
    assert_eq!(
        resolve_address_bar_input("doubleclick.net", false),
        AddressResolution::Url("https://doubleclick.net".to_string())
    );
}

#[test]
fn address_bar_trims_unicode_white_space() {
    assert_eq!(
        resolve_address_bar_input("\u{3000}example.org\u{a0}", true),
        AddressResolution::Url("https://example.org".to_string())
    );
}

#[test]
fn blocked_host_list_has_thirteen_entries() {
    let hosts = blocked_hosts();
    assert_eq!(hosts.len(), 13);
    assert_eq!(hosts[0], "doubleclick.net");
    assert_eq!(hosts[12], "facebook.net");
}

//! SCIFI's navigation policy: a scheme allowlist that always applies, and a
//! host blocklist that applies only while tracking protection is on.
//!
//! The URL handling here is deliberately small: it pulls a scheme and a host
//! out of a URL for policy checks and is not an RFC 3986 parser.
use vstd::prelude::*;
use crate::text;

verus! {

/// Why a navigation was blocked. A tracker block counts toward the Settings
/// page's statistic; a scheme block is a security boundary, not a tracking one.
#[derive(Clone, Copy, PartialEq, Eq, Structural, Debug)]
pub enum BlockReason {
    NoScheme,
    DisallowedScheme,
    TrackerHost,
}

/// The text shown for a block reason in the toolbar notice.
pub open spec fn reason_label(r: BlockReason) -> Seq<char> {
    match r {
        BlockReason::NoScheme => "no scheme"@,
        BlockReason::DisallowedScheme => "disallowed scheme"@,
        BlockReason::TrackerHost => "known tracker/ad domain"@,
    }
}

impl BlockReason {
    /// Whether this block came from the tracker/ad host list.
    pub fn is_tracker(&self) -> (r: bool)
        ensures
            r == (*self == BlockReason::TrackerHost),
    {
        match self {
            BlockReason::TrackerHost => true,
            _ => false,
        }
    }

    /// The human-readable text of the reason.
    pub fn label(&self) -> (s: &'static str)
        ensures
            s@ == reason_label(*self),
    {
        match self {
            BlockReason::NoScheme => "no scheme",
            BlockReason::DisallowedScheme => "disallowed scheme",
            BlockReason::TrackerHost => "known tracker/ad domain",
        }
    }
}

/// Whether a navigation may proceed.
#[derive(Clone, Copy, PartialEq, Eq, Structural, Debug)]
pub enum Verdict {
    Allow,
    Block(BlockReason),
}

/// What the address bar's text resolves to.
#[derive(PartialEq, Eq, Debug)]
pub enum AddressResolution {
    /// Nothing was typed.
    Empty,
    /// A URL that is allowed to load.
    Url(String),
    /// Neither a URL nor something that looks like a domain.
    NotAnAddress,
    /// Looked like an address, but the navigation policy blocks it.
    Blocked(BlockReason),
}

/// The mathematical value of an `AddressResolution`.
pub enum Resolved {
    Empty,
    Url(Seq<char>),
    NotAnAddress,
    Blocked(BlockReason),
}

impl View for AddressResolution {
    type V = Resolved;

    open spec fn view(&self) -> Resolved {
        match self {
            AddressResolution::Empty => Resolved::Empty,
            AddressResolution::Url(u) => Resolved::Url(u@),
            AddressResolution::NotAnAddress => Resolved::NotAnAddress,
            AddressResolution::Blocked(r) => Resolved::Blocked(*r),
        }
    }
}

/// The hosts blocked while tracking protection is on (a short, illustrative
/// list of known ad and tracking domains).
pub open spec fn blocked_host_list() -> Seq<Seq<char>> {
    seq![
        "doubleclick.net"@,
        "googlesyndication.com"@,
        "googleadservices.com"@,
        "google-analytics.com"@,
        "googletagmanager.com"@,
        "adnxs.com"@,
        "adsrvr.org"@,
        "scorecardresearch.com"@,
        "outbrain.com"@,
        "taboola.com"@,
        "criteo.com"@,
        "amazon-adsystem.com"@,
        "facebook.net"@,
    ]
}

/// The blocked hosts, for display on the Settings page.
pub fn blocked_hosts() -> (v: Vec<&'static str>)
    ensures
        v@.len() == blocked_host_list().len(),
        forall|i: int| 0 <= i < v@.len() ==> #[trigger] v@[i]@ == blocked_host_list()[i],
{
    let v: Vec<&'static str> = vec![
        "doubleclick.net",
        "googlesyndication.com",
        "googleadservices.com",
        "google-analytics.com",
        "googletagmanager.com",
        "adnxs.com",
        "adsrvr.org",
        "scorecardresearch.com",
        "outbrain.com",
        "taboola.com",
        "criteo.com",
        "amazon-adsystem.com",
        "facebook.net",
    ];
    v
}

/// Index of the `:` that ends the scheme, or the length when there is none.
pub open spec fn scheme_end(t: Seq<char>) -> int {
    text::find_char_from(t, ':', 0)
}

/// The lower-cased scheme of a URL (the text before its first `:`).
pub open spec fn scheme_of(t: Seq<char>) -> Seq<char> {
    text::lower_spec(t.take(scheme_end(t)))
}

/// Schemes SCIFI navigates to whatever the tracking-protection setting.
/// `file:`, `javascript:` and `data:` are absent on purpose.
pub open spec fn is_allowed_scheme(s: Seq<char>) -> bool {
    s == "https"@ || s == "http"@ || s == "scifi"@
}

/// Schemes whose hosts the tracker blocklist applies to.
pub open spec fn is_web_scheme(s: Seq<char>) -> bool {
    s == "http"@ || s == "https"@
}

/// The host of a URL: the text after the first `://`, up to the next `://`,
/// then up to the first `/`, `?` or `#`, after any `user@` part, before any
/// `:port`, lower-cased. `None` when the URL has no `://`.
pub open spec fn host_of(url: Seq<char>) -> Option<Seq<char>> {
    let sep = "://"@;
    let i = text::find_pat_from(url, sep, 0);
    if i >= url.len() {
        None
    } else {
        let start = i + sep.len();
        let seg = url.subrange(start, text::find_pat_from(url, sep, start));
        let part = seg.take(text::find_host_delim_from(seg, 0));
        let after_user = part.skip(text::rfind_char_before(part, '@', part.len() as int) + 1);
        let host = after_user.take(text::find_char_from(after_user, ':', 0));
        Some(text::lower_spec(host))
    }
}

/// A host is blocked when it is a listed host or a subdomain of one.
pub open spec fn is_blocked_host(h: Seq<char>) -> bool {
    exists|i: int|
        0 <= i < blocked_host_list().len() && (h == blocked_host_list()[i] || text::has_suffix(
            h,
            seq!['.'] + #[trigger] blocked_host_list()[i],
        ))
}

/// The policy decision for a navigation to `t`.
pub open spec fn classify_spec(t: Seq<char>, tracking_protection: bool) -> Verdict {
    if scheme_end(t) >= t.len() {
        Verdict::Block(BlockReason::NoScheme)
    } else if !is_allowed_scheme(scheme_of(t)) {
        Verdict::Block(BlockReason::DisallowedScheme)
    } else if tracking_protection && is_web_scheme(scheme_of(t)) && (host_of(t) matches Some(
        h,
    ) && is_blocked_host(h)) {
        Verdict::Block(BlockReason::TrackerHost)
    } else {
        Verdict::Allow
    }
}

/// Something that looks like a domain: it has a dot and no space.
pub open spec fn looks_like_domain_spec(s: Seq<char>) -> bool {
    s.contains('.') && !s.contains(' ')
}

/// What the address bar's text resolves to, by the same policy as `classify_spec`.
pub open spec fn resolve_spec(input: Seq<char>, tracking_protection: bool) -> Resolved {
    let t = text::trim_spec(input);
    if t.len() == 0 {
        Resolved::Empty
    } else if !text::has_infix(t, "://"@) && !looks_like_domain_spec(t) {
        Resolved::NotAnAddress
    } else {
        let candidate = if text::has_infix(t, "://"@) {
            t
        } else {
            "https://"@ + t
        };
        match classify_spec(candidate, tracking_protection) {
            Verdict::Allow => Resolved::Url(candidate),
            Verdict::Block(r) => Resolved::Blocked(r),
        }
    }
}

/// Whether `s` looks like a domain (a dot and no space).
fn looks_like_domain(s: &Vec<char>) -> (r: bool)
    ensures
        r == looks_like_domain_spec(s@),
{
    text::contains_char(s, '.') && !text::contains_char(s, ' ')
}

/// The lower-cased host of `url`, if it has a `://`.
fn extract_host(url: &Vec<char>) -> (r: Option<Vec<char>>)
    ensures
        match r {
            Some(h) => host_of(url@) == Some(h@),
            None => host_of(url@) is None,
        },
{
    let sep = text::chars_of("://");
    proof {
        reveal_strlit("://");
    }
    let i = text::find_pat(url, &sep, 0);
    if i >= url.len() {
        return None;
    }
    proof {
        text::lemma_find_pat(url@, sep@, 0);
    }
    let start = i + sep.len();
    let end = text::find_pat(url, &sep, start);
    proof {
        text::lemma_find_pat(url@, sep@, start as int);
    }
    let seg = text::slice_chars(url, start, end);
    let d = text::find_host_delim(&seg, 0);
    proof {
        text::lemma_find_host_delim(seg@, 0);
    }
    let part = text::slice_chars(&seg, 0, d);
    assert(part@ =~= seg@.take(d as int));
    let at = text::rfind_char(&part, '@', part.len());
    proof {
        text::lemma_rfind_char(part@, '@', part@.len() as int);
    }
    let from = match at {
        Some(k) => k + 1,
        None => 0,
    };
    let after_user = text::slice_chars(&part, from, part.len());
    assert(after_user@ =~= part@.skip(from as int));
    let colon = text::find_char(&after_user, ':', 0);
    proof {
        text::lemma_find_char(after_user@, ':', 0);
    }
    let host = text::slice_chars(&after_user, 0, colon);
    assert(host@ =~= after_user@.take(colon as int));
    Some(text::lower(&host))
}

/// Whether a lower-cased host is on the blocklist or a subdomain of a listed host.
fn host_is_blocked(host: &Vec<char>) -> (r: bool)
    ensures
        r == is_blocked_host(host@),
{
    let list = blocked_hosts();
    let mut i: usize = 0;
    while i < list.len()
        invariant
            i <= list@.len(),
            list@.len() == blocked_host_list().len(),
            forall|k: int| 0 <= k < list@.len() ==> #[trigger] list@[k]@ == blocked_host_list()[k],
            forall|k: int|
                0 <= k < i ==> !(host@ == blocked_host_list()[k] || text::has_suffix(
                    host@,
                    seq!['.'] + #[trigger] blocked_host_list()[k],
                )),
        decreases list.len() - i,
    {
        let b = text::chars_of(list[i]);
        let dot = vec!['.'];
        let dotted = text::append_chars(&dot, &b);
        assert(dotted@ == seq!['.'] + blocked_host_list()[i as int]) by {
            assert(list@[i as int]@ == blocked_host_list()[i as int]);
        }
        if text::chars_eq(host, &b) || text::ends_with(host, &dotted) {
            return true;
        }
        i = i + 1;
    }
    false
}

/// Whether `scheme` is one of the allowed schemes.
fn scheme_allowed(scheme: &Vec<char>) -> (r: bool)
    ensures
        r == is_allowed_scheme(scheme@),
{
    text::chars_eq_str(scheme, "https") || text::chars_eq_str(scheme, "http") || text::chars_eq_str(scheme, "scifi")
}

/// Classifies a fully-formed URL a webview is about to navigate to.
/// `tracking_protection` gates the host blocklist only; the scheme allowlist
/// is a security boundary and always applies.
pub fn classify(target: &str, tracking_protection: bool) -> (v: Verdict)
    ensures
        v == classify_spec(target@, tracking_protection),
{
    let t = text::chars_of(target);
    let colon = text::find_char(&t, ':', 0);
    if colon >= t.len() {
        return Verdict::Block(BlockReason::NoScheme);
    }
    let raw_scheme = text::slice_chars(&t, 0, colon);
    assert(raw_scheme@ =~= t@.take(colon as int));
    let scheme = text::lower(&raw_scheme);
    if !scheme_allowed(&scheme) {
        return Verdict::Block(BlockReason::DisallowedScheme);
    }
    if tracking_protection && (text::chars_eq_str(&scheme, "http") || text::chars_eq_str(&scheme, "https")) {
        match extract_host(&t) {
            Some(host) => {
                if host_is_blocked(&host) {
                    return Verdict::Block(BlockReason::TrackerHost);
                }
            },
            None => {},
        }
    }
    Verdict::Allow
}

/// Resolves what the user typed in the address bar by the same policy that
/// `classify` applies to in-page navigation.
pub fn resolve_address_bar_input(input: &str, tracking_protection: bool) -> (r:
    AddressResolution)
    ensures
        r@ == resolve_spec(input@, tracking_protection),
{
    let raw = text::chars_of(input);
    let trimmed = text::trim(&raw);
    if trimmed.len() == 0 {
        return AddressResolution::Empty;
    }
    let sep = text::chars_of("://");
    proof {
        reveal_strlit("://");
    }
    let candidate = if text::contains_pat(&trimmed, &sep) {
        trimmed
    } else if looks_like_domain(&trimmed) {
        let prefix = text::chars_of("https://");
        text::append_chars(&prefix, &trimmed)
    } else {
        return AddressResolution::NotAnAddress;
    };
    let url = text::string_of(&candidate);
    match classify(url.as_str(), tracking_protection) {
        Verdict::Allow => AddressResolution::Url(url),
        Verdict::Block(reason) => AddressResolution::Blocked(reason),
    }
}

/// Whatever the tracking-protection setting, the scheme allowlist decides the
/// same way: turning tracking protection off never unblocks a scheme block,
/// turning it on never blocks anything but tracker hosts, and with it off no
/// tracker block is ever given.
pub proof fn law_scheme_policy_ignores_tracking_setting(t: Seq<char>)
    ensures
        classify_spec(t, false) != Verdict::Block(BlockReason::TrackerHost),
        classify_spec(t, false) != Verdict::Allow ==> classify_spec(t, true) == classify_spec(
            t,
            false,
        ),
        classify_spec(t, true) != classify_spec(t, false) ==> classify_spec(t, true)
            == Verdict::Block(BlockReason::TrackerHost) && classify_spec(t, false)
            == Verdict::Allow,
{
}

/// `file:`, `javascript:` and `data:` URLs are always refused, in any letter
/// case and whatever the tracking-protection setting.
pub proof fn law_local_and_script_schemes_refused(t: Seq<char>, tracking_protection: bool)
    requires
        scheme_end(t) < t.len(),
        scheme_of(t) == "file"@ || scheme_of(t) == "javascript"@ || scheme_of(t) == "data"@,
    ensures
        classify_spec(t, tracking_protection) == Verdict::Block(BlockReason::DisallowedScheme),
{
    reveal_strlit("file");
    reveal_strlit("javascript");
    reveal_strlit("data");
    reveal_strlit("https");
    reveal_strlit("http");
    reveal_strlit("scifi");
    let s = scheme_of(t);
    assert(s != "https"@ && s != "http"@ && s != "scifi"@) by {
        if s == "file"@ {
            assert(s[0] != "http"@[0]);
        } else if s == "data"@ {
            assert(s[0] != "http"@[0]);
        }
    }
}

/// A URL with no `:` at all is refused as having no scheme.
pub proof fn law_no_scheme_refused(t: Seq<char>, tracking_protection: bool)
    requires
        !t.contains(':'),
    ensures
        classify_spec(t, tracking_protection) == Verdict::Block(BlockReason::NoScheme),
{
    text::lemma_find_char(t, ':', 0);
    if scheme_end(t) < t.len() {
        assert(t[scheme_end(t)] == ':');
    }
}

/// The address bar only ever resolves to a URL that `classify` allows under the
/// same setting, and that URL is the trimmed input, with `https://` put in
/// front when the input had no `://`. A blocked resolution carries the reason
/// `classify` gives for that URL.
pub proof fn law_address_bar_follows_navigation_policy(input: Seq<char>, tracking_protection: bool)
    ensures
        resolve_spec(input, tracking_protection) matches Resolved::Url(u) ==> {
            &&& classify_spec(u, tracking_protection) == Verdict::Allow
            &&& (u == text::trim_spec(input) && text::has_infix(text::trim_spec(input), "://"@)) || (u == "https://"@
                + text::trim_spec(input) && !text::has_infix(text::trim_spec(input), "://"@))
        },
        resolve_spec(input, tracking_protection) matches Resolved::Blocked(r) ==> {
            ||| classify_spec(text::trim_spec(input), tracking_protection) == Verdict::Block(r)
            ||| classify_spec("https://"@ + text::trim_spec(input), tracking_protection) == Verdict::Block(
                r,
            )
        },
{
}

/// Every subdomain of a listed tracker host is blocked too.
pub proof fn law_tracker_subdomains_blocked(label: Seq<char>, i: int)
    requires
        0 <= i < blocked_host_list().len(),
    ensures
        is_blocked_host(blocked_host_list()[i]),
        is_blocked_host(label + seq!['.'] + blocked_host_list()[i]),
{
    let b = blocked_host_list()[i];
    let h = label + seq!['.'] + b;
    assert(h.skip(h.len() - (seq!['.'] + b).len()) =~= seq!['.'] + b);
    assert(text::has_suffix(h, seq!['.'] + blocked_host_list()[i]));
}

/// Address-bar text decides by its shape: once trimmed, text with a `://` is
/// taken as a URL as it is; text without one that has a dot and no space is
/// taken as a domain and gets `https://` in front (so `example.com/about`
/// loads as `https://example.com/about`); anything else is not an address.
/// A candidate URL is then loaded or blocked exactly as `classify` decides.
pub proof fn law_address_bar_shapes(input: Seq<char>, tracking_protection: bool)
    ensures
        ({
            let t = text::trim_spec(input);
            t.len() > 0 && !text::has_infix(t, "://"@) && t.contains('.') && !t.contains(' ')
        }) ==> match resolve_spec(input, tracking_protection) {
            Resolved::Url(u) => u == "https://"@ + text::trim_spec(input) && classify_spec(
                u,
                tracking_protection,
            ) == Verdict::Allow,
            Resolved::Blocked(r) => classify_spec("https://"@ + text::trim_spec(input), tracking_protection)
                == Verdict::Block(r),
            _ => false,
        },
        ({
            let t = text::trim_spec(input);
            t.len() > 0 && text::has_infix(t, "://"@)
        }) ==> match resolve_spec(input, tracking_protection) {
            Resolved::Url(u) => u == text::trim_spec(input) && classify_spec(u, tracking_protection)
                == Verdict::Allow,
            Resolved::Blocked(r) => classify_spec(text::trim_spec(input), tracking_protection)
                == Verdict::Block(r),
            _ => false,
        },
        ({
            let t = text::trim_spec(input);
            t.len() > 0 && !text::has_infix(t, "://"@) && (!t.contains('.') || t.contains(' '))
        }) ==> resolve_spec(input, tracking_protection) == Resolved::NotAnAddress,
        text::trim_spec(input).len() == 0 ==> resolve_spec(input, tracking_protection) == Resolved::Empty,
{
}

} // verus!

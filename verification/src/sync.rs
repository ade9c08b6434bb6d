//! What the browser pushes to its own pages: the chrome UI's tab list and
//! navigation state, the Settings page's privacy state, and the scripts that
//! deliver them.
use vstd::prelude::*;
use crate::text;
use crate::security;
use crate::history::{self, HistoryEntry};
use crate::state::{AppState, TabMeta, tab_index};

verus! {

/// One tab as the chrome UI shows it.
#[derive(Debug)]
pub struct ChromeTab {
    pub id: u32,
    pub title: String,
    pub url: String,
    pub is_active: bool,
    pub is_incognito: bool,
}

/// The chrome UI's state: tab strip, address bar and toolbar notice.
#[derive(Debug)]
pub struct ChromeState {
    pub tabs: Vec<ChromeTab>,
    pub active_url: String,
    pub can_go_back: bool,
    pub can_go_forward: bool,
    pub is_secure: bool,
    pub is_incognito: bool,
    pub notice: Option<String>,
}

/// The Settings page's state.
#[derive(Debug)]
pub struct SettingsState {
    pub tracking_protection: bool,
    pub blocked_count: u32,
    pub blocked_hosts: Vec<&'static str>,
    pub background_set: bool,
    pub devtools_enabled: bool,
    pub history: Vec<HistoryEntry>,
    pub private_session: Vec<HistoryEntry>,
}

/// The url shown in the address bar: the active tab's, or empty.
pub open spec fn active_url_of(s: AppState) -> Seq<char> {
    let k = tab_index(s.tabs@, s.active);
    if k < s.tabs@.len() {
        s.tabs@[k].url@
    } else {
        Seq::empty()
    }
}

/// Whether the active tab is incognito.
pub open spec fn active_incognito_of(s: AppState) -> bool {
    let k = tab_index(s.tabs@, s.active);
    k < s.tabs@.len() && s.tabs@[k].incognito
}

/// The window title: the active tab's title (or "SCIFI"), marked with a
/// glasses sign for incognito, followed by the browser's name.
pub open spec fn window_title_spec(s: AppState) -> Seq<char> {
    let k = tab_index(s.tabs@, s.active);
    let mark = if active_incognito_of(s) {
        "\u{1F576} "@
    } else {
        Seq::empty()
    };
    let title = if k < s.tabs@.len() {
        s.tabs@[k].title@
    } else {
        "SCIFI"@
    };
    mark + title + " \u{2014} SCIFI"@
}

/// Whether a tab with this id shows the Settings page.
pub open spec fn is_settings_tab(tabs: Seq<TabMeta>, id: u32) -> bool {
    exists|i: int|
        0 <= i < tabs.len() && #[trigger] tabs[i].id == id && text::has_prefix(
            tabs[i].url@,
            "scifi://settings"@,
        )
}

/// The warm webviews, in recency order, whose tab shows the Settings page.
pub open spec fn settings_ids(lru: Seq<u32>, tabs: Seq<TabMeta>) -> Seq<u32>
    decreases lru.len(),
{
    if lru.len() == 0 {
        lru
    } else if is_settings_tab(tabs, lru.last()) {
        settings_ids(lru.drop_last(), tabs).push(lru.last())
    } else {
        settings_ids(lru.drop_last(), tabs)
    }
}

/// The script that hands the chrome UI its state.
pub fn render_script(json: &str) -> (s: String)
    ensures
        s@ == "window.scifiRender("@ + json@ + ")"@,
{
    text::concat("window.scifiRender(", json).concat(")")
}

/// The script that hands a Settings page its state.
pub fn settings_render_script(json: &str) -> (s: String)
    ensures
        s@ == "window.scifiSettingsRender("@ + json@ + ")"@,
{
    text::concat("window.scifiSettingsRender(", json).concat(")")
}

/// The script that makes a page re-fetch the background image, with a
/// cache-busting token; a no-op on pages without `scifiSetBackground`.
pub fn background_script(token: u128) -> (s: String)
    ensures
        s@ == "window.scifiSetBackground && window.scifiSetBackground("@ + text::decimal(
            token as nat,
        ) + ")"@,
{
    let mut digits: Vec<char> = Vec::new();
    text::push_decimal(&mut digits, token);
    assert(digits@ =~= text::decimal(token as nat));
    let d = text::string_of(&digits);
    text::concat("window.scifiSetBackground && window.scifiSetBackground(", d.as_str()).concat(")")
}

/// Whether an IPC message came from SCIFI's own Settings page, judged by the
/// scheme and host of the document that sent it.
pub fn is_settings_origin(scheme: Option<&str>, host: Option<&str>) -> (r: bool)
    ensures
        r == (scheme is Some && scheme->0@ == "scifi"@ && host is Some && host->0@
            == "settings"@),
{
    match (scheme, host) {
        (Some(s), Some(h)) => text::str_eq(s, "scifi") && text::str_eq(h, "settings"),
        _ => false,
    }
}

impl AppState {
    /// The chrome UI's state. `can_go_back` and `can_go_forward` are what the
    /// active webview answered, when it is warm and answered.
    pub fn chrome_state(&self, can_go_back: Option<bool>, can_go_forward: Option<bool>) -> (c:
        ChromeState)
        ensures
            c.tabs@.len() == self.tabs@.len(),
            forall|i: int|
                0 <= i < self.tabs@.len() ==> {
                    &&& (#[trigger] c.tabs@[i]).id == self.tabs@[i].id
                    &&& c.tabs@[i].title@ == self.tabs@[i].title@
                    &&& c.tabs@[i].url@ == self.tabs@[i].url@
                    &&& c.tabs@[i].is_active == (self.tabs@[i].id == self.active)
                    &&& c.tabs@[i].is_incognito == self.tabs@[i].incognito
                },
            c.active_url@ == active_url_of(*self),
            c.is_secure == text::has_prefix(active_url_of(*self), "https://"@),
            c.is_incognito == active_incognito_of(*self),
            c.can_go_back == (can_go_back == Some(true)),
            c.can_go_forward == (can_go_forward == Some(true)),
            match self.notice {
                Some(n) => c.notice matches Some(m) && m@ == n@,
                None => c.notice is None,
            },
    {
        let mut tabs: Vec<ChromeTab> = Vec::new();
        let mut i: usize = 0;
        while i < self.tabs.len()
            invariant
                i <= self.tabs@.len(),
                tabs@.len() == i,
                forall|j: int|
                    0 <= j < i ==> {
                        &&& (#[trigger] tabs@[j]).id == self.tabs@[j].id
                        &&& tabs@[j].title@ == self.tabs@[j].title@
                        &&& tabs@[j].url@ == self.tabs@[j].url@
                        &&& tabs@[j].is_active == (self.tabs@[j].id == self.active)
                        &&& tabs@[j].is_incognito == self.tabs@[j].incognito
                    },
            decreases self.tabs.len() - i,
        {
            let t = &self.tabs[i];
            tabs.push(
                ChromeTab {
                    id: t.id,
                    title: t.title.clone(),
                    url: t.url.clone(),
                    is_active: t.id == self.active,
                    is_incognito: t.incognito,
                },
            );
            i = i + 1;
        }
        let k = self.find_tab(self.active);
        let (active_url, is_incognito) = if k < self.tabs.len() {
            (self.tabs[k].url.clone(), self.tabs[k].incognito)
        } else {
            (String::new(), false)
        };
        let is_secure = text::str_starts_with(active_url.as_str(), "https://");
        let notice = match &self.notice {
            Some(n) => Some(n.clone()),
            None => None,
        };
        ChromeState {
            tabs,
            active_url,
            can_go_back: match can_go_back {
                Some(b) => b,
                None => false,
            },
            can_go_forward: match can_go_forward {
                Some(b) => b,
                None => false,
            },
            is_secure,
            is_incognito,
            notice,
        }
    }

    /// The OS window title for the active tab.
    pub fn window_title(&self) -> (t: String)
        ensures
            t@ == window_title_spec(*self),
    {
        let k = self.find_tab(self.active);
        let mut t = if k < self.tabs.len() && self.tabs[k].incognito {
            String::from_str("\u{1F576} ")
        } else {
            String::new()
        };
        if k < self.tabs.len() {
            t.append(self.tabs[k].title.as_str());
        } else {
            t.append("SCIFI");
        }
        t.append(" \u{2014} SCIFI");
        t
    }

    /// The Settings page's state, given whether a custom background is set
    /// and the recent disk history.
    pub fn settings_state(&self, background_set: bool, history: Vec<HistoryEntry>) -> (s:
        SettingsState)
        ensures
            s.tracking_protection == self.tracking_protection,
            s.blocked_count == self.blocked_count,
            s.blocked_hosts@.len() == security::blocked_host_list().len(),
            forall|i: int|
                0 <= i < s.blocked_hosts@.len() ==> #[trigger] s.blocked_hosts@[i]@
                    == security::blocked_host_list()[i],
            s.background_set == background_set,
            s.devtools_enabled == self.devtools_enabled,
            s.history == history,
            s.private_session@ == self.incognito_session_log@,
    {
        SettingsState {
            tracking_protection: self.tracking_protection,
            blocked_count: self.blocked_count,
            blocked_hosts: security::blocked_hosts(),
            background_set,
            devtools_enabled: self.devtools_enabled,
            history,
            private_session: history::duplicate_entries(&self.incognito_session_log),
        }
    }

    /// Whether a tab with this id shows the Settings page.
    fn shows_settings(&self, id: u32) -> (r: bool)
        ensures
            r == is_settings_tab(self.tabs@, id),
    {
        let mut i: usize = 0;
        while i < self.tabs.len()
            invariant
                i <= self.tabs@.len(),
                forall|j: int|
                    0 <= j < i ==> !(#[trigger] self.tabs@[j].id == id && text::has_prefix(
                        self.tabs@[j].url@,
                        "scifi://settings"@,
                    )),
            decreases self.tabs.len() - i,
        {
            if self.tabs[i].id == id && text::str_starts_with(
                self.tabs[i].url.as_str(),
                "scifi://settings",
            ) {
                return true;
            }
            i = i + 1;
        }
        false
    }

    /// The warm webviews whose tab shows the Settings page (there may be
    /// more than one), in recency order.
    pub fn settings_views(&self) -> (r: Vec<u32>)
        ensures
            r@ == settings_ids(self.lru@, self.tabs@),
    {
        let mut r: Vec<u32> = Vec::new();
        let mut i: usize = 0;
        while i < self.lru.len()
            invariant
                i <= self.lru@.len(),
                r@ == settings_ids(self.lru@.take(i as int), self.tabs@),
            decreases self.lru.len() - i,
        {
            assert(self.lru@.take(i + 1).drop_last() =~= self.lru@.take(i as int));
            if self.shows_settings(self.lru[i]) {
                r.push(self.lru[i]);
            }
            i = i + 1;
        }
        assert(self.lru@.take(self.lru@.len() as int) =~= self.lru@);
        r
    }

    /// All warm webviews, most recently used first.
    pub fn live_views(&self) -> (r: Vec<u32>)
        ensures
            r@ == self.lru@,
    {
        let mut r: Vec<u32> = Vec::new();
        let mut i: usize = 0;
        while i < self.lru.len()
            invariant
                i <= self.lru@.len(),
                r@ == self.lru@.take(i as int),
            decreases self.lru.len() - i,
        {
            r.push(self.lru[i]);
            assert(self.lru@.take(i + 1) =~= self.lru@.take(i as int).push(self.lru@[i as int]));
            i = i + 1;
        }
        assert(self.lru@.take(self.lru@.len() as int) =~= self.lru@);
        r
    }
}

} // verus!

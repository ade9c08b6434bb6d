//! Tab state and the warm-webview pool.
//!
//! Only up to `MAX_LIVE_TABS` content webviews are alive at once. The warm
//! set is kept in recency order in `lru` (most recent first); every open tab,
//! warm or not, has an entry in `tabs` with its url and title. Switching to a
//! cold tab rebuilds its webview from the stored url.
//!
//! The webviews themselves live outside this module: each operation here
//! updates the state and returns what has to be done to them (build, show,
//! hide, drop, load).
use vstd::prelude::*;
use std::collections::VecDeque;
use crate::text;
use crate::security::{self, BlockReason, Verdict, AddressResolution};
use crate::history::{self, HistoryEntry};

verus! {

/// Combined height (px) of the chrome webview: outer padding, the floating
/// tab-strip row, the gap and the floating toolbar row.
pub const TOOLBAR_HEIGHT: u32 = 96;

/// Maximum number of content webviews kept warm at once.
pub const MAX_LIVE_TABS: usize = 6;

/// The user agent content webviews are built with.
pub const USER_AGENT: &'static str = "SCIFI/0.1 (MITOS; Linux) WebKitGTK";

/// One open tab.
#[derive(Debug)]
pub struct TabMeta {
    pub id: u32,
    pub url: String,
    pub title: String,
    pub incognito: bool,
}

/// A rectangle in logical pixels.
#[derive(Clone, Copy, PartialEq, Eq, Structural, Debug)]
pub struct Bounds {
    pub x: u32,
    pub y: u32,
    pub width: u32,
    pub height: u32,
}

/// Where the content webview sits: directly under the chrome strip.
pub open spec fn content_rect_spec(width: u32, height: u32) -> Bounds {
    Bounds { x: 0, y: TOOLBAR_HEIGHT, width, height }
}

/// The rectangle for a content webview of the given size.
pub fn content_rect(width: u32, height: u32) -> (b: Bounds)
    ensures
        b == content_rect_spec(width, height),
{
    Bounds { x: 0, y: TOOLBAR_HEIGHT, width, height }
}

/// The browser's state apart from the webviews themselves.
pub struct AppState {
    pub tabs: Vec<TabMeta>,
    /// Ids whose content webview is warm, most recently used first.
    pub lru: VecDeque<u32>,
    pub active: u32,
    pub next_id: u32,
    pub content_size: (u32, u32),
    /// A short-lived, user-visible notice shown in the toolbar.
    pub notice: Option<String>,
    /// Whether the tracker/ad host blocklist is enforced.
    pub tracking_protection: bool,
    /// Navigations blocked for matching the tracker blocklist this session.
    pub blocked_count: u32,
    /// Visits from incognito tabs this session; kept in memory only.
    pub incognito_session_log: Vec<HistoryEntry>,
    /// Whether new content webviews get developer tools.
    pub devtools_enabled: bool,
}

/// A webview to create for tab `id`.
#[derive(Debug)]
pub struct BuildRequest {
    pub id: u32,
    pub url: String,
    pub incognito: bool,
    pub devtools: bool,
}

/// What making a tab active asks of the webviews, in order: hide the
/// previously active one, build the new one if it is cold, show it at
/// `bounds`, and drop the evicted ones.
#[derive(Debug)]
pub struct Activation {
    pub hide: Option<u32>,
    pub build: Option<BuildRequest>,
    pub show: u32,
    pub bounds: Bounds,
    pub evicted: Vec<u32>,
}

/// What follows closing a tab.
#[derive(Debug)]
pub enum AfterClose {
    /// The closed tab was not the active one; nothing else changes.
    Stay,
    /// The closed tab was active; the last remaining tab was activated.
    Switched(Activation),
    /// The closed tab was the last one; a fresh home tab was opened.
    OpenedHome(u32, Activation),
}

/// What closing a tab asks of the webviews: drop the closed tab's webview
/// when it was warm, then what `next` says.
#[derive(Debug)]
pub struct Closing {
    pub was_live: bool,
    pub next: AfterClose,
}

/// The outcome of address-bar navigation.
#[derive(Debug)]
pub enum Navigation {
    /// Nothing was typed; nothing changes.
    Ignored,
    /// The text was not an address; the notice says so.
    Rejected,
    /// The navigation policy blocked it; the notice says why.
    Blocked(BlockReason),
    /// Load `url` in the active tab's webview (`view`, when warm).
    Load { view: Option<u32>, url: String },
}

/// The outcome of a page's request to open a new window.
#[derive(Debug)]
pub enum Popup {
    /// Opened as a new tab with this id.
    Opened(u32, Activation),
    /// Blocked by the navigation policy.
    Blocked(BlockReason),
}

/// Where the chrome and content webviews go after a window resize.
#[derive(Debug)]
pub struct Layout {
    pub chrome: Bounds,
    pub active_view: Option<u32>,
    pub content: Bounds,
}

// ---------------------------------------------------------------------
// Specifications
// ---------------------------------------------------------------------

/// The ids of a list of tabs, in order.
pub open spec fn tab_ids(tabs: Seq<TabMeta>) -> Seq<u32> {
    tabs.map_values(|t: TabMeta| t.id)
}

/// Index of the first tab at or after `i` with the given id, or `tabs.len()`.
pub open spec fn find_tab_from(tabs: Seq<TabMeta>, id: u32, i: int) -> int
    decreases tabs.len() - i,
{
    if i >= tabs.len() {
        tabs.len() as int
    } else if tabs[i].id == id {
        i
    } else {
        find_tab_from(tabs, id, i + 1)
    }
}

/// Index of the first tab with the given id, or `tabs.len()`.
pub open spec fn tab_index(tabs: Seq<TabMeta>, id: u32) -> int {
    find_tab_from(tabs, id, 0)
}

/// The sequence with every occurrence of `id` removed.
pub open spec fn without_id(s: Seq<u32>, id: u32) -> Seq<u32>
    decreases s.len(),
{
    if s.len() == 0 {
        s
    } else if s.last() == id {
        without_id(s.drop_last(), id)
    } else {
        without_id(s.drop_last(), id).push(s.last())
    }
}

/// The tabs with every tab of the given id removed.
pub open spec fn without_tab(s: Seq<TabMeta>, id: u32) -> Seq<TabMeta>
    decreases s.len(),
{
    if s.len() == 0 {
        s
    } else if s.last().id == id {
        without_tab(s.drop_last(), id)
    } else {
        without_tab(s.drop_last(), id).push(s.last())
    }
}

/// Whether any of the tabs is incognito.
pub open spec fn has_incognito(tabs: Seq<TabMeta>) -> bool {
    exists|i: int| 0 <= i < tabs.len() && #[trigger] tabs[i].incognito
}

/// The recency list with `id` moved (or added) to the front.
pub open spec fn touched(lru: Seq<u32>, id: u32) -> Seq<u32> {
    seq![id] + without_id(lru, id)
}

/// The recency list after touching `id` and trimming to the pool size.
pub open spec fn lru_after(lru: Seq<u32>, id: u32) -> Seq<u32> {
    if touched(lru, id).len() > MAX_LIVE_TABS {
        touched(lru, id).drop_last()
    } else {
        touched(lru, id)
    }
}

/// The ids evicted when touching `id`.
pub open spec fn evicted_by(lru: Seq<u32>, id: u32) -> Seq<u32> {
    if touched(lru, id).len() > MAX_LIVE_TABS {
        seq![touched(lru, id).last()]
    } else {
        seq![]
    }
}

/// `a` is what activating `id` asks of the webviews, given the tabs, the warm
/// list `lru`, the previously active id, the devtools setting and the content
/// size; `lru2` is the warm list afterwards.
pub open spec fn activation_ok(
    tabs: Seq<TabMeta>,
    lru: Seq<u32>,
    active: u32,
    devtools: bool,
    size: (u32, u32),
    id: u32,
    a: Activation,
    lru2: Seq<u32>,
) -> bool {
    let k = tab_index(tabs, id);
    &&& a.hide == (if active != id && lru.contains(active) {
        Some(active)
    } else {
        None
    })
    &&& (if lru.contains(id) {
        a.build is None
    } else {
        a.build matches Some(b) && b.id == id && b.devtools == devtools && (if k < tabs.len() {
            b.url@ == tabs[k].url@ && b.incognito == tabs[k].incognito
        } else {
            b.url@ == "scifi://home/"@ && !b.incognito
        })
    })
    &&& a.show == id
    &&& a.bounds == content_rect_spec(size.0, size.1)
    &&& lru2 == lru_after(lru, id)
    &&& a.evicted@ == evicted_by(lru, id)
}

/// `new` differs from `old` at most in the url of tab `k`, which is `url`.
pub open spec fn url_set_at(old: Seq<TabMeta>, new: Seq<TabMeta>, k: int, url: Seq<char>) -> bool {
    &&& new.len() == old.len()
    &&& forall|i: int| 0 <= i < old.len() && i != k ==> new[i] == old[i]
    &&& (0 <= k < old.len() ==> {
        &&& new[k].id == old[k].id
        &&& new[k].title == old[k].title
        &&& new[k].incognito == old[k].incognito
        &&& new[k].url@ == url
    })
}

/// `new` differs from `old` at most in the title of tab `k`, which is `title`.
pub open spec fn title_set_at(old: Seq<TabMeta>, new: Seq<TabMeta>, k: int, title: Seq<char>) -> bool {
    &&& new.len() == old.len()
    &&& forall|i: int| 0 <= i < old.len() && i != k ==> new[i] == old[i]
    &&& (0 <= k < old.len() ==> {
        &&& new[k].id == old[k].id
        &&& new[k].url == old[k].url
        &&& new[k].incognito == old[k].incognito
        &&& new[k].title@ == title
    })
}

/// The active tab's webview, when it is warm.
pub open spec fn active_view_of(s: AppState) -> Option<u32> {
    if s.lru@.contains(s.active) {
        Some(s.active)
    } else {
        None
    }
}

/// The settings and session fields are the same in both states.
pub open spec fn same_settings(a: AppState, b: AppState) -> bool {
    &&& a.content_size == b.content_size
    &&& a.tracking_protection == b.tracking_protection
    &&& a.devtools_enabled == b.devtools_enabled
}

/// The toolbar notice for a blocked navigation.
pub open spec fn blocked_notice(target: Seq<char>, r: BlockReason) -> Seq<char> {
    "Blocked: "@ + target + " ("@ + security::reason_label(r) + ")"@
}

/// The toolbar notice for address-bar text that is not an address.
pub open spec fn not_an_address_notice(raw: Seq<char>) -> Seq<char> {
    "Can't open \""@ + raw + "\" \u{2014} try a full address like https://example.com"@
}

/// The blocked counter after a block for `r`: it counts tracker blocks only,
/// and saturates.
pub open spec fn count_after_block(count: u32, r: BlockReason) -> u32 {
    if r == BlockReason::TrackerHost && count < u32::MAX {
        (count + 1) as u32
    } else {
        count
    }
}

/// `new` is `old` after a navigation to `target` was blocked for `r`.
pub open spec fn blocked_ok(old: AppState, new: AppState, target: Seq<char>, r: BlockReason) -> bool {
    &&& new.notice matches Some(n) && n@ == blocked_notice(target, r)
    &&& new.blocked_count == count_after_block(old.blocked_count, r)
    &&& new.tabs == old.tabs
    &&& new.lru == old.lru
    &&& new.active == old.active
    &&& new.next_id == old.next_id
    &&& new.incognito_session_log == old.incognito_session_log
    &&& same_settings(old, new)
}

/// `new` is `old` after opening tab `id` at `url` and activating it with `a`.
pub open spec fn opened_ok(
    old: AppState,
    new: AppState,
    url: Seq<char>,
    incognito: bool,
    id: u32,
    a: Activation,
) -> bool {
    &&& id == old.next_id
    &&& new.next_id == old.next_id + 1
    &&& new.tabs@.len() == old.tabs@.len() + 1
    &&& new.tabs@.drop_last() == old.tabs@
    &&& new.tabs@.last().id == id
    &&& new.tabs@.last().url@ == url
    &&& new.tabs@.last().title@ == "New Tab"@
    &&& new.tabs@.last().incognito == incognito
    &&& new.notice is None
    &&& activation_ok(
        new.tabs@,
        old.lru@,
        old.active,
        old.devtools_enabled,
        old.content_size,
        id,
        a,
        new.lru@,
    )
    &&& new.active == id
    &&& new.blocked_count == old.blocked_count
    &&& new.incognito_session_log == old.incognito_session_log
    &&& same_settings(old, new)
}

/// `new` is `old` after activating tab `id` with `a`.
pub open spec fn activated_ok(old: AppState, new: AppState, id: u32, a: Activation) -> bool {
    &&& activation_ok(
        old.tabs@,
        old.lru@,
        old.active,
        old.devtools_enabled,
        old.content_size,
        id,
        a,
        new.lru@,
    )
    &&& new.active == id
    &&& new.tabs == old.tabs
    &&& new.next_id == old.next_id
    &&& new.notice == old.notice
    &&& new.blocked_count == old.blocked_count
    &&& new.incognito_session_log == old.incognito_session_log
    &&& same_settings(old, new)
}

/// `new` is `old` after navigating the active tab to the address-bar text `raw`,
/// with outcome `n`.
pub open spec fn navigated_ok(old: AppState, new: AppState, raw: Seq<char>, n: Navigation) -> bool {
    match security::resolve_spec(raw, old.tracking_protection) {
        security::Resolved::Empty => n is Ignored && new == old,
        security::Resolved::NotAnAddress => {
            &&& n is Rejected
            &&& new.notice matches Some(m) && m@ == not_an_address_notice(raw)
            &&& new.tabs == old.tabs
            &&& new.lru == old.lru
            &&& new.active == old.active
            &&& new.next_id == old.next_id
            &&& new.blocked_count == old.blocked_count
            &&& new.incognito_session_log == old.incognito_session_log
            &&& same_settings(old, new)
        },
        security::Resolved::Blocked(r) => {
            &&& n matches Navigation::Blocked(nr) && nr == r
            &&& blocked_ok(old, new, raw, r)
        },
        security::Resolved::Url(u) => {
            &&& n matches Navigation::Load { view, url } && url@ == u && view == active_view_of(old)
            &&& url_set_at(old.tabs@, new.tabs@, tab_index(old.tabs@, old.active), u)
            &&& new.notice is None
            &&& new.lru == old.lru
            &&& new.active == old.active
            &&& new.next_id == old.next_id
            &&& new.blocked_count == old.blocked_count
            &&& new.incognito_session_log == old.incognito_session_log
            &&& same_settings(old, new)
        },
    }
}

/// Closing tab `id` never needs an id beyond the last one: when it is the
/// active tab and no other tab is left, a fresh id is available.
pub open spec fn close_allowed(s: AppState, id: u32) -> bool {
    s.active == id && without_tab(s.tabs@, id).len() == 0 ==> s.next_id < u32::MAX
}

/// `new` is `old` after closing tab `id`, with outcome `c`.
pub open spec fn closed_ok(old: AppState, new: AppState, id: u32, c: Closing) -> bool {
    let rest = without_tab(old.tabs@, id);
    &&& c.was_live == old.lru@.contains(id)
    &&& new.incognito_session_log@ == (if has_incognito(rest) {
        old.incognito_session_log@
    } else {
        Seq::<HistoryEntry>::empty()
    })
    &&& new.blocked_count == old.blocked_count
    &&& same_settings(old, new)
    &&& old.active != id ==> {
        &&& c.next is Stay
        &&& new.tabs@ == rest
        &&& new.lru@ == without_id(old.lru@, id)
        &&& new.active == old.active
        &&& new.next_id == old.next_id
        &&& new.notice == old.notice
    }
    &&& old.active == id && rest.len() > 0 ==> {
        &&& c.next matches AfterClose::Switched(a) && activation_ok(
            rest,
            without_id(old.lru@, id),
            old.active,
            old.devtools_enabled,
            old.content_size,
            rest.last().id,
            a,
            new.lru@,
        )
        &&& new.active == rest.last().id
        &&& new.tabs@ == rest
        &&& new.next_id == old.next_id
        &&& new.notice == old.notice
    }
    &&& old.active == id && rest.len() == 0 ==> {
        &&& c.next matches AfterClose::OpenedHome(nid, a) && nid == old.next_id && activation_ok(
            new.tabs@,
            without_id(old.lru@, id),
            old.active,
            old.devtools_enabled,
            old.content_size,
            nid,
            a,
            new.lru@,
        ) && new.active == nid
        &&& new.next_id == old.next_id + 1
        &&& new.tabs@.len() == 1
        &&& new.tabs@[0].id == old.next_id
        &&& new.tabs@[0].url@ == "scifi://home/"@
        &&& new.tabs@[0].title@ == "New Tab"@
        &&& !new.tabs@[0].incognito
        &&& new.notice is None
    }
}

// ---------------------------------------------------------------------
// Lemmas
// ---------------------------------------------------------------------

/// What `without_id` keeps and how long it is.
pub proof fn lemma_without_id(s: Seq<u32>, id: u32)
    ensures
        forall|x: u32| without_id(s, id).contains(x) <==> (s.contains(x) && x != id),
        without_id(s, id).len() <= s.len(),
        s.no_duplicates() ==> without_id(s, id).no_duplicates(),
        s.no_duplicates() && s.contains(id) ==> without_id(s, id).len() == s.len() - 1,
        !s.contains(id) ==> without_id(s, id) == s,
    decreases s.len(),
{
    if s.len() > 0 {
        let p = s.drop_last();
        lemma_without_id(p, id);
        let r = without_id(s, id);
        let rp = without_id(p, id);
        assert(s =~= p.push(s.last()));
        if s.last() == id {
            assert(r == rp);
        } else {
            assert(r == rp.push(s.last()));
        }
        assert forall|j: int| 0 <= j < rp.len() implies r[j] == rp[j] by {}
        assert forall|x: u32| r.contains(x) <==> (s.contains(x) && x != id) by {
            if s.contains(x) && x != id {
                let j = choose|j: int| 0 <= j < s.len() && s[j] == x;
                if j < p.len() {
                    assert(p[j] == x);
                    assert(p.contains(x));
                    assert(rp.contains(x));
                    let m = choose|m: int| 0 <= m < rp.len() && rp[m] == x;
                    assert(r[m] == x);
                } else {
                    assert(r[rp.len() as int] == x);
                }
            }
            if r.contains(x) {
                let j = choose|j: int| 0 <= j < r.len() && r[j] == x;
                if j < rp.len() {
                    assert(rp[j] == x);
                    assert(rp.contains(x));
                    assert(p.contains(x));
                    let m = choose|m: int| 0 <= m < p.len() && p[m] == x;
                    assert(s[m] == x);
                } else {
                    assert(s[s.len() - 1] == x);
                }
            }
        }
        if s.no_duplicates() {
            assert(p.no_duplicates()) by {
                assert forall|i: int, j: int|
                    0 <= i < p.len() && 0 <= j < p.len() && i != j implies p[i] != p[j] by {
                    assert(p[i] == s[i] && p[j] == s[j]);
                }
            }
            if s.last() != id {
                assert(!p.contains(s.last())) by {
                    if p.contains(s.last()) {
                        let m = choose|m: int| 0 <= m < p.len() && p[m] == s.last();
                        assert(s[m] == s[s.len() - 1]);
                    }
                }
                assert(!rp.contains(s.last()));
                assert forall|i: int, j: int|
                    0 <= i < r.len() && 0 <= j < r.len() && i != j implies r[i] != r[j] by {
                    if i < rp.len() && j < rp.len() {
                        assert(r[i] == rp[i] && r[j] == rp[j]);
                    } else if i < rp.len() {
                        assert(r[i] == rp[i]);
                        assert(rp.contains(rp[i]));
                    } else {
                        assert(r[j] == rp[j]);
                        assert(rp.contains(rp[j]));
                    }
                }
            }
            if s.contains(id) {
                if s.last() != id {
                    let m = choose|m: int| 0 <= m < s.len() && s[m] == id;
                    assert(p[m] == id);
                    assert(p.contains(id));
                } else {
                    assert(!p.contains(id)) by {
                        if p.contains(id) {
                            let m = choose|m: int| 0 <= m < p.len() && p[m] == id;
                            assert(s[m] == s[s.len() - 1]);
                        }
                    }
                }
            }
        }
        if !s.contains(id) {
            assert(!p.contains(id)) by {
                if p.contains(id) {
                    let m = choose|m: int| 0 <= m < p.len() && p[m] == id;
                    assert(s[m] == id);
                }
            }
            assert(s[s.len() - 1] != id);
        }
    }
}

/// Removing the tabs of an id removes that id from the tab ids.
pub proof fn lemma_without_tab_ids(s: Seq<TabMeta>, id: u32)
    ensures
        tab_ids(without_tab(s, id)) == without_id(tab_ids(s), id),
    decreases s.len(),
{
    if s.len() > 0 {
        lemma_without_tab_ids(s.drop_last(), id);
        assert(tab_ids(s.drop_last()) =~= tab_ids(s).drop_last());
        if s.last().id != id {
            assert(tab_ids(without_tab(s.drop_last(), id).push(s.last())) =~= tab_ids(
                without_tab(s.drop_last(), id),
            ).push(s.last().id));
        }
    } else {
        assert(tab_ids(s) =~= Seq::<u32>::empty());
    }
}

/// What `find_tab_from` returns: the first tab at or after `i` with the id.
pub proof fn lemma_find_tab(tabs: Seq<TabMeta>, id: u32, i: int)
    requires
        0 <= i <= tabs.len(),
    ensures
        i <= find_tab_from(tabs, id, i) <= tabs.len(),
        find_tab_from(tabs, id, i) < tabs.len() ==> tabs[find_tab_from(tabs, id, i)].id == id,
        forall|k: int| i <= k < find_tab_from(tabs, id, i) ==> tabs[k].id != id,
    decreases tabs.len() - i,
{
    if i < tabs.len() && tabs[i].id != id {
        lemma_find_tab(tabs, id, i + 1);
    }
}

/// After touching `id`, the warm list has `id` first, no duplicates and at
/// most `MAX_LIVE_TABS` entries, and what leaves it is exactly the eviction.
pub proof fn lemma_touch(lru: Seq<u32>, id: u32)
    requires
        lru.no_duplicates(),
        lru.len() <= MAX_LIVE_TABS,
    ensures
        lru_after(lru, id).no_duplicates(),
        lru_after(lru, id).len() <= MAX_LIVE_TABS,
        lru_after(lru, id).len() > 0,
        lru_after(lru, id)[0] == id,
        forall|x: u32|
            lru_after(lru, id).contains(x) <==> (x == id || lru.contains(x)) && !evicted_by(
                lru,
                id,
            ).contains(x),
        !evicted_by(lru, id).contains(id),
        evicted_by(lru, id).len() <= 1,
{
    lemma_without_id(lru, id);
    let w = without_id(lru, id);
    let f = touched(lru, id);
    assert(f[0] == id);
    assert forall|k: int| 0 <= k < w.len() implies f[k + 1] == w[k] by {}
    assert(!w.contains(id));
    assert(f.no_duplicates()) by {
        assert forall|i: int, j: int|
            0 <= i < f.len() && 0 <= j < f.len() && i != j implies f[i] != f[j] by {
            if i == 0 {
                assert(f[j] == w[j - 1]);
                assert(w.contains(w[j - 1]));
            } else if j == 0 {
                assert(f[i] == w[i - 1]);
                assert(w.contains(w[i - 1]));
            } else {
                assert(f[i] == w[i - 1] && f[j] == w[j - 1]);
            }
        }
    }
    assert forall|x: u32| f.contains(x) <==> (x == id || lru.contains(x)) by {
        if x != id && lru.contains(x) {
            assert(w.contains(x));
            let m = choose|m: int| 0 <= m < w.len() && w[m] == x;
            assert(f[m + 1] == x);
        }
        if f.contains(x) && x != id {
            let m = choose|m: int| 0 <= m < f.len() && f[m] == x;
            assert(m > 0);
            assert(w[m - 1] == x);
            assert(w.contains(x));
        }
    }
    if f.len() > MAX_LIVE_TABS {
        let d = f.drop_last();
        assert forall|x: u32| d.contains(x) <==> f.contains(x) && x != f.last() by {
            if f.contains(x) && x != f.last() {
                let m = choose|m: int| 0 <= m < f.len() && f[m] == x;
                assert(m < f.len() - 1);
                assert(d[m] == x);
            }
            if d.contains(x) {
                let m = choose|m: int| 0 <= m < d.len() && d[m] == x;
                assert(f[m] == x);
                assert(f.len() - 1 != m);
            }
        }
        assert(f.last() != id) by {
            assert(f[f.len() - 1] != f[0]);
        }
        assert(d[0] == id);
        assert forall|x: u32| evicted_by(lru, id).contains(x) <==> x == f.last() by {
            if x == f.last() {
                assert(evicted_by(lru, id)[0] == x);
            }
        }
    }
}

/// The warm-webview pool is bounded: in every valid state (and every
/// operation keeps the state valid) at most `MAX_LIVE_TABS` webviews are
/// warm, each at most once, however many tabs are open.
pub proof fn law_warm_pool_bounded(s: AppState)
    requires
        s.wf(),
    ensures
        s.lru@.len() <= MAX_LIVE_TABS,
        s.lru@.no_duplicates(),
{
}

/// Activating a tab leaves it warm and most recently used; it is built only
/// when it was cold, it is never itself evicted, at most one other webview
/// is evicted, and the warm set afterwards is the old one plus the tab minus
/// the evicted webview.
pub proof fn law_activation_keeps_tab_warm(
    tabs: Seq<TabMeta>,
    lru: Seq<u32>,
    active: u32,
    devtools: bool,
    size: (u32, u32),
    id: u32,
    a: Activation,
    lru2: Seq<u32>,
)
    requires
        lru.no_duplicates(),
        lru.len() <= MAX_LIVE_TABS,
        activation_ok(tabs, lru, active, devtools, size, id, a, lru2),
    ensures
        lru2.len() > 0 && lru2[0] == id,
        lru2.len() <= MAX_LIVE_TABS,
        lru2.no_duplicates(),
        a.build is Some <==> !lru.contains(id),
        !a.evicted@.contains(id),
        a.evicted@.len() <= 1,
        forall|x: u32| lru2.contains(x) <==> (x == id || lru.contains(x)) && !a.evicted@.contains(x),
{
    lemma_touch(lru, id);
}

/// The tabs kept by `without_tab` are exactly the tabs of other ids, each
/// found again in the result.
pub proof fn lemma_without_tab_members(s: Seq<TabMeta>, id: u32)
    ensures
        forall|k: int|
            0 <= k < s.len() && s[k].id != id ==> exists|j: int|
                0 <= j < without_tab(s, id).len() && #[trigger] without_tab(s, id)[j] == s[k],
        forall|j: int|
            0 <= j < without_tab(s, id).len() ==> exists|k: int|
                0 <= k < s.len() && s[k].id != id && #[trigger] without_tab(s, id)[j] == s[k],
    decreases s.len(),
{
    if s.len() > 0 {
        let p = s.drop_last();
        lemma_without_tab_members(p, id);
        let r = without_tab(s, id);
        let rp = without_tab(p, id);
        if s.last().id == id {
            assert(r == rp);
        } else {
            assert(r == rp.push(s.last()));
        }
        assert forall|k: int| 0 <= k < s.len() && s[k].id != id implies exists|j: int|
            0 <= j < r.len() && #[trigger] r[j] == s[k] by {
            if k == s.len() - 1 {
                assert(r[rp.len() as int] == s[k]);
            } else {
                assert(p[k] == s[k]);
                let j = choose|j: int| 0 <= j < rp.len() && #[trigger] rp[j] == p[k];
                assert(r[j] == rp[j]);
            }
        }
        assert forall|j: int| 0 <= j < r.len() implies exists|k: int|
            0 <= k < s.len() && s[k].id != id && #[trigger] r[j] == s[k] by {
            if j < rp.len() {
                assert(r[j] == rp[j]);
                let k = choose|k: int| 0 <= k < p.len() && p[k].id != id && #[trigger] rp[j] == p[k];
                assert(s[k] == p[k]);
            } else {
                assert(r[j] == s[s.len() - 1]);
            }
        }
    }
}

/// A tab anywhere in the list that is incognito makes the list have an
/// incognito tab, and a list with none has no incognito tab at any position.
pub proof fn law_incognito_at_any_position(tabs: Seq<TabMeta>, i: int)
    ensures
        0 <= i < tabs.len() && tabs[i].incognito ==> has_incognito(tabs),
        !has_incognito(tabs) ==> forall|k: int| 0 <= k < tabs.len() ==> !(#[trigger] tabs[k]).incognito,
{
}

/// Closing a tab keeps the private session log while any other open tab
/// (wherever it stands) is incognito, and empties it when none is.
pub proof fn law_private_log_follows_incognito_tabs(
    old: AppState,
    new: AppState,
    id: u32,
    c: Closing,
)
    requires
        closed_ok(old, new, id, c),
    ensures
        (exists|k: int| 0 <= k < old.tabs@.len() && old.tabs@[k].id != id && #[trigger] old.tabs@[k].incognito)
            ==> new.incognito_session_log@ == old.incognito_session_log@,
        (forall|k: int| 0 <= k < old.tabs@.len() && old.tabs@[k].id != id ==> !(#[trigger] old.tabs@[k]).incognito)
            ==> new.incognito_session_log@.len() == 0,
{
    lemma_without_tab_members(old.tabs@, id);
    let rest = without_tab(old.tabs@, id);
    if exists|k: int| 0 <= k < old.tabs@.len() && old.tabs@[k].id != id && #[trigger] old.tabs@[k].incognito {
        let k = choose|k: int| 0 <= k < old.tabs@.len() && old.tabs@[k].id != id && #[trigger] old.tabs@[k].incognito;
        let j = choose|j: int| 0 <= j < rest.len() && #[trigger] rest[j] == old.tabs@[k];
        assert(rest[j].incognito);
        assert(has_incognito(rest));
    }
    if forall|k: int| 0 <= k < old.tabs@.len() && old.tabs@[k].id != id ==> !(#[trigger] old.tabs@[k]).incognito {
        assert forall|j: int| 0 <= j < rest.len() implies !(#[trigger] rest[j]).incognito by {
            let k = choose|k: int| 0 <= k < old.tabs@.len() && old.tabs@[k].id != id && #[trigger] rest[j] == old.tabs@[k];
        }
        assert(!has_incognito(rest));
    }
}

/// Activation moves the tab to the front of the warm list and keeps the
/// order of the others; when that list outgrows the pool, exactly its last
/// (least recently used) entry is evicted, and the warm list afterwards is
/// the first `MAX_LIVE_TABS` entries.
pub proof fn law_lru_eviction_order(
    tabs: Seq<TabMeta>,
    lru: Seq<u32>,
    active: u32,
    devtools: bool,
    size: (u32, u32),
    id: u32,
    a: Activation,
    lru2: Seq<u32>,
)
    requires
        lru.no_duplicates(),
        lru.len() <= MAX_LIVE_TABS,
        activation_ok(tabs, lru, active, devtools, size, id, a, lru2),
    ensures
        ({
            let front = seq![id] + without_id(lru, id);
            &&& lru2.len() == if front.len() > MAX_LIVE_TABS {
                MAX_LIVE_TABS as int
            } else {
                front.len() as int
            }
            &&& lru2 == front.take(lru2.len() as int)
            &&& a.evicted@ == front.skip(lru2.len() as int)
        }),
        lru.len() == MAX_LIVE_TABS && !lru.contains(id) ==> a.evicted@ == seq![lru.last()] && lru2
            == seq![id] + lru.drop_last(),
{
    lemma_without_id(lru, id);
    let front = seq![id] + without_id(lru, id);
    assert(front == touched(lru, id));
    if front.len() > MAX_LIVE_TABS {
        assert(front.drop_last() =~= front.take(front.len() - 1));
        assert(seq![front.last()] =~= front.skip(front.len() - 1));
    } else {
        assert(front =~= front.take(front.len() as int));
        assert(front.skip(front.len() as int) =~= Seq::<u32>::empty());
    }
    if lru.len() == MAX_LIVE_TABS && !lru.contains(id) {
        assert(without_id(lru, id) == lru);
        assert(front.last() == lru.last());
        assert(front.drop_last() =~= seq![id] + lru.drop_last());
    }
}


// ---------------------------------------------------------------------
// Executable helpers
// ---------------------------------------------------------------------

/// The list with every occurrence of `id` removed.
pub fn remove_id(v: &VecDeque<u32>, id: u32) -> (r: VecDeque<u32>)
    ensures
        r@ == without_id(v@, id),
{
    let mut r: VecDeque<u32> = VecDeque::new();
    let mut i: usize = 0;
    while i < v.len()
        invariant
            i <= v.len(),
            r@ == without_id(v@.take(i as int), id),
        decreases v.len() - i,
    {
        assert(v@.take(i + 1).drop_last() =~= v@.take(i as int));
        if v[i] != id {
            r.push_back(v[i]);
        }
        i = i + 1;
    }
    assert(v@.take(v.len() as int) =~= v@);
    r
}

/// Whether `id` is in the list.
fn contains_id(v: &VecDeque<u32>, id: u32) -> (r: bool)
    ensures
        r == v@.contains(id),
{
    let mut i: usize = 0;
    while i < v.len()
        invariant
            i <= v.len(),
            forall|k: int| 0 <= k < i ==> v@[k] != id,
        decreases v.len() - i,
    {
        if v[i] == id {
            return true;
        }
        i = i + 1;
    }
    false
}

/// Removes every tab with the given id, keeping the order of the others.
fn remove_tabs(tabs: &mut Vec<TabMeta>, id: u32)
    ensures
        final(tabs)@ == without_tab(old(tabs)@, id),
{
    let ghost orig = old(tabs)@;
    let mut i: usize = 0;
    let ghost mut k: int = 0;
    while i < tabs.len()
        invariant
            0 <= k <= orig.len(),
            i == without_tab(orig.take(k), id).len(),
            tabs@ == without_tab(orig.take(k), id) + orig.skip(k),
        decreases tabs.len() - i,
    {
        assert(orig.take(k + 1).drop_last() =~= orig.take(k));
        assert(tabs@[i as int] == orig[k]);
        if tabs[i].id == id {
            tabs.remove(i);
            assert(tabs@ =~= without_tab(orig.take(k + 1), id) + orig.skip(k + 1));
        } else {
            assert(tabs@ =~= without_tab(orig.take(k + 1), id) + orig.skip(k + 1));
            i = i + 1;
        }
        proof {
            k = k + 1;
        }
    }
    proof {
        assert(orig.take(k) =~= orig);
        assert(orig.skip(k) =~= Seq::<TabMeta>::empty());
    }
}

/// Whether any tab is incognito.
fn any_incognito(tabs: &Vec<TabMeta>) -> (r: bool)
    ensures
        r == has_incognito(tabs@),
{
    let mut i: usize = 0;
    while i < tabs.len()
        invariant
            i <= tabs.len(),
            forall|k: int| 0 <= k < i ==> !tabs@[k].incognito,
        decreases tabs.len() - i,
    {
        if tabs[i].incognito {
            return true;
        }
        i = i + 1;
    }
    false
}

impl AppState {
    /// The state's invariant: the warm list has no duplicates and never holds
    /// more than `MAX_LIVE_TABS` ids; tab ids are distinct and all below
    /// `next_id`.
    pub open spec fn wf(&self) -> bool {
        &&& self.lru@.no_duplicates()
        &&& self.lru@.len() <= MAX_LIVE_TABS
        &&& tab_ids(self.tabs@).no_duplicates()
        &&& forall|i: int| 0 <= i < self.tabs@.len() ==> #[trigger] self.tabs@[i].id < self.next_id
    }

    /// A fresh state for a window of the given size: no tabs, nothing warm,
    /// tracking protection on, devtools off.
    pub fn new(width: u32, height: u32) -> (s: AppState)
        ensures
            s.wf(),
            s.tabs@.len() == 0,
            s.lru@.len() == 0,
            s.active == 0,
            s.next_id == 1,
            s.content_size == (width, if height >= TOOLBAR_HEIGHT {
                (height - TOOLBAR_HEIGHT) as u32
            } else {
                0u32
            }),
            s.notice is None,
            s.tracking_protection,
            s.blocked_count == 0,
            s.incognito_session_log@.len() == 0,
            !s.devtools_enabled,
    {
        let s = AppState {
            tabs: Vec::new(),
            lru: VecDeque::new(),
            active: 0,
            next_id: 1,
            content_size: (width, height.saturating_sub(TOOLBAR_HEIGHT)),
            notice: None,
            tracking_protection: true,
            blocked_count: 0,
            incognito_session_log: Vec::new(),
            devtools_enabled: false,
        };
        assert(tab_ids(s.tabs@) =~= Seq::<u32>::empty());
        s
    }

    /// Whether tab `id` has a warm webview.
    pub fn is_live(&self, id: u32) -> (r: bool)
        ensures
            r == self.lru@.contains(id),
    {
        contains_id(&self.lru, id)
    }

    /// The active tab's webview id, when it is warm.
    pub fn active_view(&self) -> (r: Option<u32>)
        ensures
            r == (if self.lru@.contains(self.active) {
                Some(self.active)
            } else {
                None
            }),
    {
        if self.is_live(self.active) {
            Some(self.active)
        } else {
            None
        }
    }

    /// Index of the first tab with the given id, or the number of tabs.
    pub fn find_tab(&self, id: u32) -> (r: usize)
        ensures
            r == tab_index(self.tabs@, id),
    {
        let mut i: usize = 0;
        while i < self.tabs.len()
            invariant
                i <= self.tabs@.len(),
                tab_index(self.tabs@, id) == find_tab_from(self.tabs@, id, i as int),
            decreases self.tabs.len() - i,
        {
            if self.tabs[i].id == id {
                return i;
            }
            i = i + 1;
        }
        i
    }

    /// Makes `id` the active tab: hides the previously active webview, builds
    /// the webview for `id` if it is cold (from its stored url, or the home
    /// page when no tab has that id), shows it, and evicts the least recently
    /// used warm webview once the pool has grown past `MAX_LIVE_TABS`.
    pub fn activate_tab(&mut self, id: u32) -> (a: Activation)
        requires
            old(self).wf(),
        ensures
            final(self).wf(),
            activated_ok(*old(self), *final(self), id, a),
    {
        let prev = self.active;
        let hide = if prev != id && self.is_live(prev) {
            Some(prev)
        } else {
            None
        };
        let build = if !self.is_live(id) {
            let k = self.find_tab(id);
            if k < self.tabs.len() {
                Some(
                    BuildRequest {
                        id,
                        url: self.tabs[k].url.clone(),
                        incognito: self.tabs[k].incognito,
                        devtools: self.devtools_enabled,
                    },
                )
            } else {
                Some(
                    BuildRequest {
                        id,
                        url: String::from_str("scifi://home/"),
                        incognito: false,
                        devtools: self.devtools_enabled,
                    },
                )
            }
        } else {
            None
        };
        let bounds = content_rect(self.content_size.0, self.content_size.1);
        proof {
            lemma_touch(self.lru@, id);
        }
        let mut lru = remove_id(&self.lru, id);
        lru.push_front(id);
        assert(lru@ =~= touched(old(self).lru@, id));
        let mut evicted: Vec<u32> = Vec::new();
        if lru.len() > MAX_LIVE_TABS {
            let last = lru.pop_back();
            match last {
                Some(e) => {
                    evicted.push(e);
                },
                None => {},
            }
        }
        assert(evicted@ =~= evicted_by(old(self).lru@, id));
        self.lru = lru;
        self.active = id;
        Activation { hide, build, show: id, bounds, evicted }
    }

    /// Opens a new tab at `url` and makes it active. Returns the new tab's id.
    pub fn open_tab(&mut self, url: &str, incognito: bool) -> (r: (u32, Activation))
        requires
            old(self).wf(),
            old(self).next_id < u32::MAX,
        ensures
            final(self).wf(),
            opened_ok(*old(self), *final(self), url@, incognito, r.0, r.1),
            forall|i: int| 0 <= i < old(self).tabs@.len() ==> #[trigger] old(self).tabs@[i].id != r.0,
    {
        let id = self.next_id;
        self.next_id = self.next_id + 1;
        let ghost before = self.tabs@;
        self.tabs.push(
            TabMeta {
                id,
                url: String::from_str(url),
                title: String::from_str("New Tab"),
                incognito,
            },
        );
        self.notice = None;
        proof {
            assert(tab_ids(self.tabs@) =~= tab_ids(before).push(id));
            assert forall|i: int, j: int|
                0 <= i < tab_ids(self.tabs@).len() && 0 <= j < tab_ids(self.tabs@).len() && i
                    != j implies tab_ids(self.tabs@)[i] != tab_ids(self.tabs@)[j] by {
                if i < before.len() && j < before.len() {
                    assert(tab_ids(before)[i] == tab_ids(self.tabs@)[i]);
                    assert(tab_ids(before)[j] == tab_ids(self.tabs@)[j]);
                } else if i < before.len() {
                    assert(before[i].id < id);
                } else {
                    assert(before[j].id < id);
                }
            }
            assert forall|i: int| 0 <= i < self.tabs@.len() implies #[trigger] self.tabs@[i].id
                < self.next_id by {
                if i < before.len() {
                    assert(self.tabs@[i] == before[i]);
                }
            }
            assert(self.tabs@.drop_last() =~= before);
        }
        let a = self.activate_tab(id);
        (id, a)
    }

    /// Closes tab `id`. When it was the active tab, the last remaining tab
    /// becomes active, or a fresh home tab is opened when none is left. When
    /// no incognito tab remains, the in-memory incognito session log is
    /// cleared: closing the last private tab ends that session.
    pub fn close_tab(&mut self, id: u32) -> (c: Closing)
        requires
            old(self).wf(),
            close_allowed(*old(self), id),
        ensures
            final(self).wf(),
            closed_ok(*old(self), *final(self), id, c),
            old(self).active == id ==> tab_index(final(self).tabs@, final(self).active) < final(self).tabs@.len(),
            !has_incognito(final(self).tabs@) ==> final(self).incognito_session_log@.len() == 0,
    {
        let was_active = self.active == id;
        let was_live = self.is_live(id);
        let ghost old_tabs = self.tabs@;
        remove_tabs(&mut self.tabs, id);
        self.lru = remove_id(&self.lru, id);
        if !any_incognito(&self.tabs) {
            self.incognito_session_log.clear();
        }
        proof {
            lemma_without_id(old(self).lru@, id);
            lemma_without_tab_ids(old_tabs, id);
            lemma_without_id(tab_ids(old_tabs), id);
            assert forall|i: int| 0 <= i < self.tabs@.len() implies #[trigger] self.tabs@[i].id
                < self.next_id by {
                let x = self.tabs@[i].id;
                assert(tab_ids(self.tabs@)[i] == x);
                assert(tab_ids(self.tabs@).contains(x));
                assert(tab_ids(old_tabs).contains(x));
                let j = choose|j: int| 0 <= j < tab_ids(old_tabs).len() && tab_ids(old_tabs)[j] == x;
                assert(old_tabs[j].id == x);
            }
        }
        if !was_active {
            return Closing { was_live, next: AfterClose::Stay };
        }
        if self.tabs.len() > 0 {
            let next = self.tabs[self.tabs.len() - 1].id;
            let a = self.activate_tab(next);
            proof {
                lemma_find_tab(self.tabs@, next, 0);
                if tab_index(self.tabs@, next) >= self.tabs@.len() {
                    assert(self.tabs@[self.tabs@.len() - 1].id == next);
                }
            }
            Closing { was_live, next: AfterClose::Switched(a) }
        } else {
            let (nid, a) = self.open_tab("scifi://home/", false);
            proof {
                assert(self.tabs@[0] == self.tabs@.last());
                assert(!self.tabs@[0].incognito);
                assert(!has_incognito(self.tabs@));
            }
            Closing { was_live, next: AfterClose::OpenedHome(nid, a) }
        }
    }

    /// Records a blocked navigation: sets the toolbar notice and, for a
    /// tracker block, bumps the blocked counter (saturating).
    fn block_and_notify(&mut self, target: &str, reason: BlockReason)
        requires
            old(self).wf(),
        ensures
            final(self).wf(),
            blocked_ok(*old(self), *final(self), target@, reason),
    {
        let a = text::concat("Blocked: ", target);
        let b = a.concat(" (");
        let c = b.concat(reason.label());
        let d = c.concat(")");
        self.notice = Some(d);
        if reason.is_tracker() && self.blocked_count < u32::MAX {
            self.blocked_count = self.blocked_count + 1;
        }
    }

    /// Runs a navigation a content webview is about to make through the
    /// policy. A blocked navigation sets the notice (and counts a tracker
    /// block); an allowed one changes nothing.
    pub fn check_navigation(&mut self, target: &str) -> (v: Verdict)
        requires
            old(self).wf(),
        ensures
            final(self).wf(),
            v == security::classify_spec(target@, old(self).tracking_protection),
            v == Verdict::Allow ==> *final(self) == *old(self),
            v matches Verdict::Block(r) ==> blocked_ok(*old(self), *final(self), target@, r),
    {
        let v = security::classify(target, self.tracking_protection);
        match v {
            Verdict::Allow => {},
            Verdict::Block(reason) => {
                self.block_and_notify(target, reason);
            },
        }
        v
    }

    /// Handles a page's request to open a new window: it becomes a tab of
    /// SCIFI's own, after the same policy check as a normal navigation, and a
    /// popup from an incognito tab stays incognito.
    pub fn on_new_window_request(&mut self, url: &str, incognito: bool) -> (p: Popup)
        requires
            old(self).wf(),
            security::classify_spec(url@, old(self).tracking_protection) == Verdict::Allow ==> old(self).next_id < u32::MAX,
        ensures
            final(self).wf(),
            security::classify_spec(url@, old(self).tracking_protection) == Verdict::Allow ==> (p matches Popup::Opened(id, a) && opened_ok(*old(self), *final(self), url@, incognito, id, a)),
            security::classify_spec(url@, old(self).tracking_protection) matches Verdict::Block(r) ==> (p matches Popup::Blocked(pr) && pr == r && blocked_ok(*old(self), *final(self), url@, r)),
    {
        match security::classify(url, self.tracking_protection) {
            Verdict::Allow => {
                let (id, a) = self.open_tab(url, incognito);
                Popup::Opened(id, a)
            },
            Verdict::Block(reason) => {
                self.block_and_notify(url, reason);
                Popup::Blocked(reason)
            },
        }
    }

    /// Sets the url of the active tab (the first tab with the active id).
    fn set_active_url(&mut self, url: String)
        requires
            old(self).wf(),
        ensures
            final(self).wf(),
            url_set_at(old(self).tabs@, final(self).tabs@, tab_index(old(self).tabs@, old(self).active), url@),
            final(self).lru == old(self).lru,
            final(self).active == old(self).active,
            final(self).next_id == old(self).next_id,
            final(self).notice == old(self).notice,
            final(self).blocked_count == old(self).blocked_count,
            final(self).incognito_session_log == old(self).incognito_session_log,
            same_settings(*old(self), *final(self)),
    {
        let k = self.find_tab(self.active);
        if k < self.tabs.len() {
            self.tabs[k].url = url;
        }
        proof {
            assert(tab_ids(self.tabs@) =~= tab_ids(old(self).tabs@));
            assert forall|i: int| 0 <= i < self.tabs@.len() implies #[trigger] self.tabs@[i].id
                < self.next_id by {
                assert(self.tabs@[i].id == old(self).tabs@[i].id);
            }
        }
    }

    /// Resolves and navigates the active tab to what the user typed in the
    /// address bar (or what a `navigate` command carries).
    pub fn navigate_active(&mut self, raw_input: &str) -> (n: Navigation)
        requires
            old(self).wf(),
        ensures
            final(self).wf(),
            navigated_ok(*old(self), *final(self), raw_input@, n),
    {
        let resolution = security::resolve_address_bar_input(raw_input, self.tracking_protection);
        match resolution {
            AddressResolution::Empty => Navigation::Ignored,
            AddressResolution::NotAnAddress => {
                let a = text::concat("Can't open \"", raw_input);
                let b = a.concat("\" \u{2014} try a full address like https://example.com");
                self.notice = Some(b);
                Navigation::Rejected
            },
            AddressResolution::Blocked(reason) => {
                self.block_and_notify(raw_input, reason);
                Navigation::Blocked(reason)
            },
            AddressResolution::Url(url) => {
                let view = self.active_view();
                let load = url.clone();
                self.set_active_url(url);
                self.notice = None;
                Navigation::Load { view, url: load }
            },
        }
    }

    /// A page finished loading in a tab of the given kind: the active tab
    /// takes the loaded url and the notice clears. An incognito visit goes
    /// into the in-memory session log and is never handed to the disk
    /// history; a normal visit is returned for the history writer (unless it
    /// is one of SCIFI's own pages).
    pub fn on_page_loaded(&mut self, url: &str, incognito: bool, now: u64) -> (rec: Option<
        HistoryEntry,
    >)
        requires
            old(self).wf(),
        ensures
            final(self).wf(),
            url_set_at(old(self).tabs@, final(self).tabs@, tab_index(old(self).tabs@, old(self).active), url@),
            final(self).notice is None,
            final(self).lru == old(self).lru,
            final(self).active == old(self).active,
            final(self).next_id == old(self).next_id,
            final(self).blocked_count == old(self).blocked_count,
            same_settings(*old(self), *final(self)),
            incognito ==> {
                let k = tab_index(old(self).tabs@, old(self).active);
                &&& rec is None
                &&& final(self).incognito_session_log@.len() == old(self).incognito_session_log@.len() + 1
                &&& final(self).incognito_session_log@.drop_last() == old(self).incognito_session_log@
                &&& final(self).incognito_session_log@.last().url@ == url@
                &&& final(self).incognito_session_log@.last().visited_at == now
                &&& final(self).incognito_session_log@.last().title@ == (if k < old(self).tabs@.len() {
                    old(self).tabs@[k].title@
                } else {
                    Seq::<char>::empty()
                })
            },
            !incognito ==> {
                let k = tab_index(old(self).tabs@, old(self).active);
                &&& final(self).incognito_session_log == old(self).incognito_session_log
                &&& (rec is None <==> history::is_internal_url(url@))
                &&& rec matches Some(e) ==> e.url@ == url@ && e.visited_at == now && e.title@ == (if k < old(self).tabs@.len() {
                    old(self).tabs@[k].title@
                } else {
                    Seq::<char>::empty()
                })
            },
    {
        let k = self.find_tab(self.active);
        let title = if k < self.tabs.len() {
            self.tabs[k].title.clone()
        } else {
            String::new()
        };
        self.set_active_url(String::from_str(url));
        self.notice = None;
        if incognito {
            let ghost before = self.incognito_session_log@;
            self.incognito_session_log.push(
                HistoryEntry {
                    url: String::from_str(url),
                    title,
                    visited_at: now,
                },
            );
            assert(self.incognito_session_log@.drop_last() =~= before);
            None
        } else {
            history::record_visit(url, title.as_str(), now)
        }
    }

    /// The active page's title changed: the active tab takes it.
    pub fn on_title_changed(&mut self, title: String)
        requires
            old(self).wf(),
        ensures
            final(self).wf(),
            title_set_at(old(self).tabs@, final(self).tabs@, tab_index(old(self).tabs@, old(self).active), title@),
            final(self).lru == old(self).lru,
            final(self).active == old(self).active,
            final(self).next_id == old(self).next_id,
            final(self).notice == old(self).notice,
            final(self).blocked_count == old(self).blocked_count,
            final(self).incognito_session_log == old(self).incognito_session_log,
            same_settings(*old(self), *final(self)),
    {
        let k = self.find_tab(self.active);
        if k < self.tabs.len() {
            self.tabs[k].title = title;
        }
        proof {
            assert(tab_ids(self.tabs@) =~= tab_ids(old(self).tabs@));
            assert forall|i: int| 0 <= i < self.tabs@.len() implies #[trigger] self.tabs@[i].id
                < self.next_id by {
                assert(self.tabs@[i].id == old(self).tabs@[i].id);
            }
        }
    }

    /// Lays the webviews out for a window of the given size: the chrome strip
    /// on top, the active content webview (when warm) under it. Hidden warm
    /// webviews get their bounds when they are shown again.
    pub fn layout(&mut self, width: u32, height: u32) -> (l: Layout)
        ensures
            l.chrome == (Bounds { x: 0, y: 0, width, height: TOOLBAR_HEIGHT }),
            l.active_view == active_view_of(*old(self)),
            final(self).content_size == (width, if height >= TOOLBAR_HEIGHT {
                (height - TOOLBAR_HEIGHT) as u32
            } else {
                0u32
            }),
            l.content == content_rect_spec(final(self).content_size.0, final(self).content_size.1),
            final(self).tabs == old(self).tabs,
            final(self).lru == old(self).lru,
            final(self).active == old(self).active,
            final(self).next_id == old(self).next_id,
            final(self).notice == old(self).notice,
            final(self).tracking_protection == old(self).tracking_protection,
            final(self).blocked_count == old(self).blocked_count,
            final(self).incognito_session_log == old(self).incognito_session_log,
            final(self).devtools_enabled == old(self).devtools_enabled,
    {
        let content_h = height.saturating_sub(TOOLBAR_HEIGHT);
        let chrome = Bounds { x: 0, y: 0, width, height: TOOLBAR_HEIGHT };
        let active_view = self.active_view();
        let content = content_rect(width, content_h);
        self.content_size = (width, content_h);
        Layout { chrome, active_view, content }
    }
}

} // verus!

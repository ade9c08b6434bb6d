//! Routing of the internal `scifi://` scheme.
//!
//! The chrome webview and the content webviews each get their own handler.
//! The content handler has no route to the chrome UI's files, so a page in a
//! tab can never load `scifi://chrome/...` and impersonate SCIFI's own UI.
//! Content pages are routed by host as well as path: `scifi://home/`,
//! `scifi://settings/` and `scifi://incognito/` all request `/`.
use vstd::prelude::*;
use crate::text;

verus! {

/// One of SCIFI's compiled-in files.
#[derive(Clone, Copy, PartialEq, Eq, Structural, Debug)]
pub enum Asset {
    ChromeHtml,
    ChromeCss,
    ChromeJs,
    HomeHtml,
    HomeCss,
    HomeJs,
    SettingsHtml,
    SettingsCss,
    SettingsJs,
    IncognitoHtml,
    IncognitoCss,
}

/// What a `scifi://` request is answered with.
#[derive(Clone, Copy, PartialEq, Eq, Structural, Debug)]
pub enum Route {
    Asset(Asset),
    /// The user's background image, read from disk.
    Background,
    NotFound,
}

/// A strict content security policy: no inline script or style anywhere in
/// SCIFI's own pages, and they may not be framed.
pub const CSP: &'static str = "default-src 'self'; img-src 'self'; script-src 'self'; style-src 'self'; frame-ancestors 'none'";

/// The kind of file an asset is.
pub open spec fn content_type_of(a: Asset) -> Seq<char> {
    match a {
        Asset::ChromeHtml | Asset::HomeHtml | Asset::SettingsHtml | Asset::IncognitoHtml =>
            "text/html; charset=utf-8"@,
        Asset::ChromeCss | Asset::HomeCss | Asset::SettingsCss | Asset::IncognitoCss =>
            "text/css; charset=utf-8"@,
        Asset::ChromeJs | Asset::HomeJs | Asset::SettingsJs =>
            "application/javascript; charset=utf-8"@,
    }
}

/// The content type an asset is served with.
pub fn asset_content_type(a: Asset) -> (t: &'static str)
    ensures
        t@ == content_type_of(a),
{
    match a {
        Asset::ChromeHtml | Asset::HomeHtml | Asset::SettingsHtml | Asset::IncognitoHtml =>
            "text/html; charset=utf-8",
        Asset::ChromeCss | Asset::HomeCss | Asset::SettingsCss | Asset::IncognitoCss =>
            "text/css; charset=utf-8",
        Asset::ChromeJs | Asset::HomeJs | Asset::SettingsJs =>
            "application/javascript; charset=utf-8",
    }
}

/// The security headers every asset is served with, besides its content type.
pub fn asset_headers() -> (h: Vec<(&'static str, &'static str)>)
    ensures
        h@.len() == 4,
        h@[0].0@ == "Content-Security-Policy"@ && h@[0].1@ == CSP@,
        h@[1].0@ == "X-Content-Type-Options"@ && h@[1].1@ == "nosniff"@,
        h@[2].0@ == "X-Frame-Options"@ && h@[2].1@ == "DENY"@,
        h@[3].0@ == "Referrer-Policy"@ && h@[3].1@ == "no-referrer"@,
{
    let mut h: Vec<(&'static str, &'static str)> = Vec::new();
    h.push(("Content-Security-Policy", CSP));
    h.push(("X-Content-Type-Options", "nosniff"));
    h.push(("X-Frame-Options", "DENY"));
    h.push(("Referrer-Policy", "no-referrer"));
    h
}

/// The answer to a request for the background image.
#[derive(Debug, PartialEq, Eq)]
pub struct BackgroundReply {
    pub status: u16,
    pub content_type: Option<&'static str>,
    /// Always `no-store`, so a changed background is never hidden by a
    /// cached copy (or a cached 404).
    pub cache_control: &'static str,
    pub body: Vec<u8>,
}

/// The background reply, given the image's bytes and content type when one
/// is set: 200 with the bytes as they are, or 404 with an empty body.
pub fn background_reply(bytes: Option<Vec<u8>>, content_type: Option<&'static str>) -> (r:
    BackgroundReply)
    ensures
        r.cache_control@ == "no-store"@,
        (bytes is Some && content_type is Some) ==> {
            &&& r.status == 200
            &&& r.content_type == content_type
            &&& r.body@ == bytes->0@
        },
        !(bytes is Some && content_type is Some) ==> {
            &&& r.status == 404
            &&& r.content_type is None
            &&& r.body@.len() == 0
        },
{
    match (bytes, content_type) {
        (Some(b), Some(t)) => BackgroundReply {
            status: 200,
            content_type: Some(t),
            cache_control: "no-store",
            body: b,
        },
        _ => BackgroundReply {
            status: 404,
            content_type: None,
            cache_control: "no-store",
            body: Vec::new(),
        },
    }
}

/// The chrome webview's routes, by path.
pub open spec fn chrome_route_spec(path: Seq<char>) -> Route {
    if path == "/"@ || path == "/index.html"@ {
        Route::Asset(Asset::ChromeHtml)
    } else if path == "/chrome.css"@ {
        Route::Asset(Asset::ChromeCss)
    } else if path == "/chrome.js"@ {
        Route::Asset(Asset::ChromeJs)
    } else if path == "/asset/background"@ {
        Route::Background
    } else {
        Route::NotFound
    }
}

/// The content webviews' routes, by host and path. A page's own CSS and JS
/// keep the page's host, so the incognito page's `home.js` is found under
/// the `incognito` host.
pub open spec fn content_route_spec(host: Seq<char>, path: Seq<char>) -> Route {
    let page = path == "/"@ || path == ""@;
    if path == "/asset/background"@ {
        Route::Background
    } else if host == "home"@ && page {
        Route::Asset(Asset::HomeHtml)
    } else if host == "home"@ && path == "/home.css"@ {
        Route::Asset(Asset::HomeCss)
    } else if host == "home"@ && path == "/home.js"@ {
        Route::Asset(Asset::HomeJs)
    } else if host == "settings"@ && page {
        Route::Asset(Asset::SettingsHtml)
    } else if host == "settings"@ && path == "/settings.css"@ {
        Route::Asset(Asset::SettingsCss)
    } else if host == "settings"@ && path == "/settings.js"@ {
        Route::Asset(Asset::SettingsJs)
    } else if host == "incognito"@ && page {
        Route::Asset(Asset::IncognitoHtml)
    } else if host == "incognito"@ && path == "/incognito.css"@ {
        Route::Asset(Asset::IncognitoCss)
    } else if host == "incognito"@ && path == "/home.js"@ {
        Route::Asset(Asset::HomeJs)
    } else {
        Route::NotFound
    }
}

/// Routes a request to the chrome webview's handler.
pub fn chrome_route(path: &str) -> (r: Route)
    ensures
        r == chrome_route_spec(path@),
{
    if text::str_eq(path, "/") || text::str_eq(path, "/index.html") {
        Route::Asset(Asset::ChromeHtml)
    } else if text::str_eq(path, "/chrome.css") {
        Route::Asset(Asset::ChromeCss)
    } else if text::str_eq(path, "/chrome.js") {
        Route::Asset(Asset::ChromeJs)
    } else if text::str_eq(path, "/asset/background") {
        Route::Background
    } else {
        Route::NotFound
    }
}

/// Routes a request to a content webview's handler; a missing host counts as
/// an empty one.
pub fn content_route(host: Option<&str>, path: &str) -> (r: Route)
    ensures
        r == content_route_spec(
            match host {
                Some(h) => h@,
                None => ""@,
            },
            path@,
        ),
{
    let h = match host {
        Some(h) => h,
        None => "",
    };
    let page = text::str_eq(path, "/") || text::str_eq(path, "");
    if text::str_eq(path, "/asset/background") {
        Route::Background
    } else if text::str_eq(h, "home") && page {
        Route::Asset(Asset::HomeHtml)
    } else if text::str_eq(h, "home") && text::str_eq(path, "/home.css") {
        Route::Asset(Asset::HomeCss)
    } else if text::str_eq(h, "home") && text::str_eq(path, "/home.js") {
        Route::Asset(Asset::HomeJs)
    } else if text::str_eq(h, "settings") && page {
        Route::Asset(Asset::SettingsHtml)
    } else if text::str_eq(h, "settings") && text::str_eq(path, "/settings.css") {
        Route::Asset(Asset::SettingsCss)
    } else if text::str_eq(h, "settings") && text::str_eq(path, "/settings.js") {
        Route::Asset(Asset::SettingsJs)
    } else if text::str_eq(h, "incognito") && page {
        Route::Asset(Asset::IncognitoHtml)
    } else if text::str_eq(h, "incognito") && text::str_eq(path, "/incognito.css") {
        Route::Asset(Asset::IncognitoCss)
    } else if text::str_eq(h, "incognito") && text::str_eq(path, "/home.js") {
        Route::Asset(Asset::HomeJs)
    } else {
        Route::NotFound
    }
}

/// No page in a content webview can reach the chrome UI's files: the content
/// routes never answer with a chrome asset, whatever the host and path.
pub proof fn law_content_cannot_reach_chrome(host: Seq<char>, path: Seq<char>)
    ensures
        content_route_spec(host, path) != Route::Asset(Asset::ChromeHtml),
        content_route_spec(host, path) != Route::Asset(Asset::ChromeCss),
        content_route_spec(host, path) != Route::Asset(Asset::ChromeJs),
{
}

/// The content routing table: each internal page and its own CSS and JS are
/// served under that page's host (the incognito page reuses `home.js` under
/// its own host), the background under any host, and nothing else. For every
/// host and path, the route is the listed one exactly when the pair is listed.
pub proof fn law_content_routing_table(host: Seq<char>, path: Seq<char>)
    ensures
        content_route_spec(host, path) == Route::Background <==> path == "/asset/background"@,
        content_route_spec(host, path) == Route::Asset(Asset::HomeHtml) <==> (host == "home"@ && (
        path == "/"@ || path == ""@)),
        content_route_spec(host, path) == Route::Asset(Asset::HomeCss) <==> (host == "home"@ && path
            == "/home.css"@),
        content_route_spec(host, path) == Route::Asset(Asset::HomeJs) <==> ((host == "home"@
            || host == "incognito"@) && path == "/home.js"@),
        content_route_spec(host, path) == Route::Asset(Asset::SettingsHtml) <==> (host
            == "settings"@ && (path == "/"@ || path == ""@)),
        content_route_spec(host, path) == Route::Asset(Asset::SettingsCss) <==> (host
            == "settings"@ && path == "/settings.css"@),
        content_route_spec(host, path) == Route::Asset(Asset::SettingsJs) <==> (host
            == "settings"@ && path == "/settings.js"@),
        content_route_spec(host, path) == Route::Asset(Asset::IncognitoHtml) <==> (host
            == "incognito"@ && (path == "/"@ || path == ""@)),
        content_route_spec(host, path) == Route::Asset(Asset::IncognitoCss) <==> (host
            == "incognito"@ && path == "/incognito.css"@),
{
    reveal_strlit("/asset/background");
    reveal_strlit("/");
    reveal_strlit("");
    reveal_strlit("home");
    reveal_strlit("settings");
    reveal_strlit("incognito");
    reveal_strlit("/home.css");
    reveal_strlit("/home.js");
    reveal_strlit("/settings.css");
    reveal_strlit("/settings.js");
    reveal_strlit("/incognito.css");
    assert("/asset/background"@.len() == 17);
    assert("/"@.len() == 1);
    assert(""@.len() == 0);
    assert("home"@.len() == 4);
    assert("settings"@.len() == 8);
    assert("incognito"@.len() == 9);
    assert("/home.css"@.len() == 9);
    assert("/home.js"@.len() == 8);
    assert("/settings.css"@.len() == 13);
    assert("/settings.js"@.len() == 12);
    assert("/incognito.css"@.len() == 14);
}

/// The chrome routing table: the chrome page under `/` or `/index.html`, its
/// CSS and JS, and the background; nothing else.
pub proof fn law_chrome_routing_table(path: Seq<char>)
    ensures
        chrome_route_spec(path) == Route::Asset(Asset::ChromeHtml) <==> (path == "/"@ || path
            == "/index.html"@),
        chrome_route_spec(path) == Route::Asset(Asset::ChromeCss) <==> path == "/chrome.css"@,
        chrome_route_spec(path) == Route::Asset(Asset::ChromeJs) <==> path == "/chrome.js"@,
        chrome_route_spec(path) == Route::Background <==> path == "/asset/background"@,
{
    reveal_strlit("/");
    reveal_strlit("/index.html");
    reveal_strlit("/chrome.css");
    reveal_strlit("/chrome.js");
    reveal_strlit("/asset/background");
    assert("/"@.len() == 1);
    assert("/index.html"@.len() == 11);
    assert("/chrome.css"@.len() == 11);
    assert("/chrome.js"@.len() == 10);
    assert("/asset/background"@.len() == 17);
    assert("/index.html"@[1] != "/chrome.css"@[1]);
}

} // verus!

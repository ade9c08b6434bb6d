# scifi

The browser logic of SCIFI, a webview-shell browser: navigation policy,
tab and warm-webview pool management, history records, command dispatch and
`scifi://` routing, written in Verus with its contracts proved.

- `src/` is the verified library.
  - `text.rs`: character-sequence specifications (prefix, find, trim,
    ASCII lower-casing, decimal digits) and their executable forms.
  - `security.rs`: the scheme allowlist, the tracker host blocklist,
    `classify` and `resolve_address_bar_input`.
  - `state.rs`: `AppState`, tab opening/closing/activation with the bounded
    LRU pool of warm webviews, navigation and page events.
  - `sync.rs`: the state pushed to the chrome UI and the Settings page.
  - `ipc.rs`: the chrome and Settings command channels.
  - `history.rs`, `background.rs`, `protocol.rs`: history records, the custom
    background's file name and content type, internal page routing.
- `tests/` exercises the library on concrete values.
- `app/` is the program around it: window, webviews, GTK dialog, JSON,
  disk and threads. It carries out what the library decides.

//! SCIFI's browser logic: navigation policy, tab and warm-webview pool
//! management, history records, command dispatch and internal routing.
use vstd::prelude::*;

pub mod text;
pub mod security;
pub mod history;
pub mod state;
pub mod sync;
pub mod ipc;
pub mod protocol;
pub mod background;

verus! {

} // verus!

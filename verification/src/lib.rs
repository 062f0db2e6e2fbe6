//! Pull-diagnostics orchestration: decides when to ask connected language
//! servers for diagnostics on a document, runs ordered groups of concurrent
//! requests with cooperative per-document cancellation, reconciles full and
//! unchanged reports into a shared diagnostics store, and retries when a
//! server asks for it.

pub mod controller;
pub mod debounce;
pub mod diagnostic;
pub mod hooks;
pub mod orchestrator;
pub mod reconcile;
pub mod store;

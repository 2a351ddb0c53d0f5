//! Core of a plugin-driven download manager: a registry of provider
//! manifests, a download path resolver, a dispatch planner with a layered
//! success check for external provider processes, a persisted
//! active-download state machine with cooperative cancellation, and an
//! archive extraction reporter.
pub mod ansi;
pub mod archive;
pub mod decimal;
pub mod dispatch;
pub mod loader;
pub mod manifest;
pub mod native;
pub mod pathres;
pub mod protocol;
pub mod registry;
pub mod settings;
pub mod store;
pub mod text;
pub mod urlname;

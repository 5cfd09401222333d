//! Mirrors the workspace state of a tiling window manager into small pieces
//! of styled markup, one per workspace, for an external status-bar renderer.
//!
//! The library holds the verified core: the cyclic palette and capsule-chain
//! segment renderer, the snapshot builder that pads and orders the workspace
//! list, the output synchronizer that diffs each rendered segment against the
//! last published one, and the session state machine that drives a refresh
//! pass per workspace-change event. The process edges (window-manager IPC,
//! configuration loading, the output directory itself) live outside and hand
//! the library plain values.

pub mod config;
pub mod laws;
pub mod numeral;
pub mod published;
pub mod render;
pub mod session;
pub mod snapshot;
pub mod sync;
pub mod workspace;

pub use config::Config;
pub use workspace::Workspace;

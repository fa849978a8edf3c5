//! A Unix process supervisor's engine: the per-task state machine, the
//! registry of monitors, and the rules that decide what to spawn, signal
//! and reap.

pub mod child;
pub mod client;
pub mod default;
pub mod editor;
pub mod error;
pub mod formatter;
pub mod history;
pub mod laws;
pub mod message;
pub mod model;
pub mod monitor;
pub mod nix_utils;
pub mod relaunch;
pub mod server;
pub mod signal;
pub mod state;
pub mod status;
pub mod task;
pub mod text;
pub mod watcher;

//! Hotkey registry and automation engine.
//!
//! The crate owns global shortcut bindings across two overlapping tiers,
//! resolves conflicts between them, models a cancellable clipboard-polling
//! task, and synthesizes the command strings injected into the foreground
//! window.  Every operation is a verified state-machine step: the library
//! decides, and hands the embedding an explicit list of platform actions
//! (OS registrations, clipboard writes, keystrokes) to perform.

pub mod binding;
pub mod commands;
pub mod context;
pub mod errors;
pub mod inject;
pub mod normalize;
pub mod registry;
pub mod remote;
pub mod text;
pub mod watcher;

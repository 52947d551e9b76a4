//! Core of a Linux clipboard manager: content classification, junk
//! filtering and normalization, the clipboard bridge state, the polling
//! watcher's decision logic, and a bounded deduplicated history store
//! with out-of-line content blobs.
pub mod bridge;
pub mod classify;
pub mod commands;
pub mod config;
pub mod detect;
pub mod filter;
pub mod hash;
pub mod history;
pub mod theme;
pub mod tray;
pub mod watcher;

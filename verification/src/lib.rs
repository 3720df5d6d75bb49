//! Core logic for managing the lifecycle of a long-running game-server
//! process: rotating world backups with a bounded retention policy, and an
//! idempotent version-update pipeline driven by a remote version manifest.
//!
//! The crate holds the decision and data logic only. Filesystem walks,
//! network transfers and process control are performed by a thin caller that
//! feeds plain values in and carries the returned commands out.

pub mod archive;
pub mod compression;
pub mod config;
pub mod error;
pub mod order;
pub mod retention;
pub mod screen;
pub mod timestamp;
pub mod update;
pub mod version;

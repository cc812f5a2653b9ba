//! Core of a progress-sync tool for an online exercise platform.
//!
//! The library mirrors a remote, ordered catalog of coding tasks into a
//! local workspace: it maps tasks to deterministic local paths, tracks which
//! tasks are solved, derives the next task to work on, and plans idempotent
//! synchronization of local directory state against a remote snapshot.
//! Network and filesystem access live outside the library; every function
//! here is pure and carries a verified contract.

pub mod config;
pub mod digits;
pub mod errors;
pub mod listing;
pub mod meta;
pub mod models;
pub mod submit;
pub mod sync;
pub mod workspace;

//! Stacked pull requests over a change-tracking VCS: the synchronization and
//! reconciliation engine.
pub mod app;
pub mod commit;
pub mod config;
pub mod diff;
pub mod enrich;
pub mod error;
pub mod git;
pub mod github;
pub mod jujutsu;
pub mod reconcile;
pub mod stack;
pub mod text;

//! Incremental one-way mirroring of remote mail folders into a local store:
//! account defaults, the folder scope rule, the per-account dedup ledger and
//! its file format, and the per-folder delivery decisions.

pub mod account_run;
pub mod auth;
pub mod cli;
pub mod clock;
pub mod config;
pub mod error;
pub mod filter;
pub mod maildir;
pub mod sync;
pub mod sync_state;
mod text;

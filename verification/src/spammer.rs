//! Spam bot: deterministic accounts, signing order, submission, and scheduling.

pub mod accounts;
pub mod chain_api;
pub mod chains;
pub mod cli;
pub mod config;
pub mod jitter;
pub mod polling;
pub mod presigner;
pub mod private;
pub mod run;
pub mod scheduler;
pub mod shared;
pub mod signer;
pub mod spam;
pub mod submitter;

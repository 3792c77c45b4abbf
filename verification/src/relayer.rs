//! Standalone relayer: leader selection, submissions, remembered batches, and merged statuses.

pub mod health;
pub mod state;
pub mod status;
pub mod submit;
pub mod targets;
pub mod batches;

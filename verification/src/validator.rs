//! Validator binary: configuration, wiring decisions, uploads, and the built-in relayer.

pub mod config;
pub mod relayer;
pub mod run;
pub mod setup;
pub mod tx_gen;
pub mod upload;

//! Deployment generator: cluster sizing, key material, and generated configuration.

pub mod local;
pub mod material;
pub mod plan;
pub mod remote;

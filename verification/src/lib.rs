//! Verified logic of the Constantinople node tooling: the deployment generator, the
//! transaction relayer, the validator wiring, the load spammer, and the transaction CLI.

pub mod deploy;
pub mod formatting;
pub mod keys;
pub mod numbers;
pub mod order;
pub mod rate;
pub mod relayer;
pub mod ring;
pub mod spammer;
pub mod text;
pub mod tx;
pub mod validator;

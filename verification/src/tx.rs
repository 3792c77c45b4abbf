//! Transaction utility: keys, addresses, transfers, and a rate-limited ring spammer.

pub mod address;
pub mod keygen;
pub mod shared;
pub mod spam;
pub mod transfer;

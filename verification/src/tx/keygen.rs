//! Deterministic key generation.

use crate::formatting::hex;
use crate::spammer::accounts::{generate_account, SpamAccount};
use vstd::prelude::*;

verus! {

/// The options of the key generation command.
#[derive(Debug)]
pub struct Args {
    /// Integer seed for deterministic key generation.
    pub seed: u64,
}

/// Generates the keys of a seed.
pub fn run(args: &Args) -> (keys: SpamAccount)
    ensures
        keys.is_seeded(args.seed),
{
    generate_account(args.seed)
}

fn labelled(label: &str, bytes: &[u8]) -> (line: String)
    ensures
        line@ == label@ + crate::formatting::hex_text(bytes@),
{
    let mut line = label.to_string();
    line.append(hex(bytes).as_str());
    line
}

/// Returns the lines that show generated keys and their address.
pub fn key_lines(keys: &SpamAccount, address: &[u8]) -> (lines: Vec<String>)
    ensures
        lines@.len() == 3,
        lines@[0]@ == "private_key: "@ + crate::formatting::hex_text(keys.private_key@),
        lines@[1]@ == "public_key:  "@ + crate::formatting::hex_text(keys.public_key@),
        lines@[2]@ == "address:     "@ + crate::formatting::hex_text(address@),
{
    let mut lines: Vec<String> = Vec::new();
    lines.push(labelled("private_key: ", keys.private_key.as_slice()));
    lines.push(labelled("public_key:  ", keys.public_key.as_slice()));
    lines.push(labelled("address:     ", address));
    lines
}

} // verus!

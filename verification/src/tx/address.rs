//! Address of a public key.

use crate::formatting::{from_hex, hex};
use crate::keys::read_public_key;
use vstd::prelude::*;

verus! {

/// The options of the address command.
#[derive(Debug)]
pub struct Args {
    /// Hex-encoded ed25519 public key.
    pub pubkey: String,
}

/// Reads the public key whose address is asked for.
pub fn run(args: &Args) -> (key: Result<Vec<u8>, String>)
    ensures
        match (key, crate::formatting::hex_bytes(args.pubkey@)) {
            (Err(reason), None) => reason@ == "bad pubkey hex"@,
            (Err(reason), Some(bytes)) => !crate::keys::encodes_public_key(bytes) && reason@
                == "failed to decode public key"@,
            (Ok(key), Some(bytes)) => crate::keys::encodes_public_key(bytes) && key@ == bytes.take(
                crate::keys::PUBLIC_KEY_BYTES as int,
            ),
            _ => false,
        },
{
    let bytes = match from_hex(args.pubkey.as_str()) {
        Some(bytes) => bytes,
        None => return Err("bad pubkey hex".to_string()),
    };
    match read_public_key(&bytes) {
        Some(key) => Ok(key),
        None => Err("failed to decode public key".to_string()),
    }
}

/// Returns the line that names an address.
pub fn address_line(address: &[u8]) -> (line: String)
    ensures
        line@ == crate::formatting::hex_text(address@),
{
    hex(address)
}

/// A public key reads back from its rendering, and a text that is no hexadecimal text is refused.
pub proof fn public_keys_read_back(args: Args, key: Result<Vec<u8>, String>, bytes: Seq<u8>)
    requires
        call_ensures(run, (&args,), key),
    ensures
        args.pubkey@ == crate::formatting::hex_text(bytes) && bytes.len() == 32
            && crate::keys::encodes_public_key(bytes) ==> (key matches Ok(key) && key@ == bytes),
        args.pubkey@ == crate::formatting::hex_text(bytes) && !crate::keys::encodes_public_key(bytes)
            ==> key is Err,
        crate::formatting::hex_bytes(args.pubkey@) is None ==> key is Err,
{
    crate::formatting::hex_round_trip(bytes);
    assert(bytes.len() == 32 ==> bytes.take(32) =~= bytes);
}

} // verus!

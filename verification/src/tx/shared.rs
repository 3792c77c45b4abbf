//! Parsing of keys and addresses, and the transaction endpoint.

use crate::formatting::from_hex;
use crate::text::trim_trailing_slashes;
use vstd::prelude::*;

verus! {

/// Parses a private key from hex. Bytes beyond those of a key are ignored.
pub fn parse_private_key(text: &str) -> (key: Result<Vec<u8>, String>)
    ensures
        match (key, crate::formatting::hex_bytes(text@)) {
            (Err(reason), None) => reason@ == "bad private key hex"@,
            (Err(reason), Some(bytes)) => bytes.len() < crate::keys::PRIVATE_KEY_BYTES && reason@
                == "failed to decode private key"@,
            (Ok(key), Some(bytes)) => bytes.len() >= crate::keys::PRIVATE_KEY_BYTES && key@
                == bytes.take(crate::keys::PRIVATE_KEY_BYTES as int),
            _ => false,
        },
{
    let bytes = match from_hex(text) {
        Some(bytes) => bytes,
        None => return Err("bad private key hex".to_string()),
    };
    if bytes.len() < crate::keys::PRIVATE_KEY_BYTES {
        return Err("failed to decode private key".to_string());
    }
    let mut key = bytes;
    key.truncate(crate::keys::PRIVATE_KEY_BYTES);
    Ok(key)
}

/// Parses the bytes of an address from hex.
pub fn parse_address(text: &str) -> (bytes: Result<Vec<u8>, String>)
    ensures
        match (bytes, crate::formatting::hex_bytes(text@)) {
            (Err(reason), None) => reason@ == "bad address hex"@,
            (Ok(bytes), Some(decoded)) => bytes@ == decoded,
            _ => false,
        },
{
    match from_hex(text) {
        Some(bytes) => Ok(bytes),
        None => Err("bad address hex".to_string()),
    }
}

/// Returns the URL that transactions are posted to.
pub fn tx_url(endpoint: &str) -> (url: String)
    ensures
        url@ == crate::text::without_trailing_slashes(endpoint@) + "/tx"@,
{
    let mut url = trim_trailing_slashes(endpoint);
    url.append("/tx");
    url
}

/// Returns what a submission is answered: the body of a success, or the words for anything else.
pub fn submit_transaction(success: bool, status: &str, body: String) -> (answer: Result<
    String,
    String,
>)
    ensures
        match answer {
            Ok(answer) => success && answer == body,
            Err(reason) => !success && reason@ == crate::spammer::shared::error_text(
                status@,
                body@,
            ),
        },
{
    if success {
        return Ok(body);
    }
    let mut reason = "error (".to_string();
    reason.append(status);
    reason.append("): ");
    reason.append(body.as_str());
    Err(reason)
}

/// A private key reads back from its rendering, a longer text reads as its first 32 bytes, and a shorter
/// one, or no hexadecimal text, is no key. An address reads back from its rendering whatever its
/// length.
pub proof fn keys_and_addresses_read_back(
    text: &str,
    bytes: Seq<u8>,
    key: Result<Vec<u8>, String>,
    address: Result<Vec<u8>, String>,
)
    requires
        call_ensures(parse_private_key, (text,), key),
        call_ensures(parse_address, (text,), address),
        text@ == crate::formatting::hex_text(bytes),
    ensures
        bytes.len() >= 32 ==> (key matches Ok(key) && key@ == bytes.take(32)),
        bytes.len() < 32 ==> key is Err,
        address matches Ok(address) && address@ == bytes,
{
    crate::formatting::hex_round_trip(bytes);
}

/// A submission that succeeded is answered with its body as it is, and any other with words that begin
/// with its status and end with its body.
pub proof fn answers_keep_the_body(
    success: bool,
    status: &str,
    body: String,
    answer: Result<String, String>,
)
    requires
        call_ensures(submit_transaction, (success, status, body), answer),
    ensures
        answer is Ok <==> success,
        answer matches Ok(answer) ==> answer == body,
        answer matches Err(reason) ==> {
            &&& ("error ("@ + status@).is_prefix_of(reason@)
            &&& reason@.skip(reason@.len() - body@.len()) == body@
        },
{
    if let Err(reason) = answer {
        assert(reason@.skip(reason@.len() - body@.len()) =~= body@);
    }
}

} // verus!

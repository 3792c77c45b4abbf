//! Transaction endpoints of a validator.

use crate::text::{push_decimal, trim_trailing_slashes};
use vstd::prelude::*;

verus! {

/// Returns the URL that transactions are posted to.
pub fn tx_url(endpoint: &str) -> (url: String)
    ensures
        url@ == crate::text::without_trailing_slashes(endpoint@) + "/tx"@,
{
    let mut url = trim_trailing_slashes(endpoint);
    url.append("/tx");
    url
}

/// Returns the URL that transactions are posted to for acceptance.
pub fn accept_tx_url(endpoint: &str) -> (url: String)
    ensures
        url@ == crate::text::without_trailing_slashes(endpoint@) + "/tx/accept"@,
{
    let mut url = trim_trailing_slashes(endpoint);
    url.append("/tx/accept");
    url
}

/// Returns the URL that transaction statuses are fetched from.
pub fn tx_status_url(endpoint: &str) -> (url: String)
    ensures
        url@ == crate::text::without_trailing_slashes(endpoint@) + "/tx/status"@,
{
    let mut url = trim_trailing_slashes(endpoint);
    url.append("/tx/status");
    url
}

/// Where a transaction stands.
#[derive(Debug, Clone, Copy, PartialEq, Eq, Structural)]
pub enum TransactionState {
    Pending,
    Included,
    Rejected,
    Unknown,
}

/// The status of a transaction.
#[derive(Debug, Clone)]
pub struct TransactionStatus {
    pub tx_hash: String,
    pub state: TransactionState,
    pub height: u64,
}

/// The words for an unsuccessful answer.
pub open spec fn error_text(status: Seq<char>, body: Seq<char>) -> Seq<char> {
    "error ("@ + status + "): "@ + body
}

/// Whether an HTTP status is a success.
pub open spec fn succeeds(status: u16) -> bool {
    200 <= status < 300
}

/// Returns the words for an answer with an HTTP status, unless it is a success.
pub fn answer_error(status: u16, body: &str) -> (error: Option<String>)
    ensures
        match error {
            Some(error) => !succeeds(status) && error@ == error_text(
                crate::text::decimal(status as nat),
                body@,
            ),
            None => succeeds(status),
        },
{
    if status >= 200 && status < 300 {
        return None;
    }
    let mut error = "error (".to_string();
    push_decimal(&mut error, status as u64);
    error.append("): ");
    error.append(body);
    Some(error)
}

/// Returns the hash that a submission receipt names.
pub fn receipt_hash(tx_hash: String) -> (hash: Result<String, String>)
    ensures
        match hash {
            Ok(hash) => tx_hash@.len() > 0 && hash == tx_hash,
            Err(reason) => tx_hash@.len() == 0 && reason@ == "submission receipt omitted tx_hash"@,
        },
{
    if tx_hash.as_str().unicode_len() == 0 {
        return Err("submission receipt omitted tx_hash".to_string());
    }
    Ok(tx_hash)
}

/// A slash at the end of an endpoint makes no difference to any of its URLs.
pub proof fn trailing_slash_makes_no_difference(
    endpoint: &str,
    slashed: &str,
    post: String,
    post_slashed: String,
    accept: String,
    accept_slashed: String,
    status: String,
    status_slashed: String,
)
    requires
        slashed@ == endpoint@.push('/'),
        call_ensures(tx_url, (endpoint,), post),
        call_ensures(tx_url, (slashed,), post_slashed),
        call_ensures(accept_tx_url, (endpoint,), accept),
        call_ensures(accept_tx_url, (slashed,), accept_slashed),
        call_ensures(tx_status_url, (endpoint,), status),
        call_ensures(tx_status_url, (slashed,), status_slashed),
    ensures
        post@ == post_slashed@,
        accept@ == accept_slashed@,
        status@ == status_slashed@,
        endpoint@.len() > 0 && endpoint@.last() != '/' ==> {
            &&& post@ == endpoint@ + "/tx"@
            &&& accept@ == endpoint@ + "/tx/accept"@
            &&& status@ == endpoint@ + "/tx/status"@
        },
{
    assert(slashed@.drop_last() =~= endpoint@);
}

/// Only an answer between 200 and 299 is a success, and a receipt without a hash is none.
pub proof fn successes_are_told_apart(
    status: u16,
    body: &str,
    error: Option<String>,
    tx_hash: String,
    hash: Result<String, String>,
)
    requires
        call_ensures(answer_error, (status, body), error),
        call_ensures(receipt_hash, (tx_hash,), hash),
    ensures
        error is None <==> 200 <= status <= 299,
        hash is Ok <==> tx_hash@.len() > 0,
        hash matches Ok(hash) ==> hash == tx_hash,
{
}

} // verus!

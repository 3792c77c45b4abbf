//! A single transfer.

use crate::tx::shared::{parse_address, parse_private_key, tx_url};
use vstd::prelude::*;

verus! {

/// The options of the transfer command.
#[derive(Debug)]
pub struct Args {
    /// Hex-encoded ed25519 private key.
    pub key: String,
    /// Recipient address (hex).
    pub to: String,
    /// Amount to transfer.
    pub value: u64,
    /// Sender nonce.
    pub nonce: u64,
    /// Validator HTTP endpoint.
    pub endpoint: String,
}

/// A transfer to sign and submit.
#[derive(Debug)]
pub struct TransferPlan {
    /// Encoded private key of the sender.
    pub key: Vec<u8>,
    /// Bytes that the recipient's address is read from.
    pub to: Vec<u8>,
    /// Amount to transfer.
    pub value: u64,
    /// Sender nonce.
    pub nonce: u64,
    /// Where the transfer is posted to.
    pub url: String,
}

/// Whether a plan is what the options ask for.
pub open spec fn plans_transfer(plan: TransferPlan, args: Args) -> bool {
    &&& crate::formatting::hex_bytes(args.key@) matches Some(key) && plan.key@ == key.take(
        crate::keys::PRIVATE_KEY_BYTES as int,
    )
    &&& crate::formatting::hex_bytes(args.to@) == Some(plan.to@)
    &&& plan.value == args.value
    &&& plan.nonce == args.nonce
    &&& plan.url@ == crate::text::without_trailing_slashes(args.endpoint@) + "/tx"@
}

/// Why a transfer is refused, if it is.
pub open spec fn transfer_rejection(args: Args) -> Option<Seq<char>> {
    match crate::formatting::hex_bytes(args.key@) {
        None => Some("bad private key hex"@),
        Some(key) => if key.len() < crate::keys::PRIVATE_KEY_BYTES {
            Some("failed to decode private key"@)
        } else if crate::formatting::hex_bytes(args.to@) is None {
            Some("bad address hex"@)
        } else {
            None
        },
    }
}

/// Plans a transfer, as far as its texts can be read.
pub fn run(args: &Args) -> (plan: Result<TransferPlan, String>)
    ensures
        match plan {
            Ok(plan) => transfer_rejection(*args) is None && plans_transfer(plan, *args),
            Err(reason) => transfer_rejection(*args) == Some(reason@),
        },
{
    let key = match parse_private_key(args.key.as_str()) {
        Ok(key) => key,
        Err(reason) => return Err(reason),
    };
    let to = match parse_address(args.to.as_str()) {
        Ok(to) => to,
        Err(reason) => return Err(reason),
    };
    Ok(
        TransferPlan {
            key,
            to,
            value: args.value,
            nonce: args.nonce,
            url: tx_url(args.endpoint.as_str()),
        },
    )
}

/// Plans a transfer that is sent as it is written: the endpoint keeps its trailing slashes, and any
/// amount may be sent.
pub fn run_direct(args: &Args) -> (plan: Result<TransferPlan, String>)
    ensures
        match plan {
            Ok(plan) => {
                &&& transfer_rejection(*args) is None
                &&& crate::formatting::hex_bytes(args.key@) matches Some(key) && plan.key@
                    == key.take(crate::keys::PRIVATE_KEY_BYTES as int)
                &&& crate::formatting::hex_bytes(args.to@) == Some(plan.to@)
                &&& plan.value == args.value
                &&& plan.nonce == args.nonce
                &&& plan.url@ == args.endpoint@ + "/tx"@
            },
            Err(reason) => transfer_rejection(*args) == Some(reason@),
        },
{
    let plan = match run(args) {
        Ok(plan) => plan,
        Err(reason) => return Err(reason),
    };
    let mut url = args.endpoint.clone();
    url.append("/tx");
    Ok(TransferPlan { key: plan.key, to: plan.to, value: plan.value, nonce: plan.nonce, url })
}

/// Takes in the address that was read from the plan's bytes, if there is one. A transfer of nothing is
/// refused.
pub fn address_transfer(plan: TransferPlan, address: Option<Vec<u8>>) -> (transfer: Result<
    TransferPlan,
    String,
>)
    ensures
        match (address, transfer) {
            (None, Err(reason)) => reason@ == "failed to decode address"@,
            (Some(_), Err(reason)) => plan.value == 0 && reason@
                == "transfer value must be non-zero"@,
            (Some(address), Ok(transfer)) => plan.value > 0 && transfer == (TransferPlan {
                to: address,
                ..plan
            }),
            _ => false,
        },
{
    match address {
        None => Err("failed to decode address".to_string()),
        Some(address) => if plan.value == 0 {
            Err("transfer value must be non-zero".to_string())
        } else {
            Ok(
                TransferPlan {
                    key: plan.key,
                    to: address,
                    value: plan.value,
                    nonce: plan.nonce,
                    url: plan.url,
                },
            )
        },
    }
}

/// A transfer that is sent as it is written differs from one that is planned in its URL alone: the
/// planned one is posted to the endpoint without its trailing slashes.
pub proof fn direct_transfers_keep_the_endpoint(
    args: Args,
    planned: Result<TransferPlan, String>,
    direct: Result<TransferPlan, String>,
)
    requires
        call_ensures(run, (&args,), planned),
        call_ensures(run_direct, (&args,), direct),
    ensures
        planned is Ok <==> direct is Ok,
        (planned, direct) matches (Ok(left), Ok(right)) ==> {
            &&& left.key@ == right.key@
            &&& left.to@ == right.to@
            &&& left.value == right.value == args.value
            &&& left.nonce == right.nonce == args.nonce
            &&& right.url@ == args.endpoint@ + "/tx"@
            &&& args.endpoint@.len() == 0 || args.endpoint@.last() != '/' ==> left.url@ == right.url@
        },
        (planned, direct) matches (Err(left), Err(right)) ==> left@ == right@,
        planned is Ok ==> crate::formatting::hex_bytes(args.key@).unwrap().len() >= 32,
{
}

/// A transfer of nothing, or to an address that could not be read, is refused; any other keeps
/// everything but gets the address that was read.
pub proof fn addressed_transfers_move_something(
    plan: TransferPlan,
    address: Option<Vec<u8>>,
    transfer: Result<TransferPlan, String>,
)
    requires
        call_ensures(address_transfer, (plan, address), transfer),
    ensures
        transfer is Ok <==> address is Some && plan.value > 0,
        transfer matches Ok(transfer) ==> {
            &&& Some(transfer.to) == address
            &&& transfer.value == plan.value
            &&& transfer.nonce == plan.nonce
            &&& transfer.key == plan.key
            &&& transfer.url == plan.url
        },
{
}

} // verus!

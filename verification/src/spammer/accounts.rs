//! Deterministic spam accounts.

use crate::keys::{private_key_from_seed, public_key_of};
use vstd::prelude::*;

verus! {

/// An account that the spammer signs for.
#[derive(Debug, Clone)]
pub struct SpamAccount {
    /// Encoded private key.
    pub private_key: Vec<u8>,
    /// Encoded public key.
    pub public_key: Vec<u8>,
}

impl SpamAccount {
    /// Whether this is the account of a seed.
    pub open spec fn is_seeded(self, seed: u64) -> bool {
        &&& self.private_key@ == crate::keys::seeded_private_key(seed)
        &&& self.public_key@ == crate::keys::derived_public_key(self.private_key@)
    }
}

/// Returns the account of a seed.
pub fn generate_account(seed: u64) -> (account: SpamAccount)
    ensures
        account.is_seeded(seed),
{
    let private_key = private_key_from_seed(seed);
    let public_key = public_key_of(&private_key);
    SpamAccount { private_key, public_key }
}

/// Returns the accounts of `count` seeds from `seed_offset` on.
pub fn generate_accounts(count: u32, seed_offset: u64) -> (accounts: Vec<SpamAccount>)
    requires
        seed_offset + count - 1 <= u64::MAX,
    ensures
        accounts@.len() == count,
        forall|i: int|
            0 <= i < count ==> (#[trigger] accounts@[i]).is_seeded((seed_offset + i) as u64),
{
    let mut accounts: Vec<SpamAccount> = Vec::new();
    let mut i: u32 = 0;
    while i < count
        invariant
            i <= count,
            seed_offset + count - 1 <= u64::MAX,
            accounts@.len() == i,
            forall|k: int|
                0 <= k < i ==> (#[trigger] accounts@[k]).is_seeded((seed_offset + k) as u64),
        decreases count - i,
    {
        accounts.push(generate_account(seed_offset + i as u64));
        i += 1;
    }
    accounts
}

/// Accounts are those of consecutive seeds: shifting the offset by one shifts the list by one.
pub proof fn accounts_are_consecutive(
    count: u32,
    seed_offset: u64,
    accounts: Vec<SpamAccount>,
    shifted: Vec<SpamAccount>,
    index: int,
)
    requires
        call_ensures(generate_accounts, (count, seed_offset), accounts),
        call_ensures(generate_accounts, (count, (seed_offset + 1) as u64), shifted),
        seed_offset + count <= u64::MAX,
        count > 0,
        0 <= index < count,
    ensures
        accounts@.len() == count,
        shifted@.len() == count,
        accounts@[index].private_key@ == crate::keys::seeded_private_key(
            (seed_offset + index) as u64,
        ),
        accounts@[index].public_key@ == crate::keys::derived_public_key(
            accounts@[index].private_key@,
        ),
        index + 1 < count ==> shifted@[index].private_key@ == accounts@[index + 1].private_key@,
{
    assert(accounts@[index].is_seeded((seed_offset + index) as u64));
    assert(shifted@[index].is_seeded((seed_offset + 1 + index) as u64));
    if index + 1 < count {
        assert(accounts@[index + 1].is_seeded((seed_offset + index + 1) as u64));
    }
}

} // verus!

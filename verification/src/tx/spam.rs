//! Rate-limited ring spammer: senders take turns along the ring.

use crate::ring::next_index;
use crate::spammer::spam::ring_keys;
use crate::text::push_decimal;
use vstd::prelude::*;

verus! {

/// The options of the spam command.
#[derive(Debug)]
pub struct Args {
    /// Number of accounts to create.
    pub count: usize,
    /// Validator HTTP endpoint.
    pub endpoint: String,
    /// Starting seed for deterministic key generation.
    pub seed_start: u64,
    /// Starting nonce for every sender.
    pub nonce: u64,
    /// Fixed submission rate in transactions per second.
    pub tps: u32,
}

/// An account of the ring. Accounts are named by their encoded public keys.
#[derive(Debug, Clone)]
pub struct RingAccount {
    /// Seed of the account's key.
    pub seed: u64,
    /// The account.
    pub from: Vec<u8>,
    /// The next account of the ring.
    pub to: Vec<u8>,
    /// Nonce of the account's next transfer.
    pub next_nonce: u64,
}

/// Whether an account is the one at `index` of a ring of `count`.
pub open spec fn in_ring(account: RingAccount, count: int, seed_start: u64, index: int) -> bool {
    &&& account.seed == seed_start + index
    &&& account.from@ == crate::spammer::spam::ring_key((seed_start + index) as u64)
    &&& account.to@ == crate::spammer::spam::ring_key(
        (seed_start + crate::ring::successor(index, count)) as u64,
    )
}

/// Builds a ring of accounts that all start with the same nonce.
pub fn build_ring_accounts(count: usize, seed_start: u64, nonce: u64) -> (accounts: Vec<
    RingAccount,
>)
    requires
        count > 0,
        seed_start + count - 1 <= u64::MAX,
    ensures
        accounts@.len() == count,
        forall|i: int|
            0 <= i < count ==> in_ring(#[trigger] accounts@[i], count as int, seed_start, i)
                && accounts@[i].next_nonce == nonce,
{
    let keys = ring_keys(count, seed_start);
    let mut accounts: Vec<RingAccount> = Vec::new();
    let mut i: usize = 0;
    while i < count
        invariant
            i <= count,
            seed_start + count - 1 <= u64::MAX,
            keys@.len() == count,
            forall|k: int|
                0 <= k < count ==> (#[trigger] keys@[k])@ == crate::spammer::spam::ring_key(
                    (seed_start + k) as u64,
                ),
            accounts@.len() == i,
            forall|k: int|
                0 <= k < i ==> in_ring(#[trigger] accounts@[k], count as int, seed_start, k)
                    && accounts@[k].next_nonce == nonce,
        decreases count - i,
    {
        let next: usize = next_index(i, count);
        let from = keys[i].clone();
        let to = keys[next].clone();
        proof {
            assert(from@ =~= keys@[i as int]@);
            assert(to@ =~= keys@[next as int]@);
        }
        accounts.push(RingAccount { seed: seed_start + i as u64, from, to, next_nonce: nonce });
        i += 1;
    }
    accounts
}

/// Every account pays the next one of the ring, and the last pays the first.
pub proof fn ring_closes(accounts: Seq<RingAccount>, seed_start: u64, index: int)
    requires
        0 <= index < accounts.len(),
        forall|i: int|
            0 <= i < accounts.len() ==> in_ring(
                #[trigger] accounts[i],
                accounts.len() as int,
                seed_start,
                i,
            ),
    ensures
        accounts[index].to@ == accounts[crate::ring::successor(
            index,
            accounts.len() as int,
        )].from@,
{
    let next = crate::ring::successor(index, accounts.len() as int);
    assert(in_ring(accounts[next], accounts.len() as int, seed_start, next));
}

/// A transfer along the ring, to sign and submit.
#[derive(Debug, Clone)]
pub struct RingTransfer {
    /// Seed of the sender's key.
    pub seed: u64,
    /// The sender.
    pub from: Vec<u8>,
    /// The recipient.
    pub to: Vec<u8>,
    /// Amount.
    pub value: u64,
    /// Nonce of the transfer.
    pub nonce: u64,
}

/// Takes the next transfer: the sender at `cursor` uses its next nonce, and the turn goes to the next
/// account of the ring.
pub fn next_ring_transfer(accounts: &mut Vec<RingAccount>, cursor: &mut usize) -> (transfer:
    RingTransfer)
    requires
        *old(cursor) < old(accounts)@.len(),
        old(accounts)@[*old(cursor) as int].next_nonce < u64::MAX,
    ensures
        ({
            let sender = old(accounts)@[*old(cursor) as int];
            &&& transfer.seed == sender.seed
            &&& transfer.from@ == sender.from@
            &&& transfer.to@ == sender.to@
            &&& transfer.value == 1
            &&& transfer.nonce == sender.next_nonce
            &&& final(accounts)@ == old(accounts)@.update(
                *old(cursor) as int,
                RingAccount { next_nonce: (sender.next_nonce + 1) as u64, ..sender },
            )
            &&& *final(cursor) == crate::ring::successor(
                *old(cursor) as int,
                old(accounts)@.len() as int,
            )
        }),
{
    let ghost before = accounts@;
    let at: usize = *cursor;
    let nonce: u64 = accounts[at].next_nonce;
    accounts[at].next_nonce = nonce + 1;
    let from = accounts[at].from.clone();
    let to = accounts[at].to.clone();
    proof {
        assert(from@ =~= before[at as int].from@);
        assert(to@ =~= before[at as int].to@);
    }
    let transfer = RingTransfer { seed: accounts[at].seed, from, to, value: 1, nonce };
    *cursor = next_index(at, accounts.len());
    transfer
}

/// Counts of a run.
#[derive(Debug, Clone, Copy, PartialEq, Eq, Structural)]
pub struct Tally {
    pub completed: usize,
    pub failed: usize,
}

impl Tally {
    /// Nothing is counted.
    pub fn new() -> (tally: Self)
        ensures
            tally == (Tally { completed: 0, failed: 0 }),
    {
        Tally { completed: 0, failed: 0 }
    }

    /// Counts the completed submissions, of which some failed.
    pub fn drain_completed_submissions(&mut self, outcomes: &Vec<Result<String, String>>)
        requires
            old(self).completed + outcomes@.len() <= usize::MAX,
            old(self).failed + outcomes@.len() <= usize::MAX,
        ensures
            final(self).completed == old(self).completed + outcomes@.len(),
            final(self).failed == old(self).failed + failures(outcomes@),
    {
        let ghost before = *self;
        let mut i: usize = 0;
        proof {
            assert(outcomes@.take(0) =~= Seq::empty());
        }
        while i < outcomes.len()
            invariant
                i <= outcomes@.len(),
                before.completed + outcomes@.len() <= usize::MAX,
                before.failed + outcomes@.len() <= usize::MAX,
                self.completed == before.completed + i,
                self.failed == before.failed + failures(outcomes@.take(i as int)),
                failures(outcomes@.take(i as int)) <= i,
            decreases outcomes@.len() - i,
        {
            proof {
                assert(outcomes@.take(i + 1).drop_last() =~= outcomes@.take(i as int));
                assert(outcomes@.take(i + 1).last() == outcomes@[i as int]);
            }
            self.completed = self.completed + 1;
            if outcomes[i].is_err() {
                self.failed = self.failed + 1;
            }
            i += 1;
        }
        proof {
            assert(outcomes@.take(i as int) =~= outcomes@);
        }
    }

    /// Returns how a run ends: as a failure when any submission failed.
    pub fn result(&self) -> (result: Result<(), String>)
        ensures
            match result {
                Ok(()) => self.failed == 0,
                Err(reason) => self.failed > 0 && reason@ == "failed: "@ + crate::text::decimal(
                    self.failed as nat,
                ),
            },
    {
        if self.failed == 0 {
            return Ok(());
        }
        let mut reason = "failed: ".to_string();
        push_decimal(&mut reason, self.failed as u64);
        Err(reason)
    }
}

/// How many outcomes are failures.
pub open spec fn failures(outcomes: Seq<Result<String, String>>) -> nat
    decreases outcomes.len(),
{
    if outcomes.len() == 0 {
        0
    } else {
        failures(outcomes.drop_last()) + if outcomes.last() is Err {
            1nat
        } else {
            0nat
        }
    }
}

/// The accounts that [`build_ring_accounts`] makes are those of consecutive seeds; each pays the next
/// one, the last pays the first, and all start with the same nonce.
pub proof fn ring_accounts_pay_on(
    count: usize,
    seed_start: u64,
    nonce: u64,
    accounts: Vec<RingAccount>,
    index: int,
)
    requires
        call_ensures(build_ring_accounts, (count, seed_start, nonce), accounts),
        seed_start + count - 1 <= u64::MAX,
        0 <= index < count,
    ensures
        accounts@.len() == count,
        accounts@[index].seed == seed_start + index,
        accounts@[index].from@ == crate::keys::derived_public_key(
            crate::keys::seeded_private_key(accounts@[index].seed),
        ),
        index + 1 < count ==> accounts@[index].to@ == accounts@[index + 1].from@,
        index + 1 == count ==> accounts@[index].to@ == accounts@[0].from@,
        accounts@[index].next_nonce == nonce,
{
    assert(in_ring(accounts@[index], count as int, seed_start, index));
    if index + 1 < count {
        assert(in_ring(accounts@[index + 1], count as int, seed_start, index + 1));
    } else {
        assert(in_ring(accounts@[0], count as int, seed_start, 0));
    }
}

/// Failures add up, every failed outcome counts once, and no other one does.
pub proof fn failures_add_up(
    front: Seq<Result<String, String>>,
    back: Seq<Result<String, String>>,
)
    ensures
        failures(front + back) == failures(front) + failures(back),
        front.len() == 1 ==> failures(front) == (if front[0] is Err {
            1nat
        } else {
            0nat
        }),
        failures(Seq::empty()) == 0,
    decreases back.len(),
{
    if front.len() == 1 {
        assert(front.drop_last() =~= Seq::<Result<String, String>>::empty());
        assert(failures(front.drop_last()) == 0);
        assert(front.last() == front[0]);
    }
    if back.len() == 0 {
        assert(front + back =~= front);
    } else {
        failures_add_up(front, back.drop_last());
        assert((front + back).drop_last() =~= front + back.drop_last());
        assert((front + back).last() == back.last());
    }
}

/// Two transfers in a row: the second is sent by the account that the first one pays, the first
/// sender's nonce moves on by one, and every other account is left alone.
pub proof fn transfers_go_round_the_ring(
    accounts: &mut Vec<RingAccount>,
    cursor: &mut usize,
    accounts_later: &mut Vec<RingAccount>,
    cursor_later: &mut usize,
    first: RingTransfer,
    second: RingTransfer,
    seed_start: u64,
)
    requires
        *old(cursor) < old(accounts)@.len(),
        old(accounts)@.len() > 1,
        old(accounts)@[*old(cursor) as int].next_nonce < u64::MAX,
        forall|i: int|
            0 <= i < old(accounts)@.len() ==> in_ring(
                #[trigger] old(accounts)@[i],
                old(accounts)@.len() as int,
                seed_start,
                i,
            ),
        call_ensures(next_ring_transfer, (accounts, cursor), first),
        old(accounts_later)@ == final(accounts)@,
        *old(cursor_later) == *final(cursor),
        call_ensures(next_ring_transfer, (accounts_later, cursor_later), second),
    ensures
        second.from@ == first.to@,
        first.nonce == old(accounts)@[*old(cursor) as int].next_nonce,
        final(accounts)@[*old(cursor) as int].next_nonce == first.nonce + 1,
        first.value == 1,
        forall|i: int|
            0 <= i < old(accounts)@.len() && i != *old(cursor) ==> #[trigger] final(accounts)@[i]
                == old(accounts)@[i],
{
    let before = old(accounts)@;
    let at = *old(cursor) as int;
    ring_closes(before, seed_start, at);
    let next = crate::ring::successor(at, before.len() as int);
    assert(final(accounts)@[next] == before[next]);
}

/// Counting two lists of outcomes one after the other counts them together, and a run fails exactly if
/// an outcome did.
pub proof fn tallies_add_up(
    first: &mut Tally,
    second: &mut Tally,
    together: &mut Tally,
    front: Vec<Result<String, String>>,
    back: Vec<Result<String, String>>,
    all: Vec<Result<String, String>>,
    result: Result<(), String>,
)
    requires
        all@ == front@ + back@,
        *old(second) == *final(first),
        *old(together) == *old(first),
        call_ensures(Tally::drain_completed_submissions, (first, &front), ()),
        call_ensures(Tally::drain_completed_submissions, (second, &back), ()),
        call_ensures(Tally::drain_completed_submissions, (together, &all), ()),
        call_ensures(Tally::result, (final(together),), result),
    ensures
        *final(second) == *final(together),
        final(together).completed == old(first).completed + front@.len() + back@.len(),
        result is Ok <==> final(together).failed == 0,
{
    failures_add_up(front@, back@);
}

} // verus!

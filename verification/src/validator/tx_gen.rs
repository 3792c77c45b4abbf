//! Built-in transaction generator: every key pays the next one, once per generation.

use crate::ring::next_index;
use vstd::prelude::*;

verus! {

/// A transfer between two keys of the generator.
#[derive(Debug, Clone, Copy, PartialEq, Eq, Structural)]
pub struct PlannedTransfer {
    /// Index of the paying key.
    pub from: usize,
    /// Index of the paid key.
    pub to: usize,
    /// Amount.
    pub value: u64,
    /// Nonce of the paying key.
    pub nonce: u64,
}

/// The transfers of one generation.
pub open spec fn generation_transfers(keys: int, generation: u64) -> Seq<PlannedTransfer> {
    Seq::new(
        keys as nat,
        |i: int|
            PlannedTransfer {
                from: i as usize,
                to: crate::ring::successor(i, keys) as usize,
                value: 1,
                nonce: generation,
            },
    )
}

/// Plans the transfers of one generation: every key pays the next one, and the last pays the first.
pub fn generate_transactions(keys: usize, generation: u64) -> (transfers: Vec<PlannedTransfer>)
    ensures
        transfers@ == generation_transfers(keys as int, generation),
{
    let mut transfers: Vec<PlannedTransfer> = Vec::new();
    let mut i: usize = 0;
    while i < keys
        invariant
            i <= keys,
            transfers@ == generation_transfers(keys as int, generation).take(i as int),
        decreases keys - i,
    {
        let to: usize = next_index(i, keys);
        proof {
            let all = generation_transfers(keys as int, generation);
            assert(all.take(i + 1) =~= all.take(i as int).push(all[i as int]));
        }
        transfers.push(PlannedTransfer { from: i, to, value: 1, nonce: generation });
        i += 1;
    }
    proof {
        let all = generation_transfers(keys as int, generation);
        assert(all.take(i as int) =~= all);
    }
    transfers
}

/// Generates a batch ahead of every request.
pub struct TransactionGenerator {
    /// Keys of the generator.
    pub keys: usize,
    /// The next generation.
    pub generation: u64,
    /// The batch that the next request gets.
    pub cached: Vec<PlannedTransfer>,
}

impl TransactionGenerator {
    /// Whether the cached batch is that of the last generation, if there was one.
    pub open spec fn well_formed(self) -> bool {
        self.cached@ == if self.generation == 0 {
            Seq::<PlannedTransfer>::empty()
        } else {
            generation_transfers(self.keys as int, (self.generation - 1) as u64)
        }
    }

    /// Starts without a batch.
    pub fn new(keys: usize) -> (generator: Self)
        ensures
            generator.well_formed(),
            generator.keys == keys,
            generator.generation == 0,
    {
        let cached: Vec<PlannedTransfer> = Vec::new();
        proof {
            assert(cached@ =~= Seq::<PlannedTransfer>::empty());
        }
        TransactionGenerator { keys, generation: 0, cached }
    }

    /// Hands out the cached batch and generates the next one.
    pub fn next_batch(&mut self) -> (batch: Vec<PlannedTransfer>)
        requires
            old(self).well_formed(),
            old(self).generation < u64::MAX,
        ensures
            final(self).well_formed(),
            final(self).keys == old(self).keys,
            final(self).generation == old(self).generation + 1,
            batch@ == old(self).cached@,
    {
        let mut batch = generate_transactions(self.keys, self.generation);
        std::mem::swap(&mut batch, &mut self.cached);
        self.generation = self.generation + 1;
        batch
    }
}

/// The first request gets nothing, and every later one the generation after the last.
pub proof fn requests_get_generations_in_order(generator: TransactionGenerator)
    requires
        generator.well_formed(),
    ensures
        generator.generation == 0 ==> generator.cached@.len() == 0,
        generator.generation > 0 ==> generator.cached@.len() == generator.keys && forall|i: int|
            0 <= i < generator.keys ==> (#[trigger] generator.cached@[i]).nonce
                == generator.generation - 1,
{
}

/// In a generation every key pays one unit to the next one and the last pays the first, at the nonce
/// of the generation; the generation after it does the same at the next nonce.
pub proof fn generations_pay_on(
    keys: usize,
    generation: u64,
    now: Vec<PlannedTransfer>,
    later: Vec<PlannedTransfer>,
    index: int,
)
    requires
        generation < u64::MAX,
        call_ensures(generate_transactions, (keys, generation), now),
        call_ensures(generate_transactions, (keys, (generation + 1) as u64), later),
        0 <= index < keys,
    ensures
        now@.len() == keys,
        later@.len() == keys,
        now@[index].from == index,
        now@[index].value == 1,
        now@[index].nonce == generation,
        index + 1 < keys ==> now@[index].to == now@[index + 1].from,
        index + 1 == keys ==> now@[index].to == now@[0].from,
        later@[index] == (PlannedTransfer { nonce: (generation + 1) as u64, ..now@[index] }),
{
}

/// The first request gets nothing, the second the generation of nonce zero, and every request moves
/// on by one generation.
pub proof fn requests_come_one_generation_apart(
    first: &mut TransactionGenerator,
    second: &mut TransactionGenerator,
    batch: Vec<PlannedTransfer>,
    following: Vec<PlannedTransfer>,
    index: int,
)
    requires
        old(first).well_formed(),
        old(first).generation + 1 < u64::MAX,
        call_ensures(TransactionGenerator::next_batch, (first,), batch),
        *old(second) == *final(first),
        call_ensures(TransactionGenerator::next_batch, (second,), following),
    ensures
        old(first).generation == 0 ==> batch@.len() == 0,
        following@.len() == old(first).keys,
        0 <= index < old(first).keys ==> following@[index].nonce == old(first).generation,
        0 <= index < old(first).keys && old(first).generation > 0 ==> following@[index].nonce
            == batch@[index].nonce + 1,
{
    requests_get_generations_in_order(*old(first));
    requests_get_generations_in_order(*final(first));
}

} // verus!

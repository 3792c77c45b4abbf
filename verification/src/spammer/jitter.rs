//! Batch-size jitter and target selection.

use vstd::prelude::*;

verus! {

/// One round of the generator.
pub open spec fn scrambled(state: u64) -> u64 {
    let x = state ^ (state << 13);
    let x = x ^ (x >> 7);
    x ^ (x << 17)
}

/// Tiny inline xorshift generator used to jitter per-batch sizes: only a few bits per submission
/// are needed.
pub struct JitterRng {
    /// The state, which is never zero.
    pub state: u64,
}

impl JitterRng {
    /// Whether the generator can move: the zero state would lock it.
    pub open spec fn well_formed(self) -> bool {
        self.state != 0
    }

    /// Seeds the generator; a seed of zero is mapped to a non-zero value.
    pub fn new(seed: u64) -> (rng: Self)
        ensures
            rng.well_formed(),
            rng.state == if seed == 0 {
                0x9E37_79B9_7F4A_7C15
            } else {
                seed
            },
    {
        JitterRng { state: if seed == 0 { 0x9E37_79B9_7F4A_7C15 } else { seed } }
    }

    /// Draws a number.
    pub fn next_u64(&mut self) -> (draw: u64)
        requires
            old(self).well_formed(),
        ensures
            final(self).well_formed(),
            final(self).state == scrambled(old(self).state),
            draw == scrambled(old(self).state),
    {
        proof {
            generator_never_locks(self.state);
        }
        let state: u64 = self.state;
        let x: u64 = state ^ (state << 13);
        let y: u64 = x ^ (x >> 7);
        self.state = y ^ (y << 17);
        self.state
    }

    /// Draws an integer in `lo..=hi` (inclusive).
    pub fn range(&mut self, lo: usize, hi: usize) -> (draw: usize)
        requires
            old(self).well_formed(),
            lo <= hi,
            hi - lo < u64::MAX,
        ensures
            final(self).well_formed(),
            final(self).state == scrambled(old(self).state),
            draw == lo + scrambled(old(self).state) as int % (hi - lo + 1),
            lo <= draw <= hi,
    {
        let span: u64 = (hi - lo) as u64 + 1;
        let draw: u64 = self.next_u64();
        proof {
            vstd::arithmetic::div_mod::lemma_mod_bound(draw as int, span as int);
        }
        lo + (draw % span) as usize
    }
}

/// A generator that is not locked never locks.
pub proof fn generator_never_locks(state: u64)
    requires
        state != 0,
    ensures
        scrambled(state) != 0,
{
    let x = state ^ (state << 13);
    let y = x ^ (x >> 7);
    assert(state != 0 ==> (state ^ (state << 13)) != 0) by (bit_vector);
    assert(x != 0 ==> (x ^ (x >> 7)) != 0) by (bit_vector);
    assert(y != 0 ==> (y ^ (y << 17)) != 0) by (bit_vector);
}

/// A size, or the largest one where it is out of range.
pub open spec fn capped(size: int) -> int {
    if size > usize::MAX {
        usize::MAX as int
    } else {
        size
    }
}

/// Returns the size of the next batch: one transfer per account, and at most `extra` more.
pub fn jittered_batch_size(accounts: usize, extra: usize, rng: &mut JitterRng) -> (size: usize)
    requires
        old(rng).well_formed(),
        extra < u64::MAX,
    ensures
        final(rng).well_formed(),
        accounts <= size <= accounts + extra,
        extra == 0 ==> size == accounts && *final(rng) == *old(rng),
        extra > 0 ==> {
            &&& final(rng).state == scrambled(old(rng).state)
            &&& size == capped(accounts + scrambled(old(rng).state) as int % (extra + 1))
        },
{
    if extra == 0 {
        return accounts;
    }
    let more: usize = rng.range(0, extra);
    if more > usize::MAX - accounts {
        usize::MAX
    } else {
        accounts + more
    }
}

/// Returns the exact leader that the submitter at `index` targets, if any are given.
pub fn relayer_target_for(targets: &[String], index: usize) -> (target: Option<String>)
    ensures
        match target {
            Some(target) => targets@.len() > 0 && target == targets@[index as int
                % targets@.len() as int],
            None => targets@.len() == 0,
        },
{
    if targets.len() == 0 {
        return None;
    }
    Some(targets[index % targets.len()].clone())
}

/// Submitters go round the targets: each takes the one whose place is congruent to its own index.
pub proof fn submitters_go_round_targets(
    targets: &[String],
    index: usize,
    target: Option<String>,
    place: int,
)
    requires
        call_ensures(relayer_target_for, (targets, index), target),
        0 <= place < targets@.len(),
        (index - place) % targets@.len() as int == 0,
    ensures
        target == Some(targets@[place]),
{
    let size = targets@.len() as int;
    vstd::arithmetic::div_mod::lemma_fundamental_div_mod(index - place, size);
    let turns = (index - place) / size;
    assert(size * turns == turns * size) by (nonlinear_arith);
    vstd::arithmetic::div_mod::lemma_fundamental_div_mod_converse(
        index as int,
        size,
        turns,
        place,
    );
}

/// The generator loses nothing: different states lead to different states.
pub proof fn generator_is_injective(left: u64, right: u64)
    requires
        scrambled(left) == scrambled(right),
    ensures
        left == right,
{
    let first = left ^ (left << 13);
    let second = right ^ (right << 13);
    let third = first ^ (first >> 7);
    let fourth = second ^ (second >> 7);
    assert(third == fourth) by (bit_vector)
        requires
            third ^ (third << 17) == fourth ^ (fourth << 17),
    ;
    assert(first == second) by (bit_vector)
        requires
            first ^ (first >> 7) == second ^ (second >> 7),
    ;
    assert(left == right) by (bit_vector)
        requires
            left ^ (left << 13) == right ^ (right << 13),
    ;
}

/// A draw stands in its range, and an equal state draws the same: the draw depends on the state alone.
pub proof fn draws_stay_in_range(
    first: &mut JitterRng,
    second: &mut JitterRng,
    lo: usize,
    hi: usize,
    draw: usize,
    again: usize,
)
    requires
        old(first).well_formed(),
        old(second).state == old(first).state,
        lo <= hi,
        hi - lo < u64::MAX,
        call_ensures(JitterRng::range, (first, lo, hi), draw),
        call_ensures(JitterRng::range, (second, lo, hi), again),
    ensures
        lo <= draw <= hi,
        again == draw,
        lo == hi ==> draw == lo,
        final(first).state == final(second).state,
        final(first).state != 0,
{
}

/// A jittered batch holds one transfer for each account and at most as many more as were allowed;
/// without any allowed it holds just those.
pub proof fn jitter_only_adds(
    accounts: usize,
    extra: usize,
    rng: &mut JitterRng,
    size: usize,
    drawing: &mut JitterRng,
    draw: u64,
)
    requires
        old(rng).well_formed(),
        extra < u64::MAX,
        accounts + extra <= usize::MAX,
        call_ensures(jittered_batch_size, (accounts, extra, rng), size),
        *old(drawing) == *old(rng),
        call_ensures(JitterRng::next_u64, (drawing,), draw),
    ensures
        accounts <= size <= accounts + extra,
        extra == 0 ==> size == accounts,
        extra > 0 ==> (draw - (size - accounts)) % (extra + 1) == 0,
{
    if extra > 0 {
        let width = extra + 1;
        let rest = draw as int % width;
        vstd::arithmetic::div_mod::lemma_fundamental_div_mod(draw as int, width);
        vstd::arithmetic::div_mod::lemma_mod_bound(draw as int, width);
        assert(size - accounts == rest);
        let whole = draw as int / width;
        assert(draw - rest == whole * width) by (nonlinear_arith)
            requires
                draw == width * whole + rest,
        ;
        vstd::arithmetic::div_mod::lemma_mod_multiples_basic(whole, width);
    }
}

} // verus!

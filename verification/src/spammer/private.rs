//! Private-payment workload.
//!
//! Each *source* account cycles fund -> rollover -> transfer:
//! 1. **fund** moves its public balance into the private `pending` balance,
//! 2. **rollover** folds `pending` into the spendable `current` balance,
//! 3. **transfer** sends `value` from `current` to a *sink* account.
//!
//! Sinks are never senders and their balances are not followed, which keeps reconciliation
//! per-source and order-independent. A source's state advances only for transactions that
//! finalized; the rest are retried with fresh proofs.

use crate::ring::next_index;
use crate::spammer::submitter::SubmitOutcome;
use vstd::prelude::*;

verus! {

/// Client-side private state for one source account.
#[derive(Debug, Clone, Copy, PartialEq, Eq, Structural)]
pub struct PrivateSpamState {
    pub public_balance: u64,
    pub current: u64,
    pub pending: u64,
    pub nonce: u64,
}

/// What a source does next.
#[derive(Debug, Clone, Copy, PartialEq, Eq, Structural)]
pub enum PrivatePhase {
    Fund,
    Rollover,
    Transfer,
}

/// The local state change to apply once a transaction is observed finalized.
#[derive(Debug, Clone, Copy, PartialEq, Eq, Structural)]
pub enum PrivateEffect {
    Fund { value: u64 },
    Rollover,
    Transfer { value: u64 },
}

/// An operation to sign.
#[derive(Debug, Clone, Copy, PartialEq, Eq, Structural)]
pub struct PrivateOperation {
    /// Nonce of the operation.
    pub nonce: u64,
    /// What it does once it finalized.
    pub effect: PrivateEffect,
}

impl PrivateSpamState {
    /// What the account owns.
    pub open spec fn total(self) -> int {
        self.public_balance + self.current + self.pending
    }

    /// The operations that the account has left, at most: a transfer for every unit that it owns, a
    /// fund and a rollover while anything is public, and a rollover while anything is pending.
    pub open spec fn work_left(self) -> int {
        self.total() + (if self.public_balance > 0 {
            2int
        } else {
            0int
        }) + (if self.pending > 0 {
            1int
        } else {
            0int
        })
    }

    /// Whether balances and nonces stay in range.
    pub open spec fn well_formed(self) -> bool {
        self.nonce + self.work_left() <= u64::MAX
    }

    /// The next phase, unless the account can make no further progress.
    pub open spec fn phase_for(self, value: u64) -> Option<PrivatePhase> {
        if self.current >= value {
            Some(PrivatePhase::Transfer)
        } else if self.pending > 0 {
            Some(PrivatePhase::Rollover)
        } else if self.public_balance > 0 {
            Some(PrivatePhase::Fund)
        } else {
            None
        }
    }

    /// The next operation, unless the account can make no further progress.
    pub open spec fn operation_for(self, value: u64) -> Option<PrivateOperation> {
        match self.phase_for(value) {
            Some(PrivatePhase::Fund) => Some(
                PrivateOperation {
                    nonce: self.nonce,
                    effect: PrivateEffect::Fund { value: self.public_balance },
                },
            ),
            Some(PrivatePhase::Rollover) => Some(
                PrivateOperation { nonce: self.nonce, effect: PrivateEffect::Rollover },
            ),
            Some(PrivatePhase::Transfer) => Some(
                PrivateOperation { nonce: self.nonce, effect: PrivateEffect::Transfer { value } },
            ),
            None => None,
        }
    }

    /// The state after an effect.
    pub open spec fn after(self, effect: PrivateEffect) -> PrivateSpamState {
        let nonce = (self.nonce + 1) as u64;
        match effect {
            PrivateEffect::Fund { value } => PrivateSpamState {
                public_balance: if self.public_balance >= value {
                    (self.public_balance - value) as u64
                } else {
                    0
                },
                pending: (self.pending + value) as u64,
                nonce,
                ..self
            },
            PrivateEffect::Rollover => PrivateSpamState {
                current: (self.current + self.pending) as u64,
                pending: 0,
                nonce,
                ..self
            },
            PrivateEffect::Transfer { value } => PrivateSpamState {
                current: (self.current - value) as u64,
                nonce,
                ..self
            },
        }
    }

    /// Whether an effect can be applied.
    pub open spec fn admits(self, effect: PrivateEffect) -> bool {
        &&& self.nonce < u64::MAX
        &&& match effect {
            PrivateEffect::Fund { value } => self.pending + value <= u64::MAX,
            PrivateEffect::Rollover => self.current + self.pending <= u64::MAX,
            PrivateEffect::Transfer { value } => self.current >= value,
        }
    }

    /// Starts with everything public.
    pub fn new(balance: u64) -> (state: Self)
        ensures
            state == (PrivateSpamState { public_balance: balance, current: 0, pending: 0, nonce: 0 }),
    {
        PrivateSpamState { public_balance: balance, current: 0, pending: 0, nonce: 0 }
    }

    /// Returns the next phase given the account's balances, or `None` when the account can make no
    /// further progress (public balance and private balances are all exhausted).
    pub fn phase(&self, value: u64) -> (phase: Option<PrivatePhase>)
        ensures
            phase == self.phase_for(value),
    {
        if self.current >= value {
            Some(PrivatePhase::Transfer)
        } else if self.pending > 0 {
            Some(PrivatePhase::Rollover)
        } else if self.public_balance > 0 {
            Some(PrivatePhase::Fund)
        } else {
            None
        }
    }
}

/// Applies the effect of a finalized operation.
pub fn apply_effect(state: &mut PrivateSpamState, effect: &PrivateEffect)
    requires
        old(state).admits(*effect),
    ensures
        *final(state) == old(state).after(*effect),
{
    match effect {
        PrivateEffect::Fund { value } => {
            state.public_balance =
            if state.public_balance >= *value {
                state.public_balance - *value
            } else {
                0
            };
            state.pending = state.pending + *value;
        },
        PrivateEffect::Rollover => {
            state.current = state.current + state.pending;
            state.pending = 0;
        },
        PrivateEffect::Transfer { value } => {
            state.current = state.current - *value;
        },
    }
    state.nonce = state.nonce + 1;
}

/// Plans the next operation for one source, or `None` if the source is exhausted.
pub fn plan_and_sign(state: &PrivateSpamState, value: u64) -> (operation: Option<PrivateOperation>)
    ensures
        operation == state.operation_for(value),
{
    match state.phase(value) {
        Some(PrivatePhase::Fund) => Some(
            PrivateOperation {
                nonce: state.nonce,
                effect: PrivateEffect::Fund { value: state.public_balance },
            },
        ),
        Some(PrivatePhase::Rollover) => Some(
            PrivateOperation { nonce: state.nonce, effect: PrivateEffect::Rollover },
        ),
        Some(PrivatePhase::Transfer) => Some(
            PrivateOperation { nonce: state.nonce, effect: PrivateEffect::Transfer { value } },
        ),
        None => None,
    }
}

/// Funding and rolling over move balance within the account; a transfer spends exactly its value;
/// and every planned operation brings the account closer to being exhausted.
pub proof fn operations_conserve(state: PrivateSpamState, value: u64)
    requires
        state.well_formed(),
        value > 0,
        state.operation_for(value) is Some,
    ensures
        ({
            let effect = state.operation_for(value).unwrap().effect;
            let after = state.after(effect);
            &&& state.admits(effect)
            &&& after.well_formed()
            &&& after.nonce == state.nonce + 1
            &&& after.work_left() < state.work_left()
            &&& after.total() == match effect {
                PrivateEffect::Transfer { .. } => state.total() - value,
                _ => state.total(),
            }
        }),
{
}

/// An operation that is not applied leaves its nonce free: the next plan uses it again.
pub proof fn unfinalized_operation_keeps_nonce(state: PrivateSpamState, value: u64)
    ensures
        state.operation_for(value) matches Some(operation) ==> operation.nonce == state.nonce,
{
}

/// The state after `count` planned operations that all finalized.
pub open spec fn advanced(state: PrivateSpamState, value: u64, count: nat) -> PrivateSpamState
    decreases count,
{
    if count == 0 {
        state
    } else {
        let earlier = advanced(state, value, (count - 1) as nat);
        match earlier.operation_for(value) {
            Some(operation) => earlier.after(operation.effect),
            None => earlier,
        }
    }
}

/// A source funds its whole balance, rolls it over, transfers as often as the balance allows, and is
/// then exhausted.
pub proof fn source_cycles(balance: u64, value: u64, transfers: nat)
    requires
        value > 0,
        balance > 0,
        transfers <= balance / value,
        2 + transfers <= u64::MAX,
    ensures
        ({
            let fresh = PrivateSpamState {
                public_balance: balance,
                current: 0,
                pending: 0,
                nonce: 0,
            };
            &&& advanced(fresh, value, 1) == (PrivateSpamState {
                public_balance: 0,
                current: 0,
                pending: balance,
                nonce: 1,
            })
            &&& advanced(fresh, value, 2 + transfers) == (PrivateSpamState {
                public_balance: 0,
                current: (balance - transfers * value) as u64,
                pending: 0,
                nonce: (2 + transfers) as u64,
            })
            &&& transfers == balance / value ==> advanced(fresh, value, 2 + transfers).phase_for(
                value,
            ) is None
        }),
    decreases transfers,
{
    let fresh = PrivateSpamState { public_balance: balance, current: 0, pending: 0, nonce: 0 };
    reveal_with_fuel(advanced, 3);
    let quotient = (balance / value) as int;
    vstd::arithmetic::div_mod::lemma_fundamental_div_mod(balance as int, value as int);
    vstd::arithmetic::div_mod::lemma_mod_bound(balance as int, value as int);
    assert(value * quotient == quotient * value) by (nonlinear_arith);
    assert(transfers * value <= quotient * value) by (nonlinear_arith)
        requires
            transfers <= quotient,
            value > 0,
    ;
    if transfers > 0 {
        source_cycles(balance, value, (transfers - 1) as nat);
        assert((transfers - 1) * value + value == transfers * value) by (nonlinear_arith);
        assert((2 + transfers) - 1 == 2 + (transfers - 1));
    } else {
        assert(transfers * value == 0) by (nonlinear_arith)
            requires
                transfers == 0,
        ;
    }
}

/// One operation of a batch, beside the account that signs it.
#[derive(Debug, Clone, Copy, PartialEq, Eq, Structural)]
pub struct PlannedOperation {
    /// Index of the source.
    pub index: usize,
    /// What it signs.
    pub operation: PrivateOperation,
}

impl PlannedOperation {
    /// Returns the index of the sink that the source pays: every source has its own.
    pub fn sink(&self) -> (sink: usize)
        ensures
            sink == self.index,
    {
        self.index
    }
}

/// What the first `scanned` sources from `cursor` put into a batch of at most `batch_size`.
pub open spec fn picked(
    states: Seq<PrivateSpamState>,
    cursor: int,
    value: u64,
    batch_size: int,
    scanned: nat,
) -> Seq<PlannedOperation>
    decreases scanned,
{
    if scanned == 0 {
        Seq::empty()
    } else {
        let earlier = picked(states, cursor, value, batch_size, (scanned - 1) as nat);
        let index = crate::ring::position(cursor, scanned - 1, states.len() as int);
        if earlier.len() >= batch_size {
            earlier
        } else {
            match states[index].operation_for(value) {
                Some(operation) => earlier.push(
                    PlannedOperation { index: index as usize, operation },
                ),
                None => earlier,
            }
        }
    }
}

/// How many of the first `scanned` sources are looked at before the batch is full.
pub open spec fn looked_at(
    states: Seq<PrivateSpamState>,
    cursor: int,
    value: u64,
    batch_size: int,
    scanned: nat,
) -> nat
    decreases scanned,
{
    if scanned == 0 {
        0
    } else if picked(states, cursor, value, batch_size, (scanned - 1) as nat).len() >= batch_size {
        looked_at(states, cursor, value, batch_size, (scanned - 1) as nat)
    } else {
        scanned
    }
}

/// A full batch stays as it is.
proof fn full_batch_is_kept(
    states: Seq<PrivateSpamState>,
    cursor: int,
    value: u64,
    batch_size: int,
    scanned: nat,
    more: nat,
)
    requires
        scanned <= more,
        picked(states, cursor, value, batch_size, scanned).len() >= batch_size,
    ensures
        picked(states, cursor, value, batch_size, more) == picked(
            states,
            cursor,
            value,
            batch_size,
            scanned,
        ),
        looked_at(states, cursor, value, batch_size, more) == looked_at(
            states,
            cursor,
            value,
            batch_size,
            scanned,
        ),
    decreases more,
{
    if scanned < more {
        full_batch_is_kept(states, cursor, value, batch_size, scanned, (more - 1) as nat);
    }
}

/// A lane: one independent blocking submit loop over a disjoint slice of accounts.
pub struct Lane {
    /// State of every source.
    pub states: Vec<PrivateSpamState>,
    /// The source that the next batch starts with.
    pub cursor: usize,
    /// Amount of every transfer.
    pub value: u64,
    /// Operations per batch, at most.
    pub batch_size: usize,
}

/// Whether a batch holds the next operations of distinct sources.
pub open spec fn plan_fits(
    states: Seq<PrivateSpamState>,
    plan: Seq<PlannedOperation>,
    value: u64,
) -> bool {
    &&& forall|k: int|
        0 <= k < plan.len() ==> (#[trigger] plan[k]).index < states.len()
            && states[plan[k].index as int].operation_for(value) == Some(plan[k].operation)
    &&& forall|j: int, k: int|
        0 <= j < k < plan.len() ==> (#[trigger] plan[j]).index != (#[trigger] plan[k]).index
}

/// Whether `index` is the source of a finalized operation of a batch.
pub open spec fn advances(plan: Seq<PlannedOperation>, outcome: SubmitOutcome, index: int) -> bool {
    exists|k: int|
        0 <= k < plan.len() && (#[trigger] plan[k]).index == index && outcome.has(k as u64)
}

impl Lane {
    /// Whether there are sources and none runs out of range.
    pub open spec fn well_formed(self) -> bool {
        &&& self.states@.len() > 0
        &&& self.cursor < self.states@.len()
        &&& self.value > 0
        &&& self.batch_size > 0
        &&& forall|i: int|
            0 <= i < self.states@.len() ==> (#[trigger] self.states@[i]).well_formed()
    }

    /// Starts with every balance public.
    pub fn new(sources: usize, balance: u64, value: u64, batch_size: usize) -> (lane: Self)
        requires
            sources > 0,
            value > 0,
            batch_size > 0,
            balance + 2 <= u64::MAX,
        ensures
            lane.well_formed(),
            lane.states@ == Seq::new(
                sources as nat,
                |i: int|
                    PrivateSpamState { public_balance: balance, current: 0, pending: 0, nonce: 0 },
            ),
            lane.cursor == 0,
            lane.value == value,
            lane.batch_size == batch_size,
    {
        let ghost fresh = PrivateSpamState {
            public_balance: balance,
            current: 0,
            pending: 0,
            nonce: 0,
        };
        let mut states: Vec<PrivateSpamState> = Vec::new();
        let mut i: usize = 0;
        while i < sources
            invariant
                i <= sources,
                fresh == (PrivateSpamState {
                    public_balance: balance,
                    current: 0,
                    pending: 0,
                    nonce: 0,
                }),
                states@ == Seq::new(i as nat, |k: int| fresh),
            decreases sources - i,
        {
            states.push(PrivateSpamState::new(balance));
            proof {
                assert(states@ =~= Seq::new((i + 1) as nat, |k: int| fresh));
            }
            i += 1;
        }
        Lane { states, cursor: 0, value, batch_size }
    }

    /// Fills a batch from distinct sources, skipping exhausted ones.
    pub fn fill_batch(&mut self) -> (plan: Vec<PlannedOperation>)
        requires
            old(self).well_formed(),
        ensures
            final(self).well_formed(),
            plan@ == picked(
                old(self).states@,
                old(self).cursor as int,
                old(self).value,
                old(self).batch_size as int,
                old(self).states@.len(),
            ),
            plan_fits(old(self).states@, plan@, old(self).value),
            final(self).cursor == crate::ring::position(
                old(self).cursor as int,
                looked_at(
                    old(self).states@,
                    old(self).cursor as int,
                    old(self).value,
                    old(self).batch_size as int,
                    old(self).states@.len(),
                ) as int,
                old(self).states@.len() as int,
            ),
            *final(self) == (Lane { cursor: final(self).cursor, ..*old(self) }),
    {
        let ghost states = self.states@;
        let ghost start = self.cursor as int;
        let ghost value = self.value;
        let ghost limit = self.batch_size as int;
        let sources: usize = self.states.len();
        let mut plan: Vec<PlannedOperation> = Vec::new();
        let mut scanned: usize = 0;
        proof {
            crate::ring::step(start, 0, sources as int);
        }
        while plan.len() < self.batch_size && scanned < sources
            invariant
                scanned <= sources,
                *self == (Lane { cursor: self.cursor, ..*old(self) }),
                self.well_formed(),
                states == self.states@,
                value == self.value,
                limit == self.batch_size,
                sources == states.len(),
                0 <= start < sources,
                start == old(self).cursor,
                plan@ == picked(states, start, value, limit, scanned as nat),
                self.cursor == crate::ring::position(start, scanned as int, sources as int),
                looked_at(states, start, value, limit, scanned as nat) == scanned,
                plan_fits(states, plan@, value),
                forall|k: int|
                    0 <= k < plan@.len() ==> crate::ring::distance(
                        start,
                        (#[trigger] plan@[k]).index as int,
                        sources as int,
                    ) < scanned,
            decreases sources - scanned,
        {
            let index: usize = self.cursor;
            proof {
                crate::ring::step(start, scanned as int, sources as int);
                distance_of_position(start, scanned as int, sources as int);
            }
            self.cursor = next_index(index, sources);
            scanned += 1;
            if let Some(operation) = plan_and_sign(&self.states[index], self.value) {
                plan.push(PlannedOperation { index, operation });
            }
        }
        proof {
            if plan@.len() >= limit {
                full_batch_is_kept(states, start, value, limit, scanned as nat, sources as nat);
            }
        }
        plan
    }

    /// Applies the finalized operations of a batch; the rest keep their nonces for a retry.
    pub fn settle(&mut self, plan: &Vec<PlannedOperation>, outcome: &SubmitOutcome)
        requires
            old(self).well_formed(),
            plan_fits(old(self).states@, plan@, old(self).value),
        ensures
            final(self).well_formed(),
            final(self).states@.len() == old(self).states@.len(),
            forall|i: int|
                0 <= i < old(self).states@.len() ==> #[trigger] final(self).states@[i]
                    == if advances(plan@, *outcome, i) {
                    old(self).states@[i].after(
                        old(self).states@[i].operation_for(old(self).value).unwrap().effect,
                    )
                } else {
                    old(self).states@[i]
                },
            *final(self) == (Lane { states: final(self).states, ..*old(self) }),
    {
        let ghost before = self.states@;
        let ghost value = self.value;
        let mut k: usize = 0;
        while k < plan.len()
            invariant
                k <= plan@.len(),
                *self == (Lane { states: self.states, ..*old(self) }),
                self.well_formed(),
                before == old(self).states@,
                value == self.value,
                self.states@.len() == before.len(),
                plan_fits(before, plan@, value),
                forall|i: int|
                    0 <= i < before.len() ==> #[trigger] self.states@[i] == if advances(
                        plan@.take(k as int),
                        *outcome,
                        i,
                    ) {
                        before[i].after(before[i].operation_for(value).unwrap().effect)
                    } else {
                        before[i]
                    },
            decreases plan@.len() - k,
        {
            let planned = plan[k];
            let ghost seen = plan@.take(k as int);
            let ghost next = plan@.take(k + 1);
            let ghost now = self.states@;
            proof {
                assert(next =~= seen.push(planned));
                assert(!advances(seen, *outcome, planned.index as int)) by {
                    if advances(seen, *outcome, planned.index as int) {
                        let j = choose|j: int|
                            0 <= j < seen.len() && (#[trigger] seen[j]).index == planned.index
                                && outcome.has(j as u64);
                        assert(plan@[j].index == plan@[k as int].index);
                    }
                }
                assert(now[planned.index as int] == before[planned.index as int]);
                operations_conserve(now[planned.index as int], value);
                assert forall|i: int| 0 <= i < before.len() && i != planned.index implies advances(
                    next,
                    *outcome,
                    i,
                ) == advances(seen, *outcome, i) by {
                    if advances(seen, *outcome, i) {
                        let j = choose|j: int|
                            0 <= j < seen.len() && (#[trigger] seen[j]).index == i && outcome.has(
                                j as u64,
                            );
                        assert(next[j].index == i);
                    }
                    if advances(next, *outcome, i) {
                        let j = choose|j: int|
                            0 <= j < next.len() && (#[trigger] next[j]).index == i && outcome.has(
                                j as u64,
                            );
                        assert(seen[j].index == i);
                    }
                }
                assert(next[k as int].index == planned.index);
                if !outcome.has(k as u64) {
                    assert(!advances(next, *outcome, planned.index as int)) by {
                        if advances(next, *outcome, planned.index as int) {
                            let j = choose|j: int|
                                0 <= j < next.len() && (#[trigger] next[j]).index == planned.index
                                    && outcome.has(j as u64);
                            assert(j != k);
                            assert(seen[j].index == planned.index);
                        }
                    }
                }
            }
            if outcome.finalized(k as u64) {
                let mut state = self.states[planned.index];
                apply_effect(&mut state, &planned.operation.effect);
                self.states.set(planned.index, state);
            }
            k += 1;
        }
        proof {
            assert(plan@.take(k as int) =~= plan@);
        }
    }
}

proof fn picks_grow(
    states: Seq<PrivateSpamState>,
    cursor: int,
    value: u64,
    batch_size: int,
    fewer: nat,
    more: nat,
)
    requires
        fewer <= more,
    ensures
        picked(states, cursor, value, batch_size, fewer).len() <= picked(
            states,
            cursor,
            value,
            batch_size,
            more,
        ).len(),
    decreases more,
{
    if fewer < more {
        picks_grow(states, cursor, value, batch_size, fewer, (more - 1) as nat);
    }
}

/// A lane finds nothing to sign exactly when every source is exhausted.
pub proof fn empty_batch_means_exhausted(
    states: Seq<PrivateSpamState>,
    cursor: int,
    value: u64,
    batch_size: int,
    scanned: nat,
)
    requires
        0 <= cursor < states.len(),
        batch_size > 0,
        scanned == states.len(),
    ensures
        picked(states, cursor, value, batch_size, scanned).len() == 0 <==> forall|a: int|
            0 <= a < states.len() ==> (#[trigger] states[a]).operation_for(value) is None,
{
    let size = states.len() as int;
    if picked(states, cursor, value, batch_size, scanned).len() == 0 {
        assert forall|a: int| 0 <= a < size implies (#[trigger] states[a]).operation_for(
            value,
        ) is None by {
            let at = crate::ring::distance(cursor, a, size);
            picks_grow(states, cursor, value, batch_size, (at + 1) as nat, scanned);
            picks_grow(states, cursor, value, batch_size, at as nat, scanned);
            let wraps = if a >= cursor {
                0int
            } else {
                1int
            };
            assert(wraps * size + a == cursor + at);
            vstd::arithmetic::div_mod::lemma_fundamental_div_mod_converse(
                cursor + at,
                size,
                wraps,
                a,
            );
        }
    } else if forall|a: int|
        0 <= a < states.len() ==> (#[trigger] states[a]).operation_for(value) is None {
        exhausted_pick_nothing(states, cursor, value, batch_size, scanned);
    }
}

proof fn exhausted_pick_nothing(
    states: Seq<PrivateSpamState>,
    cursor: int,
    value: u64,
    batch_size: int,
    scanned: nat,
)
    requires
        0 <= cursor < states.len(),
        forall|a: int|
            0 <= a < states.len() ==> (#[trigger] states[a]).operation_for(value) is None,
    ensures
        picked(states, cursor, value, batch_size, scanned).len() == 0,
    decreases scanned,
{
    if scanned > 0 {
        exhausted_pick_nothing(states, cursor, value, batch_size, (scanned - 1) as nat);
        crate::ring::step(cursor, scanned - 1, states.len() as int);
    }
}

/// A position is as many steps away as lead to it within one round.
proof fn distance_of_position(start: int, steps: int, size: int)
    requires
        0 <= start < size,
        0 <= steps < size,
    ensures
        crate::ring::distance(start, crate::ring::position(start, steps, size), size) == steps,
{
    let wraps = if start + steps < size {
        0int
    } else {
        1int
    };
    assert(wraps * size + (start + steps - wraps * size) == start + steps);
    vstd::arithmetic::div_mod::lemma_fundamental_div_mod_converse(
        start + steps,
        size,
        wraps,
        start + steps - wraps * size,
    );
}

/// One lane of the workload.
pub struct LanePlan {
    /// Number of the lane.
    pub lane: usize,
    /// Sources of the lane.
    pub accounts: usize,
    /// Seed of the first source.
    pub source_seed: u64,
    /// Seed of the first sink.
    pub sink_seed: u64,
    /// Seed of the lane's randomness.
    pub rng_seed: u64,
    /// Exact leader that the lane targets.
    pub target: Option<String>,
}

/// How many lanes run: at least one, and no more than there are accounts.
pub open spec fn lane_count(total: int, lanes: int) -> int {
    if lanes < 1 || total < 1 {
        1
    } else if lanes > total {
        total
    } else {
        lanes
    }
}

/// The accounts before a lane: accounts are shared evenly, and the first lanes take one more each.
pub open spec fn lane_start(total: int, lanes: int, lane: int) -> int {
    lane * (total / lanes) + if lane < total % lanes {
        lane
    } else {
        total % lanes
    }
}

/// The lanes own consecutive slices that together are all accounts, none empty, and no two differ by
/// more than one.
pub proof fn lanes_partition(total: int, lanes: int, lane: int)
    requires
        1 <= lanes <= total,
        0 <= lane < lanes,
    ensures
        lane_start(total, lanes, 0) == 0,
        lane_start(total, lanes, lanes) == total,
        0 <= lane_start(total, lanes, lane),
        lane_start(total, lanes, lane + 1) - lane_start(total, lanes, lane) == total / lanes + (
        if lane < total % lanes {
            1int
        } else {
            0int
        }),
        lane_start(total, lanes, lane) < lane_start(total, lanes, lane + 1) <= total,
{
    let base = total / lanes;
    let extra = total % lanes;
    vstd::arithmetic::div_mod::lemma_fundamental_div_mod(total, lanes);
    vstd::arithmetic::div_mod::lemma_mod_bound(total, lanes);
    assert(0 * base == 0) by (nonlinear_arith);
    assert(lanes * base == base * lanes) by (nonlinear_arith);
    assert((lane + 1) * base == lane * base + base) by (nonlinear_arith);
    assert(lane * base >= 0) by (nonlinear_arith)
        requires
            lane >= 0,
            base >= 0,
    ;
    assert(base >= 1) by (nonlinear_arith)
        requires
            total == lanes * base + extra,
            extra < lanes,
            lanes <= total,
            lanes >= 1,
    ;
    assert((lane + 1) * base <= lanes * base) by (nonlinear_arith)
        requires
            lane + 1 <= lanes,
            base >= 0,
    ;
    assert(lanes * base - (lane + 1) * base == (lanes - lane - 1) * base) by (nonlinear_arith);
    assert((lanes - lane - 1) * base >= lanes - lane - 1) by (nonlinear_arith)
        requires
            base >= 1,
            lanes - lane - 1 >= 0,
    ;
}

/// The sum of a seed and a lane's number plus one, wrapping around.
pub open spec fn lane_rng_seed(seed_offset: u64, lane: int) -> u64 {
    if seed_offset + lane + 1 > u64::MAX {
        (seed_offset + lane + 1 - 0x1_0000_0000_0000_0000) as u64
    } else {
        (seed_offset + lane + 1) as u64
    }
}

/// Whether a plan is that of the lane at `lane`.
pub open spec fn plans_lane(
    plan: LanePlan,
    accounts: u32,
    seed_offset: u64,
    lanes: int,
    targets: Seq<String>,
    lane: int,
) -> bool {
    let start = lane_start(accounts as int, lanes, lane);
    &&& plan.lane == lane
    &&& plan.accounts == lane_start(accounts as int, lanes, lane + 1) - start
    &&& plan.source_seed == seed_offset + start
    &&& plan.sink_seed == seed_offset + accounts + start
    &&& plan.rng_seed == lane_rng_seed(seed_offset, lane)
    &&& match plan.target {
        Some(target) => targets.len() > 0 && target == targets[lane % targets.len() as int],
        None => targets.len() == 0,
    }
}

/// Splits the accounts among lanes. Sinks live in a disjoint seed range, so a lane's transfers never
/// touch another lane's (or its own) source accounts.
pub fn run_private(
    accounts: u32,
    seed_offset: u64,
    lanes: usize,
    relayer_targets: &[String],
) -> (plans: Vec<LanePlan>)
    requires
        seed_offset + 2 * accounts - 1 <= u64::MAX,
        seed_offset + accounts <= u64::MAX,
    ensures
        accounts == 0 ==> plans@.len() == 0,
        accounts > 0 ==> {
            &&& plans@.len() == lane_count(accounts as int, lanes as int)
            &&& forall|i: int|
                0 <= i < plans@.len() ==> plans_lane(
                    #[trigger] plans@[i],
                    accounts,
                    seed_offset,
                    lane_count(accounts as int, lanes as int),
                    relayer_targets@,
                    i,
                )
        },
{
    let mut plans: Vec<LanePlan> = Vec::new();
    if accounts == 0 {
        return plans;
    }
    let count: u32 = if lanes < 1 {
        1
    } else if lanes as u64 > accounts as u64 {
        accounts
    } else {
        lanes as u32
    };
    let base: u32 = accounts / count;
    let extra: u32 = accounts % count;
    let sink_base: u64 = seed_offset + accounts as u64;
    let mut start: u64 = 0;
    let mut lane: u32 = 0;
    proof {
        lanes_partition(accounts as int, count as int, 0);
    }
    while lane < count
        invariant
            lane <= count,
            1 <= count <= accounts,
            count == lane_count(accounts as int, lanes as int),
            base == accounts / count,
            extra == accounts % count,
            sink_base == seed_offset + accounts,
            seed_offset + 2 * accounts - 1 <= u64::MAX,
            start == lane_start(accounts as int, count as int, lane as int),
            plans@.len() == lane,
            forall|i: int|
                0 <= i < lane ==> plans_lane(
                    #[trigger] plans@[i],
                    accounts,
                    seed_offset,
                    count as int,
                    relayer_targets@,
                    i,
                ),
        decreases count - lane,
    {
        proof {
            lanes_partition(accounts as int, count as int, lane as int);
        }
        let share: u32 = if lane < extra { base + 1 } else { base };
        let bump: u64 = lane as u64 + 1;
        let rng_seed: u64 = if bump > u64::MAX - seed_offset {
            bump - (u64::MAX - seed_offset) - 1
        } else {
            seed_offset + bump
        };
        let target = if relayer_targets.len() == 0 {
            None
        } else {
            Some(relayer_targets[lane as usize % relayer_targets.len()].clone())
        };
        plans.push(
            LanePlan {
                lane: lane as usize,
                accounts: share as usize,
                source_seed: seed_offset + start,
                sink_seed: sink_base + start,
                rng_seed,
                target,
            },
        );
        start = start + share as u64;
        lane += 1;
    }
    plans
}

/// No account is a source twice, and none is both a source and a sink.
pub proof fn lanes_never_share_accounts(
    accounts: u32,
    seed_offset: u64,
    lanes: int,
    left: int,
    right: int,
)
    requires
        1 <= lanes <= accounts,
        0 <= left < right < lanes,
    ensures
        lane_start(accounts as int, lanes, left + 1) <= lane_start(accounts as int, lanes, right),
        seed_offset + lane_start(accounts as int, lanes, right + 1) <= seed_offset + accounts
            + lane_start(accounts as int, lanes, left),
    decreases right - left,
{
    lanes_partition(accounts as int, lanes, left);
    lanes_partition(accounts as int, lanes, right);
    if left + 1 < right {
        lanes_partition(accounts as int, lanes, left + 1);
        lanes_never_share_accounts(accounts, seed_offset, lanes, left + 1, right);
    }
}

/// A batch is full, or holds the next operation of every source that has one; it never holds more
/// than fit, and none but next operations.
pub proof fn batch_is_full_or_complete(
    states: Seq<PrivateSpamState>,
    cursor: int,
    value: u64,
    batch_size: int,
    scanned: nat,
    offset: int,
)
    requires
        0 <= cursor < states.len(),
        states.len() <= usize::MAX,
        batch_size > 0,
        scanned <= states.len(),
        0 <= offset < scanned,
    ensures
        ({
            let plan = picked(states, cursor, value, batch_size, scanned);
            let source = (cursor + offset) % states.len() as int;
            &&& plan.len() <= batch_size
            &&& plan.len() < batch_size ==> match states[source].operation_for(value) {
                Some(operation) => plan.contains(
                    PlannedOperation { index: source as usize, operation },
                ),
                None => true,
            }
            &&& forall|k: int|
                0 <= k < plan.len() ==> (#[trigger] plan[k]).index < states.len()
                    && states[plan[k].index as int].operation_for(value) == Some(plan[k].operation)
        }),
    decreases scanned,
{
    let plan = picked(states, cursor, value, batch_size, scanned);
    let less = (scanned - 1) as nat;
    let earlier = picked(states, cursor, value, batch_size, less);
    let index = crate::ring::position(cursor, less as int, states.len() as int);
    vstd::arithmetic::div_mod::lemma_mod_bound(cursor + less, states.len() as int);
    if less > 0 {
        batch_is_full_or_complete(
            states,
            cursor,
            value,
            batch_size,
            less,
            if offset < less {
                offset
            } else {
                0
            },
        );
    }
    let source = (cursor + offset) % states.len() as int;
    if plan.len() < batch_size {
        if offset < less {
            if let Some(operation) = states[source].operation_for(value) {
                let own = PlannedOperation { index: source as usize, operation };
                let at = choose|at: int| 0 <= at < earlier.len() && earlier[at] == own;
                assert(plan[at] == own);
            }
        } else if let Some(operation) = states[source].operation_for(value) {
            assert(plan[earlier.len() as int] == (PlannedOperation {
                index: source as usize,
                operation,
            }));
        }
    }
}

/// The next batch goes on behind this one: a full batch ends with the source before the next
/// cursor, and a batch that is not full has looked at every source once.
pub proof fn next_batch_goes_on_behind(
    states: Seq<PrivateSpamState>,
    cursor: int,
    value: u64,
    batch_size: int,
    scanned: nat,
)
    requires
        0 <= cursor < states.len(),
        states.len() <= usize::MAX,
        batch_size > 0,
        scanned <= states.len(),
    ensures
        ({
            let plan = picked(states, cursor, value, batch_size, scanned);
            let seen = looked_at(states, cursor, value, batch_size, scanned);
            &&& seen <= scanned
            &&& plan.len() < batch_size ==> seen == scanned
            &&& plan.len() == batch_size ==> seen > 0 && plan.last().index == (cursor + seen - 1)
                % states.len() as int
        }),
    decreases scanned,
{
    if scanned > 0 {
        let less = (scanned - 1) as nat;
        let earlier = picked(states, cursor, value, batch_size, less);
        vstd::arithmetic::div_mod::lemma_mod_bound(cursor + less, states.len() as int);
        next_batch_goes_on_behind(states, cursor, value, batch_size, less);
        batch_is_full_or_complete(states, cursor, value, batch_size, scanned, 0);
        if less > 0 {
            batch_is_full_or_complete(states, cursor, value, batch_size, less, 0);
        }
    }
}

/// The lanes that [`run_private`] plans share the accounts out: as many lanes as asked for, at least
/// one and at most one for each account. Every lane goes on where the one before it ends, the first
/// starts at the seed offset and the last ends after all accounts. No lane has more than one account
/// more than another, nor fewer than one behind it. Sinks have the seeds behind all sources, lane by lane.
pub proof fn lanes_share_accounts_out(
    accounts: u32,
    seed_offset: u64,
    lanes: usize,
    relayer_targets: &[String],
    plans: Vec<LanePlan>,
    lane: int,
    other: int,
)
    requires
        call_ensures(run_private, (accounts, seed_offset, lanes, relayer_targets), plans),
        accounts > 0,
        0 <= lane < plans@.len(),
        0 <= other < plans@.len(),
    ensures
        1 <= lanes <= accounts ==> plans@.len() == lanes,
        lanes > accounts ==> plans@.len() == accounts,
        lanes == 0 ==> plans@.len() == 1,
        plans@[0].source_seed == seed_offset,
        lane + 1 < plans@.len() ==> plans@[lane + 1].source_seed == plans@[lane].source_seed
            + plans@[lane].accounts,
        lane + 1 == plans@.len() ==> plans@[lane].source_seed + plans@[lane].accounts
            == seed_offset + accounts,
        plans@[lane].accounts >= 1,
        plans@[lane].accounts <= plans@[other].accounts + 1,
        lane <= other ==> plans@[lane].accounts >= plans@[other].accounts,
        plans@[lane].sink_seed == plans@[lane].source_seed + accounts,
        plans@[lane].lane == lane,
        relayer_targets@.len() == 0 ==> plans@[lane].target is None,
        relayer_targets@.len() > lane ==> plans@[lane].target == Some(relayer_targets@[lane]),
        seed_offset + lane < u64::MAX ==> plans@[lane].rng_seed == seed_offset + lane + 1,
{
    let total = accounts as int;
    let count = plans@.len() as int;
    assert(plans_lane(plans@[lane], accounts, seed_offset, count, relayer_targets@, lane));
    assert(plans_lane(plans@[other], accounts, seed_offset, count, relayer_targets@, other));
    assert(plans_lane(plans@[0], accounts, seed_offset, count, relayer_targets@, 0));
    lanes_partition(total, count, lane);
    lanes_partition(total, count, other);
    if lane + 1 < count {
        assert(
            plans_lane(plans@[lane + 1], accounts, seed_offset, count, relayer_targets@, lane + 1)
        );
    }
    if relayer_targets@.len() > lane {
        vstd::arithmetic::div_mod::lemma_small_mod(lane as nat, relayer_targets@.len());
    }
}

/// A batch that was filled and of which nothing finalized changes no source. One that finalized as a
/// whole moves every source in it on by one nonce, and no other source.
pub proof fn only_finalized_sources_move_on(
    filling: &mut Lane,
    settling: &mut Lane,
    plan: Vec<PlannedOperation>,
    outcome: SubmitOutcome,
    at: int,
)
    requires
        old(filling).well_formed(),
        call_ensures(Lane::fill_batch, (filling,), plan),
        *old(settling) == *final(filling),
        call_ensures(Lane::settle, (settling, &plan, &outcome), ()),
        0 <= at < old(filling).states@.len(),
    ensures
        plan@.len() <= old(filling).batch_size,
        final(settling).states@.len() == old(filling).states@.len(),
        outcome is NoneFinalized ==> final(settling).states@[at] == old(filling).states@[at],
        (forall|k: int| 0 <= k < plan@.len() ==> (#[trigger] plan@[k]).index != at)
            ==> final(settling).states@[at] == old(filling).states@[at],
        forall|k: int|
            0 <= k < plan@.len() && (#[trigger] plan@[k]).index == at && outcome.has(k as u64)
                ==> final(settling).states@[at].nonce == old(filling).states@[at].nonce + 1,
        forall|k: int|
            0 <= k < plan@.len() && (#[trigger] plan@[k]).index == at && !outcome.has(k as u64)
                ==> final(settling).states@[at] == old(filling).states@[at],
        forall|k: int|
            0 <= k < plan@.len() ==> (#[trigger] plan@[k]).operation.nonce
                == old(filling).states@[plan@[k].index as int].nonce,
{
    let before = *old(filling);
    assert(old(filling).states.len() == old(filling).states@.len());
    batch_is_full_or_complete(
        before.states@,
        before.cursor as int,
        before.value,
        before.batch_size as int,
        before.states@.len(),
        0,
    );
    assert forall|k: int|
        0 <= k < plan@.len() && (#[trigger] plan@[k]).index == at && outcome.has(
            k as u64,
        ) implies final(settling).states@[at].nonce == old(filling).states@[at].nonce + 1 by {
        assert(advances(plan@, outcome, at));
        assert(before.states@[at].well_formed());
        operations_conserve(before.states@[at], before.value);
    }
    assert forall|k: int|
        0 <= k < plan@.len() && (#[trigger] plan@[k]).index == at && !outcome.has(
            k as u64,
        ) implies final(settling).states@[at] == old(filling).states@[at] by {
        if advances(plan@, outcome, at) {
            let other = choose|other: int|
                0 <= other < plan@.len() && (#[trigger] plan@[other]).index == at && outcome.has(
                    other as u64,
                );
            assert(plan@[other].index == plan@[k].index);
        }
    }
}

/// What a source does next, as [`PrivateSpamState::phase`] says: it transfers whenever it can afford
/// to, otherwise rolls over what is pending, otherwise funds what is public, and otherwise rests. Its
/// planned operation is of that phase, at its own nonce.
pub proof fn phases_follow_balances(
    state: PrivateSpamState,
    value: u64,
    phase: Option<PrivatePhase>,
    operation: Option<PrivateOperation>,
)
    requires
        call_ensures(PrivateSpamState::phase, (&state, value), phase),
        call_ensures(plan_and_sign, (&state, value), operation),
    ensures
        phase == Some(PrivatePhase::Transfer) <==> state.current >= value,
        phase == Some(PrivatePhase::Rollover) <==> state.current < value && state.pending > 0,
        phase == Some(PrivatePhase::Fund) <==> state.current < value && state.pending == 0
            && state.public_balance > 0,
        phase is None <==> operation is None,
        operation matches Some(operation) ==> {
            &&& operation.nonce == state.nonce
            &&& operation.effect == PrivateEffect::Rollover <==> phase == Some(
                PrivatePhase::Rollover,
            )
            &&& phase == Some(PrivatePhase::Transfer) ==> operation.effect
                == (PrivateEffect::Transfer { value })
            &&& phase == Some(PrivatePhase::Fund) ==> operation.effect == (PrivateEffect::Fund {
                value: state.public_balance,
            })
        },
{
}

/// What an applied effect does: a fund moves its value from the public to the pending balance, a
/// rollover all that is pending to the current one, and a transfer spends its value; each uses up one
/// nonce.
pub proof fn effects_move_balances(state: &mut PrivateSpamState, effect: PrivateEffect)
    requires
        old(state).admits(effect),
        call_ensures(apply_effect, (state, &effect), ()),
    ensures
        final(state).nonce == old(state).nonce + 1,
        match effect {
            PrivateEffect::Fund { value } => {
                &&& final(state).pending == old(state).pending + value
                &&& final(state).current == old(state).current
                &&& value <= old(state).public_balance ==> final(state).public_balance + value
                    == old(state).public_balance
            },
            PrivateEffect::Rollover => {
                &&& final(state).pending == 0
                &&& final(state).current == old(state).current + old(state).pending
                &&& final(state).public_balance == old(state).public_balance
            },
            PrivateEffect::Transfer { value } => {
                &&& final(state).current + value == old(state).current
                &&& final(state).pending == old(state).pending
                &&& final(state).public_balance == old(state).public_balance
            },
        },
{
}

/// A batch that [`Lane::fill_batch`] fills is full, or holds the next operation of every source that
/// has one; the next batch goes on behind it.
pub proof fn filled_batches_are_full_or_complete(
    lane: &mut Lane,
    plan: Vec<PlannedOperation>,
    source: int,
)
    requires
        old(lane).well_formed(),
        call_ensures(Lane::fill_batch, (lane,), plan),
        0 <= source < old(lane).states@.len(),
    ensures
        plan@.len() <= old(lane).batch_size,
        plan@.len() < old(lane).batch_size ==> (old(lane).states@[source].operation_for(
            old(lane).value,
        ) matches Some(operation) ==> plan@.contains(
            PlannedOperation { index: source as usize, operation },
        )),
        plan@.len() < old(lane).batch_size ==> final(lane).cursor == old(lane).cursor,
        plan@.len() == old(lane).batch_size ==> final(lane).cursor == crate::ring::successor(
            plan@.last().index as int,
            old(lane).states@.len() as int,
        ),
        final(lane).states@ == old(lane).states@,
{
    let states = old(lane).states@;
    let cursor = old(lane).cursor as int;
    let value = old(lane).value;
    let size = old(lane).batch_size as int;
    let count = states.len() as int;
    assert(old(lane).states.len() == states.len());
    let offset = crate::ring::distance(cursor, source, count);
    let start = cursor + offset;
    if source >= cursor {
        vstd::arithmetic::div_mod::lemma_small_mod(start as nat, count as nat);
    } else {
        vstd::arithmetic::div_mod::lemma_mod_add_multiples_vanish(source, count);
        vstd::arithmetic::div_mod::lemma_small_mod(source as nat, count as nat);
    }
    assert(start % count == source);
    batch_is_full_or_complete(states, cursor, value, size, states.len(), offset);
    next_batch_goes_on_behind(states, cursor, value, size, states.len());
    let seen = looked_at(states, cursor, value, size, states.len()) as int;
    if plan@.len() < size {
        vstd::arithmetic::div_mod::lemma_mod_add_multiples_vanish(cursor, count);
        vstd::arithmetic::div_mod::lemma_small_mod(cursor as nat, count as nat);
    } else {
        crate::ring::step(cursor, seen - 1, count);
    }
}

} // verus!

//! Private commitment chains: what each account signs next, and how signed batches are rolled back.

use crate::ring::next_index;
use vstd::prelude::*;

verus! {

/// What an account holds.
#[derive(Debug, Clone, Copy, PartialEq, Eq, Structural)]
pub struct ChainBalance {
    /// Public balance.
    pub public: u64,
    /// Balance under the account's commitment.
    pub private: u64,
}

/// What an account does next.
#[derive(Debug, Clone, Copy, PartialEq, Eq, Structural)]
pub enum PrivateAction {
    /// Moves its public balance under its commitment.
    Fund { value: u64 },
    /// Pays from under its commitment.
    Transfer { value: u64 },
}

/// One signed operation, with what it was signed against.
#[derive(Debug, Clone, Copy, PartialEq, Eq, Structural)]
pub struct PrivateStep {
    /// Index of the account.
    pub account: usize,
    /// Nonce of the operation.
    pub nonce: u64,
    /// What the account held.
    pub before: ChainBalance,
    /// What the account does.
    pub action: PrivateAction,
}

/// The next action of an account, unless it is drained.
pub open spec fn action_of(balance: ChainBalance, value: u64) -> Option<PrivateAction> {
    if balance.private >= value {
        Some(PrivateAction::Transfer { value })
    } else if balance.public > 0 {
        Some(PrivateAction::Fund { value: balance.public })
    } else {
        None
    }
}

/// What an account holds after an action.
pub open spec fn balance_after(balance: ChainBalance, action: PrivateAction) -> ChainBalance {
    match action {
        PrivateAction::Fund { value } => ChainBalance {
            public: (balance.public - value) as u64,
            private: (balance.private + value) as u64,
        },
        PrivateAction::Transfer { value } => ChainBalance {
            public: balance.public,
            private: (balance.private - value) as u64,
        },
    }
}

/// Returns the next action of an account, unless it is drained.
pub fn next_action(balance: ChainBalance, value: u64) -> (action: Option<PrivateAction>)
    ensures
        action == action_of(balance, value),
{
    if balance.private >= value {
        Some(PrivateAction::Transfer { value })
    } else if balance.public > 0 {
        Some(PrivateAction::Fund { value: balance.public })
    } else {
        None
    }
}

/// Returns what an account holds after its next action.
fn settle(balance: ChainBalance, action: PrivateAction, Ghost(value): Ghost<u64>) -> (after:
    ChainBalance)
    requires
        action_of(balance, value) == Some(action),
        balance.public + balance.private <= u64::MAX,
    ensures
        after == balance_after(balance, action),
{
    match action {
        PrivateAction::Fund { value } => ChainBalance {
            public: balance.public - value,
            private: balance.private + value,
        },
        PrivateAction::Transfer { value } => ChainBalance {
            public: balance.public,
            private: balance.private - value,
        },
    }
}

/// The nonces and balances that the next batch is signed against.
#[verifier::ext_equal]
pub struct SigningState {
    pub nonces: Seq<u64>,
    pub chains: Seq<ChainBalance>,
}

/// The operations that an account has left, at most: a transfer for every unit that it holds, and one
/// operation to move its public balance under its commitment.
pub open spec fn operations_left(balance: ChainBalance) -> int {
    balance.public + balance.private + if balance.public > 0 {
        1int
    } else {
        0int
    }
}

impl SigningState {
    /// Whether there are accounts and none can run out of nonces.
    pub open spec fn sound(self) -> bool {
        &&& self.nonces.len() == self.chains.len()
        &&& self.nonces.len() > 0
        &&& forall|a: int|
            0 <= a < self.nonces.len() ==> #[trigger] self.nonces[a] + operations_left(
                self.chains[a],
            ) <= u64::MAX
    }

    /// Whether an operation was signed against this state.
    pub open spec fn fits(self, step: PrivateStep) -> bool {
        &&& step.account < self.nonces.len()
        &&& step.account < self.chains.len()
        &&& step.nonce == self.nonces[step.account as int]
        &&& step.before == self.chains[step.account as int]
    }

    /// The state after an operation.
    pub open spec fn done(self, step: PrivateStep) -> SigningState {
        SigningState {
            nonces: self.nonces.update(step.account as int, (step.nonce + 1) as u64),
            chains: self.chains.update(
                step.account as int,
                balance_after(step.before, step.action),
            ),
        }
    }

    /// The state without an operation.
    pub open spec fn undone(self, step: PrivateStep) -> SigningState {
        SigningState {
            nonces: self.nonces.update(step.account as int, step.nonce),
            chains: self.chains.update(step.account as int, step.before),
        }
    }

    /// The state after some operations.
    pub open spec fn all_done(self, steps: Seq<PrivateStep>) -> SigningState
        decreases steps.len(),
    {
        if steps.len() == 0 {
            self
        } else {
            self.all_done(steps.drop_last()).done(steps.last())
        }
    }

    /// The state without some operations, the newest of which leaves first.
    pub open spec fn all_undone(self, steps: Seq<PrivateStep>) -> SigningState
        decreases steps.len(),
    {
        if steps.len() == 0 {
            self
        } else {
            self.undone(steps.last()).all_undone(steps.drop_last())
        }
    }

    /// Whether every operation was signed against the state that those before it leave.
    pub open spec fn all_fit(self, steps: Seq<PrivateStep>) -> bool
        decreases steps.len(),
    {
        steps.len() == 0 || (self.all_fit(steps.drop_last()) && self.all_done(
            steps.drop_last(),
        ).fits(steps.last()))
    }
}

/// Undoing operations that were signed one after the other restores the state that they were
/// signed against.
pub proof fn undoing_restores(state: SigningState, steps: Seq<PrivateStep>)
    requires
        state.all_fit(steps),
    ensures
        state.all_done(steps).all_undone(steps) == state,
    decreases steps.len(),
{
    if steps.len() > 0 {
        let before = state.all_done(steps.drop_last());
        assert(before.done(steps.last()).undone(steps.last()) =~= before);
        undoing_restores(state, steps.drop_last());
    }
}

/// Whether an operation is one that an account would take, with nonces to spare.
pub open spec fn step_sound(step: PrivateStep, accounts: nat, value: u64) -> bool {
    &&& step.account < accounts
    &&& action_of(step.before, value) == Some(step.action)
    &&& step.nonce + operations_left(step.before) <= u64::MAX
}

/// Every operation brings its account closer to being drained.
pub(crate) proof fn step_spends(step: PrivateStep, accounts: nat, value: u64)
    requires
        value > 0,
        step_sound(step, accounts, value),
    ensures
        operations_left(balance_after(step.before, step.action)) < operations_left(step.before),
        step.nonce < u64::MAX,
        step.nonce + 1 + operations_left(balance_after(step.before, step.action)) <= u64::MAX,
{
}

/// Operations that accounts would take leave a sound state.
pub proof fn sound_steps_keep_soundness(state: SigningState, steps: Seq<PrivateStep>, value: u64)
    requires
        value > 0,
        state.sound(),
        forall|i: int|
            0 <= i < steps.len() ==> step_sound(#[trigger] steps[i], state.nonces.len(), value),
    ensures
        state.all_done(steps).sound(),
        state.all_done(steps).nonces.len() == state.nonces.len(),
    decreases steps.len(),
{
    if steps.len() > 0 {
        let earlier = steps.drop_last();
        assert forall|i: int| 0 <= i < earlier.len() implies step_sound(
            #[trigger] earlier[i],
            state.nonces.len(),
            value,
        ) by {
            assert(earlier[i] == steps[i]);
        }
        sound_steps_keep_soundness(state, earlier, value);
        assert(steps.last() == steps[steps.len() - 1]);
        step_spends(steps.last(), state.nonces.len(), value);
    }
}

/// Metadata to roll a batch back with.
pub struct BatchMeta {
    /// Where the walk over the accounts started.
    pub pre_cursor: usize,
    /// What was signed, in order.
    pub steps: Vec<PrivateStep>,
}

impl BatchMeta {
    /// Whether every operation is one that an account would take.
    pub open spec fn sound(self, accounts: nat, value: u64) -> bool {
        &&& self.pre_cursor < accounts
        &&& forall|i: int|
            0 <= i < self.steps@.len() ==> step_sound(#[trigger] self.steps@[i], accounts, value)
    }

    /// Returns a copy.
    pub fn copy(&self) -> (copy: BatchMeta)
        ensures
            copy.pre_cursor == self.pre_cursor,
            copy.steps@ == self.steps@,
    {
        let mut steps: Vec<PrivateStep> = Vec::new();
        let mut i: usize = 0;
        while i < self.steps.len()
            invariant
                i <= self.steps@.len(),
                steps@ == self.steps@.take(i as int),
            decreases self.steps@.len() - i,
        {
            steps.push(self.steps[i]);
            proof {
                assert(self.steps@.take(i + 1) =~= self.steps@.take(i as int).push(
                    self.steps@[i as int],
                ));
            }
            i += 1;
        }
        proof {
            assert(self.steps@.take(i as int) =~= self.steps@);
        }
        BatchMeta { pre_cursor: self.pre_cursor, steps }
    }
}

/// The state of nonces and balances.
pub open spec fn state_of(nonces: Seq<u64>, chains: Seq<ChainBalance>) -> SigningState {
    SigningState { nonces, chains }
}

/// What a walk of `count` accounts from `cursor` signs: every account that is not drained takes its
/// next action.
pub open spec fn planned(state: SigningState, cursor: int, value: u64, count: nat) -> Seq<
    PrivateStep,
>
    decreases count,
{
    if count == 0 {
        Seq::empty()
    } else {
        let earlier = planned(state, cursor, value, (count - 1) as nat);
        let now = state.all_done(earlier);
        let account = crate::ring::position(cursor, count - 1, state.nonces.len() as int);
        match action_of(now.chains[account], value) {
            Some(action) => earlier.push(
                PrivateStep {
                    account: account as usize,
                    nonce: now.nonces[account],
                    before: now.chains[account],
                    action,
                },
            ),
            None => earlier,
        }
    }
}

/// Signs a batch: walks `count` accounts from `cursor`, and lets every account that is not drained
/// take its next action.
pub fn sign_batch_private(
    value: u64,
    nonces: &mut Vec<u64>,
    chains: &mut Vec<ChainBalance>,
    cursor: &mut usize,
    count: usize,
) -> (meta: BatchMeta)
    requires
        value > 0,
        state_of(old(nonces)@, old(chains)@).sound(),
        *old(cursor) < old(nonces)@.len(),
    ensures
        meta.pre_cursor == *old(cursor),
        meta.steps@ == planned(
            state_of(old(nonces)@, old(chains)@),
            *old(cursor) as int,
            value,
            count as nat,
        ),
        meta.sound(old(nonces)@.len(), value),
        state_of(old(nonces)@, old(chains)@).all_fit(meta.steps@),
        state_of(final(nonces)@, final(chains)@) == state_of(old(nonces)@, old(chains)@).all_done(
            meta.steps@,
        ),
        state_of(final(nonces)@, final(chains)@).sound(),
        final(nonces)@.len() == old(nonces)@.len(),
        *final(cursor) == crate::ring::position(
            *old(cursor) as int,
            count as int,
            old(nonces)@.len() as int,
        ),
{
    let ghost base = state_of(nonces@, chains@);
    let ghost start = *cursor as int;
    let pre_cursor: usize = *cursor;
    let accounts: usize = nonces.len();
    let mut steps: Vec<PrivateStep> = Vec::new();
    let mut i: usize = 0;
    proof {
        crate::ring::step(start, 0, accounts as int);
    }
    while i < count
        invariant
            i <= count,
            value > 0,
            accounts == base.nonces.len(),
            nonces@.len() == accounts,
            0 <= start < accounts,
            pre_cursor == start,
            *cursor == crate::ring::position(start, i as int, accounts as int),
            *cursor < accounts,
            steps@ == planned(base, start, value, i as nat),
            base.all_fit(steps@),
            state_of(nonces@, chains@) == base.all_done(steps@),
            state_of(nonces@, chains@).sound(),
            forall|k: int|
                0 <= k < steps@.len() ==> step_sound(
                    #[trigger] steps@[k],
                    accounts as nat,
                    value,
                ),
        decreases count - i,
    {
        let account: usize = *cursor;
        proof {
            crate::ring::step(start, i as int, accounts as int);
        }
        let before = chains[account];
        if let Some(action) = next_action(before, value) {
            let nonce: u64 = nonces[account];
            let step = PrivateStep { account, nonce, before, action };
            proof {
                assert(nonces@[account as int] + operations_left(chains@[account as int])
                    <= u64::MAX);
                step_spends(step, accounts as nat, value);
                assert(steps@.push(step).drop_last() =~= steps@);
            }
            let after = settle(before, action, Ghost(value));
            nonces.set(account, nonce + 1);
            chains.set(account, after);
            steps.push(step);
            proof {
                assert(state_of(nonces@, chains@) =~= base.all_done(steps@));
            }
        }
        *cursor = next_index(account, accounts);
        i += 1;
    }
    BatchMeta { pre_cursor, steps }
}

/// An empty batch over all accounts means that every account is drained, and drained accounts sign
/// nothing.
pub proof fn empty_batch_means_drained(state: SigningState, cursor: int, value: u64, count: nat)
    requires
        state.nonces.len() > 0,
        state.chains.len() == state.nonces.len(),
        0 <= cursor < state.nonces.len(),
        count >= state.nonces.len(),
    ensures
        planned(state, cursor, value, count).len() == 0 <==> forall|a: int|
            0 <= a < state.nonces.len() ==> action_of(#[trigger] state.chains[a], value) is None,
{
    let size = state.nonces.len() as int;
    if planned(state, cursor, value, count).len() == 0 {
        assert forall|a: int| 0 <= a < size implies action_of(
            #[trigger] state.chains[a],
            value,
        ) is None by {
            let at = crate::ring::distance(cursor, a, size);
            planned_grows(state, cursor, value, (at + 1) as nat, count);
            planned_grows(state, cursor, value, at as nat, count);
            let wraps = if a >= cursor {
                0int
            } else {
                1int
            };
            assert(wraps * size + a == cursor + at);
            vstd::arithmetic::div_mod::lemma_fundamental_div_mod_converse(
                cursor + at,
                size,
                wraps,
                a,
            );
            assert(planned(state, cursor, value, at as nat) =~= Seq::<PrivateStep>::empty());
        }
    }
    if forall|a: int|
        0 <= a < state.nonces.len() ==> action_of(#[trigger] state.chains[a], value) is None {
        drained_sign_nothing(state, cursor, value, count);
    }
}

proof fn planned_grows(state: SigningState, cursor: int, value: u64, fewer: nat, more: nat)
    requires
        fewer <= more,
    ensures
        planned(state, cursor, value, fewer).len() <= planned(state, cursor, value, more).len(),
    decreases more,
{
    if fewer < more {
        planned_grows(state, cursor, value, fewer, (more - 1) as nat);
    }
}

proof fn drained_sign_nothing(state: SigningState, cursor: int, value: u64, count: nat)
    requires
        state.nonces.len() > 0,
        0 <= cursor < state.nonces.len(),
        forall|a: int|
            0 <= a < state.nonces.len() ==> action_of(#[trigger] state.chains[a], value) is None,
    ensures
        planned(state, cursor, value, count).len() == 0,
    decreases count,
{
    if count > 0 {
        drained_sign_nothing(state, cursor, value, (count - 1) as nat);
        crate::ring::step(cursor, count - 1, state.nonces.len() as int);
        assert(planned(state, cursor, value, (count - 1) as nat) =~= Seq::<PrivateStep>::empty());
    }
}

/// Rolls a batch back: its operations leave, the newest first.
pub fn unwind_batch(meta: &BatchMeta, nonces: &mut Vec<u64>, chains: &mut Vec<ChainBalance>)
    requires
        old(nonces)@.len() == old(chains)@.len(),
        forall|i: int|
            0 <= i < meta.steps@.len() ==> (#[trigger] meta.steps@[i]).account < old(nonces)@.len(),
    ensures
        state_of(final(nonces)@, final(chains)@) == state_of(old(nonces)@, old(chains)@).all_undone(
            meta.steps@,
        ),
        final(nonces)@.len() == old(nonces)@.len(),
        final(chains)@.len() == old(chains)@.len(),
{
    let ghost base = state_of(nonces@, chains@);
    let ghost all = meta.steps@;
    let mut i: usize = meta.steps.len();
    proof {
        assert(all.take(i as int) =~= all);
    }
    while i > 0
        invariant
            i <= all.len(),
            all == meta.steps@,
            nonces@.len() == base.nonces.len(),
            chains@.len() == base.nonces.len(),
            forall|k: int|
                0 <= k < all.len() ==> (#[trigger] all[k]).account < base.nonces.len(),
            base.all_undone(all) == state_of(nonces@, chains@).all_undone(all.take(i as int)),
        decreases i,
    {
        i = i - 1;
        let step = meta.steps[i];
        proof {
            assert(all.take(i + 1).drop_last() =~= all.take(i as int));
            assert(all.take(i + 1).last() == all[i as int]);
        }
        let ghost now = state_of(nonces@, chains@);
        nonces.set(step.account, step.nonce);
        chains.set(step.account, step.before);
        proof {
            assert(state_of(nonces@, chains@) =~= now.undone(step));
        }
    }
    proof {
        assert(all.take(0) =~= Seq::<PrivateStep>::empty());
    }
}

/// The state after the landed ones of some operations; positions beyond the last are ignored.
pub open spec fn landed_done(
    state: SigningState,
    steps: Seq<PrivateStep>,
    landed: Seq<usize>,
) -> SigningState
    decreases landed.len(),
{
    if landed.len() == 0 {
        state
    } else {
        let earlier = landed_done(state, steps, landed.drop_last());
        if landed.last() < steps.len() {
            earlier.done(steps[landed.last() as int])
        } else {
            earlier
        }
    }
}

/// A landed operation survives: its account goes on from where the last landed one left it.
pub proof fn landed_operations_survive(
    state: SigningState,
    steps: Seq<PrivateStep>,
    landed: Seq<usize>,
    at: int,
)
    requires
        0 <= at < landed.len(),
        landed[at] < steps.len(),
        state.nonces.len() == state.chains.len(),
        forall|i: int|
            0 <= i < steps.len() ==> (#[trigger] steps[i]).account < state.nonces.len(),
        steps[landed[at] as int].nonce < u64::MAX,
        forall|later: int|
            at < later < landed.len() && (#[trigger] landed[later]) < steps.len()
                ==> steps[landed[later] as int].account != steps[landed[at] as int].account,
    ensures
        ({
            let step = steps[landed[at] as int];
            let after = landed_done(state, steps, landed);
            &&& after.nonces[step.account as int] == step.nonce + 1
            &&& after.chains[step.account as int] == balance_after(step.before, step.action)
        }),
    decreases landed.len(),
{
    landing_keeps_accounts(state, steps, landed.drop_last());
    if at < landed.len() - 1 {
        assert(landed.drop_last()[at] == landed[at]);
        assert(forall|later: int|
            at < later < landed.drop_last().len() ==> landed.drop_last()[later] == landed[later]);
        landed_operations_survive(state, steps, landed.drop_last(), at);
        assert(landed.last() == landed[landed.len() - 1]);
    }
}

/// An account none of whose operations landed keeps its nonce and its balances.
pub proof fn others_are_left_alone(
    state: SigningState,
    steps: Seq<PrivateStep>,
    landed: Seq<usize>,
    account: int,
)
    requires
        0 <= account < state.nonces.len(),
        state.nonces.len() == state.chains.len(),
        forall|i: int|
            0 <= i < steps.len() ==> (#[trigger] steps[i]).account < state.nonces.len(),
        forall|i: int|
            0 <= i < landed.len() && (#[trigger] landed[i]) < steps.len()
                ==> steps[landed[i] as int].account != account,
    ensures
        landed_done(state, steps, landed).nonces[account] == state.nonces[account],
        landed_done(state, steps, landed).chains[account] == state.chains[account],
    decreases landed.len(),
{
    if landed.len() > 0 {
        assert(forall|i: int|
            0 <= i < landed.drop_last().len() ==> landed.drop_last()[i] == landed[i]);
        others_are_left_alone(state, steps, landed.drop_last(), account);
        landing_keeps_accounts(state, steps, landed.drop_last());
        assert(landed.last() == landed[landed.len() - 1]);
    }
}

/// Landed operations add no account and take none away.
proof fn landing_keeps_accounts(state: SigningState, steps: Seq<PrivateStep>, landed: Seq<usize>)
    requires
        state.nonces.len() == state.chains.len(),
        forall|i: int|
            0 <= i < steps.len() ==> (#[trigger] steps[i]).account < state.nonces.len(),
    ensures
        landed_done(state, steps, landed).nonces.len() == state.nonces.len(),
        landed_done(state, steps, landed).chains.len() == state.chains.len(),
    decreases landed.len(),
{
    if landed.len() > 0 {
        landing_keeps_accounts(state, steps, landed.drop_last());
    }
}

/// Applies the confirmed operations of a batch again.
pub(crate) fn replay_landed(
    meta: &BatchMeta,
    landed: &Vec<usize>,
    nonces: &mut Vec<u64>,
    chains: &mut Vec<ChainBalance>,
    Ghost(value): Ghost<u64>,
)
    requires
        value > 0,
        state_of(old(nonces)@, old(chains)@).sound(),
        meta.sound(old(nonces)@.len(), value),
    ensures
        state_of(final(nonces)@, final(chains)@) == landed_done(
            state_of(old(nonces)@, old(chains)@),
            meta.steps@,
            landed@,
        ),
        state_of(final(nonces)@, final(chains)@).sound(),
        final(nonces)@.len() == old(nonces)@.len(),
{
    let ghost base = state_of(nonces@, chains@);
    let mut i: usize = 0;
    proof {
        assert(landed@.take(0) =~= Seq::<usize>::empty());
    }
    while i < landed.len()
        invariant
            i <= landed@.len(),
            value > 0,
            nonces@.len() == base.nonces.len(),
            meta.sound(nonces@.len(), value),
            state_of(nonces@, chains@).sound(),
            state_of(nonces@, chains@) == landed_done(base, meta.steps@, landed@.take(i as int)),
        decreases landed@.len() - i,
    {
        let at: usize = landed[i];
        proof {
            assert(landed@.take(i + 1).drop_last() =~= landed@.take(i as int));
            assert(landed@.take(i + 1).last() == at);
        }
        if at < meta.steps.len() {
            let step = meta.steps[at];
            let ghost now = state_of(nonces@, chains@);
            proof {
                step_spends(step, nonces@.len(), value);
            }
            let after = settle(step.before, step.action, Ghost(value));
            nonces.set(step.account, step.nonce + 1);
            chains.set(step.account, after);
            proof {
                assert(state_of(nonces@, chains@) =~= now.done(step));
            }
        }
        i += 1;
    }
    proof {
        assert(landed@.take(i as int) =~= landed@);
    }
}

/// What [`next_action`] lets an account do. An account whose commitment covers the value pays it,
/// which leaves its public balance alone. Otherwise it moves its whole public balance under the
/// commitment, and owns as much as before. It rests only with nothing public and too little under
/// the commitment.
pub proof fn actions_conserve(balance: ChainBalance, value: u64, action: Option<PrivateAction>)
    requires
        call_ensures(next_action, (balance, value), action),
        balance.public + balance.private <= u64::MAX,
        value > 0,
    ensures
        action is None <==> balance.public == 0 && balance.private < value,
        balance.private >= value <==> (action matches Some(PrivateAction::Transfer { .. })),
        action matches Some(taken) ==> {
            let after = balance_after(balance, taken);
            match taken {
                PrivateAction::Transfer { value: paid } => {
                    &&& paid == value
                    &&& after.public == balance.public
                    &&& after.private + value == balance.private
                },
                PrivateAction::Fund { value: moved } => {
                    &&& moved == balance.public
                    &&& after.public == 0
                    &&& after.private == balance.public + balance.private
                },
            }
        },
{
}

/// The operations of an account.
pub open spec fn operations_of(steps: Seq<PrivateStep>, account: int) -> nat
    decreases steps.len(),
{
    if steps.len() == 0 {
        0
    } else {
        operations_of(steps.drop_last(), account) + (if steps.last().account == account {
            1nat
        } else {
            0nat
        })
    }
}

/// Operations that were signed one after the other use up one nonce each: an account's next nonce is
/// as many further on as it has operations, and an account without any is left alone.
pub proof fn operations_use_up_nonces(state: SigningState, steps: Seq<PrivateStep>, account: int)
    requires
        state.all_fit(steps),
        state.nonces.len() == state.chains.len(),
        0 <= account < state.nonces.len(),
        forall|i: int| 0 <= i < steps.len() ==> (#[trigger] steps[i]).nonce < u64::MAX,
    ensures
        state.all_done(steps).nonces.len() == state.nonces.len(),
        state.all_done(steps).chains.len() == state.chains.len(),
        state.all_done(steps).nonces[account] == state.nonces[account] + operations_of(
            steps,
            account,
        ),
        operations_of(steps, account) == 0 ==> state.all_done(steps).chains[account]
            == state.chains[account],
    decreases steps.len(),
{
    if steps.len() > 0 {
        let front = steps.drop_last();
        assert forall|i: int| 0 <= i < front.len() implies (#[trigger] front[i]).nonce < u64::MAX by {
            assert(front[i] == steps[i]);
        }
        operations_use_up_nonces(state, front, account);
        assert(steps[steps.len() - 1] == steps.last());
    }
}

proof fn strangers_leave_alone(state: SigningState, steps: Seq<PrivateStep>, account: int)
    requires
        0 <= account < state.nonces.len(),
        state.nonces.len() == state.chains.len(),
        forall|i: int|
            0 <= i < steps.len() ==> (#[trigger] steps[i]).account != account && steps[i].account
                < state.nonces.len(),
    ensures
        state.all_done(steps).nonces.len() == state.nonces.len(),
        state.all_done(steps).chains.len() == state.chains.len(),
        state.all_done(steps).nonces[account] == state.nonces[account],
        state.all_done(steps).chains[account] == state.chains[account],
    decreases steps.len(),
{
    if steps.len() > 0 {
        let front = steps.drop_last();
        assert forall|i: int| 0 <= i < front.len() implies (#[trigger] front[i]).account != account
            && front[i].account < state.nonces.len() by {
            assert(front[i] == steps[i]);
        }
        strangers_leave_alone(state, front, account);
        assert(steps[steps.len() - 1] == steps.last());
    }
}

proof fn positions_differ(cursor: int, left: int, right: int, size: int)
    requires
        0 <= cursor < size,
        0 <= left < right < size,
    ensures
        crate::ring::position(cursor, left, size) != crate::ring::position(cursor, right, size),
{
    let first = (cursor + left) % size;
    let second = (cursor + right) % size;
    vstd::arithmetic::div_mod::lemma_fundamental_div_mod(cursor + left, size);
    vstd::arithmetic::div_mod::lemma_fundamental_div_mod(cursor + right, size);
    let gap = (cursor + right) / size - (cursor + left) / size;
    if first == second {
        assert(size * gap == right - left) by (nonlinear_arith)
            requires
                cursor + left == size * ((cursor + left) / size) + first,
                cursor + right == size * ((cursor + right) / size) + second,
                first == second,
                gap == (cursor + right) / size - (cursor + left) / size,
        ;
        assert(false) by (nonlinear_arith)
            requires
                0 < size * gap < size,
                size > 0,
        ;
    }
}

/// A walk that does not come round twice gives every account on its way one turn, in ring order and
/// against what the account started with: an account that is not drained signs its next action at
/// its next nonce.
pub proof fn walk_gives_everyone_one_turn(
    state: SigningState,
    cursor: int,
    value: u64,
    count: nat,
    offset: int,
)
    requires
        state.nonces.len() == state.chains.len(),
        state.nonces.len() <= usize::MAX,
        0 <= cursor < state.nonces.len(),
        count <= state.nonces.len(),
    ensures
        planned(state, cursor, value, count).len() <= count,
        forall|i: int|
            0 <= i < planned(state, cursor, value, count).len() ==> exists|at: int|
                0 <= at < count && (#[trigger] planned(state, cursor, value, count)[i]).account
                    == #[trigger] crate::ring::position(cursor, at, state.nonces.len() as int),
        0 <= offset < count ==> {
            let account = (cursor + offset) % state.nonces.len() as int;
            match action_of(state.chains[account], value) {
                Some(action) => planned(state, cursor, value, count).contains(
                    PrivateStep {
                        account: account as usize,
                        nonce: state.nonces[account],
                        before: state.chains[account],
                        action,
                    },
                ),
                None => forall|i: int|
                    0 <= i < planned(state, cursor, value, count).len() ==> (#[trigger] planned(
                        state,
                        cursor,
                        value,
                        count,
                    )[i]).account != account,
            }
        },
    decreases count,
{
    let size = state.nonces.len() as int;
    let all = planned(state, cursor, value, count);
    if count > 0 {
        let less = (count - 1) as nat;
        let earlier = planned(state, cursor, value, less);
        let last = crate::ring::position(cursor, less as int, size);
        vstd::arithmetic::div_mod::lemma_mod_bound(cursor + less, size);
        walk_gives_everyone_one_turn(state, cursor, value, less, offset);
        assert forall|i: int| 0 <= i < earlier.len() implies (#[trigger] earlier[i]).account != last
            && earlier[i].account < size by {
            let at = choose|at: int|
                0 <= at < less && earlier[i].account == #[trigger] crate::ring::position(
                    cursor,
                    at,
                    size,
                );
            positions_differ(cursor, at, less as int, size);
            vstd::arithmetic::div_mod::lemma_mod_bound(cursor + at, size);
        }
        strangers_leave_alone(state, earlier, last);
        let own = PrivateStep {
            account: last as usize,
            nonce: state.nonces[last],
            before: state.chains[last],
            action: action_of(state.chains[last], value).unwrap(),
        };
        assert(all == if action_of(state.chains[last], value) is Some {
            earlier.push(own)
        } else {
            earlier
        });
        assert forall|i: int| 0 <= i < all.len() implies exists|at: int|
            0 <= at < count && (#[trigger] all[i]).account == #[trigger] crate::ring::position(
                cursor,
                at,
                size,
            ) by {
            if i < earlier.len() {
                assert(all[i] == earlier[i]);
                let at = choose|at: int|
                    0 <= at < less && earlier[i].account == #[trigger] crate::ring::position(
                        cursor,
                        at,
                        size,
                    );
                assert(all[i].account == crate::ring::position(cursor, at, size));
            } else {
                assert(all[i].account == crate::ring::position(cursor, less as int, size));
            }
        }
        if 0 <= offset < count {
            let account = (cursor + offset) % size;
            assert(account == crate::ring::position(cursor, offset, size));
            if offset < less {
                positions_differ(cursor, offset, less as int, size);
                match action_of(state.chains[account], value) {
                    Some(action) => {
                        let step = PrivateStep {
                            account: account as usize,
                            nonce: state.nonces[account],
                            before: state.chains[account],
                            action,
                        };
                        let at = choose|at: int| 0 <= at < earlier.len() && earlier[at] == step;
                        assert(all[at] == step);
                    },
                    None => {
                        assert forall|i: int| 0 <= i < all.len() implies (#[trigger] all[i]).account
                            != account by {
                            if i < earlier.len() {
                                assert(all[i] == earlier[i]);
                            }
                        }
                    },
                }
            } else {
                if action_of(state.chains[account], value) is Some {
                    assert(all[earlier.len() as int] == own);
                }
            }
        }
    }
}

/// Rolling a batch back right after it was signed restores every nonce and every balance.
pub proof fn unwinding_takes_signing_back(
    value: u64,
    nonces: &mut Vec<u64>,
    chains: &mut Vec<ChainBalance>,
    cursor: &mut usize,
    count: usize,
    meta: BatchMeta,
    nonces_later: &mut Vec<u64>,
    chains_later: &mut Vec<ChainBalance>,
)
    requires
        value > 0,
        state_of(old(nonces)@, old(chains)@).sound(),
        call_ensures(sign_batch_private, (value, nonces, chains, cursor, count), meta),
        old(nonces_later)@ == final(nonces)@,
        old(chains_later)@ == final(chains)@,
        call_ensures(unwind_batch, (&meta, nonces_later, chains_later), ()),
    ensures
        final(nonces_later)@ == old(nonces)@,
        final(chains_later)@ == old(chains)@,
        meta.pre_cursor == *old(cursor),
{
    let before = state_of(old(nonces)@, old(chains)@);
    undoing_restores(before, meta.steps@);
    assert(state_of(final(nonces_later)@, final(chains_later)@) == before);
}

/// A batch over no more accounts than there are gives every account on the way one turn: it is
/// signed at the account's nonce, which moves on by one, and an account beyond the way, or a drained
/// one, is left alone.
pub proof fn signing_moves_nonces_on(
    value: u64,
    nonces: &mut Vec<u64>,
    chains: &mut Vec<ChainBalance>,
    cursor: &mut usize,
    count: usize,
    meta: BatchMeta,
    account: int,
)
    requires
        value > 0,
        state_of(old(nonces)@, old(chains)@).sound(),
        *old(cursor) < old(nonces)@.len(),
        call_ensures(sign_batch_private, (value, nonces, chains, cursor, count), meta),
        0 <= account < old(nonces)@.len(),
    ensures
        final(nonces)@.len() == old(nonces)@.len(),
        final(nonces)@[account] == old(nonces)@[account] + operations_of(meta.steps@, account),
        operations_of(meta.steps@, account) == 0 ==> final(chains)@[account]
            == old(chains)@[account],
        (*final(cursor) - *old(cursor) - count) % old(nonces)@.len() as int == 0,
        *final(cursor) < old(nonces)@.len(),
{
    let before = state_of(old(nonces)@, old(chains)@);
    let after = state_of(final(nonces)@, final(chains)@);
    assert forall|i: int| 0 <= i < meta.steps@.len() implies (#[trigger] meta.steps@[i]).nonce
        < u64::MAX by {
        step_spends(meta.steps@[i], old(nonces)@.len(), value);
    }
    operations_use_up_nonces(before, meta.steps@, account);
    assert(after == before.all_done(meta.steps@));
    let size = old(nonces)@.len() as int;
    let start = *old(cursor) as int;
    let end = *final(cursor) as int;
    let sum = start + count;
    vstd::arithmetic::div_mod::lemma_mod_bound(sum, size);
    vstd::arithmetic::div_mod::lemma_fundamental_div_mod(sum, size);
    let rounds = sum / size;
    let turns = -rounds;
    assert(end - start - count == turns * size) by (nonlinear_arith)
        requires
            sum == start + count,
            sum == size * rounds + end,
            turns == -rounds,
    ;
    vstd::arithmetic::div_mod::lemma_mod_multiples_basic(turns, size);
}

/// What a walk signs was signed one after the other, against the state that it started from.
pub proof fn planned_steps_fit(state: SigningState, cursor: int, value: u64, count: nat)
    requires
        state.nonces.len() == state.chains.len(),
        state.nonces.len() <= usize::MAX,
        0 <= cursor < state.nonces.len(),
    ensures
        state.all_fit(planned(state, cursor, value, count)),
        state.all_done(planned(state, cursor, value, count)).nonces.len() == state.nonces.len(),
        state.all_done(planned(state, cursor, value, count)).chains.len() == state.chains.len(),
    decreases count,
{
    if count > 0 {
        let less = (count - 1) as nat;
        let earlier = planned(state, cursor, value, less);
        let all = planned(state, cursor, value, count);
        planned_steps_fit(state, cursor, value, less);
        vstd::arithmetic::div_mod::lemma_mod_bound(cursor + less, state.nonces.len() as int);
        if all.len() > earlier.len() {
            assert(all.drop_last() =~= earlier);
        }
    }
}

/// What a call of [`sign_batch_private`] over no more accounts than there are signs: the account at each
/// step of the way signs its next action, at its own nonce and against its own balances, unless it is
/// drained.
pub proof fn accounts_on_the_way_sign(
    value: u64,
    nonces: &mut Vec<u64>,
    chains: &mut Vec<ChainBalance>,
    cursor: &mut usize,
    count: usize,
    meta: BatchMeta,
    offset: int,
    action: Option<PrivateAction>,
)
    requires
        value > 0,
        state_of(old(nonces)@, old(chains)@).sound(),
        *old(cursor) < old(nonces)@.len(),
        count <= old(nonces)@.len(),
        call_ensures(sign_batch_private, (value, nonces, chains, cursor, count), meta),
        0 <= offset < count,
        ({
            let account = (*old(cursor) + offset) % old(nonces)@.len() as int;
            call_ensures(next_action, (old(chains)@[account], value), action)
        }),
    ensures
        ({
            let account = (*old(cursor) + offset) % old(nonces)@.len() as int;
            &&& meta.steps@.len() <= count
            &&& action matches Some(action) ==> meta.steps@.contains(
                PrivateStep {
                    account: account as usize,
                    nonce: old(nonces)@[account],
                    before: old(chains)@[account],
                    action,
                },
            )
            &&& action is None ==> forall|i: int|
                0 <= i < meta.steps@.len() ==> (#[trigger] meta.steps@[i]).account != account
        }),
{
    assert(old(nonces).len() == old(nonces)@.len());
    let state = state_of(old(nonces)@, old(chains)@);
    walk_gives_everyone_one_turn(state, *old(cursor) as int, value, count as nat, offset);
}

} // verus!

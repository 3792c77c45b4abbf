//! Presigning: batches are signed ahead of their submission, and a failed batch is rolled back and
//! signed again from the last confirmed state.

use crate::spammer::chains::{
    replay_landed, sign_batch_private, unwind_batch, BatchMeta, ChainBalance, PrivateStep,
};
use crate::spammer::signer::{sign_batch, Transfer};
use crate::spammer::submitter::SubmitOutcome;
use vstd::prelude::*;

verus! {

/// The operations of a batch.
pub enum SignedBatch {
    /// Transfers along the ring.
    Public(Vec<Transfer>),
    /// Operations on commitments.
    Private(BatchMeta),
}

/// A batch on its way to the submitter.
pub struct Envelope {
    /// Number of the batch.
    pub seq: u64,
    /// The signing pass that the batch belongs to; it salts the signed bytes.
    pub epoch: u64,
    /// What was signed.
    pub batch: SignedBatch,
}

impl Envelope {
    /// Returns the salt of the batch: its signing pass, so that a batch that is signed again never has
    /// the bytes of the failed one.
    pub fn salt(&self) -> (salt: u64)
        ensures
            salt == self.epoch,
    {
        self.epoch
    }
}

/// What became of a batch.
pub enum Feedback {
    /// The batch, and with it every earlier one, is confirmed.
    Resolved { seq: u64 },
    /// The batch failed, except for the operations at these positions.
    Failed { seq: u64, landed: Vec<usize> },
}

/// What the presigner does next.
pub enum PresignerStep {
    /// Hands a batch to the submitter.
    Send(Envelope),
    /// Waits for the outcome of an earlier batch.
    AwaitFeedback,
    /// Ends: every account is drained and every batch is confirmed.
    Exit,
}

/// A signed batch that is not confirmed yet.
pub struct Inflight {
    /// Number of the batch.
    pub seq: u64,
    /// Metadata to roll it back with.
    pub meta: BatchMeta,
}

/// The state after some batches.
pub open spec fn batches_done(
    state: crate::spammer::chains::SigningState,
    batches: Seq<Inflight>,
) -> crate::spammer::chains::SigningState
    decreases batches.len(),
{
    if batches.len() == 0 {
        state
    } else {
        batches_done(state, batches.drop_last()).all_done(batches.last().meta.steps@)
    }
}

/// The state without some batches, the newest of which leaves first.
pub open spec fn batches_undone(
    state: crate::spammer::chains::SigningState,
    batches: Seq<Inflight>,
) -> crate::spammer::chains::SigningState
    decreases batches.len(),
{
    if batches.len() == 0 {
        state
    } else {
        batches_undone(state.all_undone(batches.last().meta.steps@), batches.drop_last())
    }
}

/// Whether every batch was signed against the state that those before it leave.
pub open spec fn batches_fit(
    state: crate::spammer::chains::SigningState,
    batches: Seq<Inflight>,
) -> bool
    decreases batches.len(),
{
    batches.len() == 0 || (batches_fit(state, batches.drop_last()) && batches_done(
        state,
        batches.drop_last(),
    ).all_fit(batches.last().meta.steps@))
}

/// Undoing the batches from `from` on restores the state that the batch at `from` was signed
/// against: that after the earlier ones.
pub proof fn rollback_restores(
    base: crate::spammer::chains::SigningState,
    batches: Seq<Inflight>,
    from: int,
)
    requires
        batches_fit(base, batches),
        0 <= from <= batches.len(),
    ensures
        batches_undone(batches_done(base, batches), batches.skip(from)) == batches_done(
            base,
            batches.take(from),
        ),
    decreases batches.len(),
{
    if from == batches.len() {
        assert(batches.skip(from) =~= Seq::<Inflight>::empty());
        assert(batches.take(from) =~= batches);
    } else {
        let earlier = batches.drop_last();
        crate::spammer::chains::undoing_restores(
            batches_done(base, earlier),
            batches.last().meta.steps@,
        );
        rollback_restores(base, earlier, from);
        assert(batches.skip(from).drop_last() =~= earlier.skip(from));
        assert(batches.skip(from).last() == batches.last());
        assert(batches.take(from) =~= earlier.take(from));
    }
}

/// Confirming the first batch moves the confirmed state past it.
proof fn first_batch_leaves(base: crate::spammer::chains::SigningState, batches: Seq<Inflight>)
    requires
        batches_fit(base, batches),
        batches.len() > 0,
    ensures
        batches_fit(base.all_done(batches[0].meta.steps@), batches.skip(1)),
        batches_done(base.all_done(batches[0].meta.steps@), batches.skip(1)) == batches_done(
            base,
            batches,
        ),
    decreases batches.len(),
{
    let next = base.all_done(batches[0].meta.steps@);
    if batches.len() == 1 {
        assert(batches.skip(1) =~= Seq::<Inflight>::empty());
        assert(batches.drop_last() =~= Seq::<Inflight>::empty());
        assert(batches_done(base, batches.drop_last()) == base);
    } else {
        first_batch_leaves(base, batches.drop_last());
        assert(batches.drop_last().skip(1) =~= batches.skip(1).drop_last());
        assert(batches.skip(1).last() == batches.last());
    }
}

/// How many batches at the front are numbered at most `seq`.
pub open spec fn resolved_prefix(batches: Seq<Inflight>, seq: u64) -> int
    decreases batches.len(),
{
    if batches.len() == 0 || batches[0].seq > seq {
        0
    } else {
        1 + resolved_prefix(batches.skip(1), seq)
    }
}

/// The position of the newest batch numbered `seq`.
pub open spec fn failed_at(batches: Seq<Inflight>, seq: u64) -> Option<int>
    decreases batches.len(),
{
    if batches.len() == 0 {
        None
    } else if batches.last().seq == seq {
        Some(batches.len() - 1)
    } else {
        failed_at(batches.drop_last(), seq)
    }
}

/// Whether batches are numbered in ascending order, below the next number.
pub open spec fn numbered(batches: Seq<Inflight>, next: u64) -> bool {
    &&& forall|i: int| 0 <= i < batches.len() ==> (#[trigger] batches[i]).seq < next
    &&& forall|i: int, j: int|
        0 <= i < j < batches.len() ==> (#[trigger] batches[i]).seq < (#[trigger] batches[j]).seq
}

/// A confirmed number takes exactly the batches up to it: none that stays has a number at most
/// `seq`, and none that leaves has a higher one.
pub proof fn confirmation_takes_earlier_batches(batches: Seq<Inflight>, next: u64, seq: u64)
    requires
        numbered(batches, next),
    ensures
        0 <= resolved_prefix(batches, seq) <= batches.len(),
        forall|i: int|
            0 <= i < batches.len() ==> ((#[trigger] batches[i]).seq <= seq <==> i
                < resolved_prefix(batches, seq)),
    decreases batches.len(),
{
    if batches.len() > 0 && batches[0].seq <= seq {
        let rest = batches.skip(1);
        assert(numbered(rest, next)) by {
            assert forall|i: int, j: int| 0 <= i < j < rest.len() implies (#[trigger] rest[i]).seq < (
            #[trigger] rest[j]).seq by {
                assert(rest[i] == batches[i + 1]);
                assert(rest[j] == batches[j + 1]);
            }
        }
        confirmation_takes_earlier_batches(rest, next, seq);
        assert forall|i: int| 0 <= i < batches.len() implies ((#[trigger] batches[i]).seq <= seq
            <==> i < resolved_prefix(batches, seq)) by {
            if i > 0 {
                assert(rest[i - 1] == batches[i]);
            }
        }
    }
}

/// A failed number names the one batch that has it, if there is one.
pub proof fn failure_names_one_batch(batches: Seq<Inflight>, next: u64, seq: u64, at: int)
    requires
        numbered(batches, next),
        0 <= at < batches.len(),
    ensures
        failed_at(batches, seq) == Some(at) <==> batches[at].seq == seq,
    decreases batches.len(),
{
    let front = batches.drop_last();
    if batches.last().seq != seq {
        assert(numbered(front, next));
        if at < front.len() {
            failure_names_one_batch(front, next, seq, at);
        } else {
            failure_is_listed(front, seq);
        }
    }
}

/// A failed number is found only at a position of the list.
proof fn failure_is_listed(batches: Seq<Inflight>, seq: u64)
    ensures
        failed_at(batches, seq) matches Some(at) ==> 0 <= at < batches.len() && batches[at].seq
            == seq,
    decreases batches.len(),
{
    if batches.len() > 0 && batches.last().seq != seq {
        failure_is_listed(batches.drop_last(), seq);
    }
}

/// Signs batches ahead of their submission.
pub struct Presigner {
    /// Amount of every transfer.
    pub value: u64,
    /// Next nonce of every account.
    pub nonces: Vec<u64>,
    /// What every account holds.
    pub chains: Vec<ChainBalance>,
    /// Where the next batch starts.
    pub cursor: usize,
    /// Number of the next batch.
    pub seq: u64,
    /// The signing pass.
    pub epoch: u64,
    /// Signed batches that are not confirmed yet, oldest first.
    pub inflight: Vec<Inflight>,
}

impl Presigner {
    /// The nonces and balances that the next batch is signed against.
    pub open spec fn state(self) -> crate::spammer::chains::SigningState {
        crate::spammer::chains::state_of(self.nonces@, self.chains@)
    }

    /// Whether the state is that of the unconfirmed batches on top of the confirmed state `base`.
    pub open spec fn rests_on(self, base: crate::spammer::chains::SigningState) -> bool {
        batches_fit(base, self.inflight@) && batches_done(base, self.inflight@) == self.state()
    }

    /// Whether the accounts are sound, and every unconfirmed batch has its own number and can be
    /// rolled back to a confirmed state.
    pub open spec fn well_formed(self) -> bool {
        &&& self.value > 0
        &&& self.state().sound()
        &&& self.cursor < self.nonces@.len()
        &&& numbered(self.inflight@, self.seq)
        &&& forall|i: int|
            0 <= i < self.inflight@.len() ==> (#[trigger] self.inflight@[i]).meta.sound(
                self.nonces@.len(),
                self.value,
            )
        &&& exists|base: crate::spammer::chains::SigningState| #[trigger]
            self.rests_on(base) && base.sound() && base.nonces.len() == self.nonces@.len()
    }

    /// Starts from nonce zero with every balance public.
    pub fn new(accounts: usize, starting_balance: u64, value: u64) -> (presigner: Self)
        requires
            accounts > 0,
            value > 0,
            starting_balance < u64::MAX,
        ensures
            presigner.well_formed(),
            presigner.value == value,
            presigner.nonces@ == Seq::new(accounts as nat, |i: int| 0u64),
            presigner.chains@ == Seq::new(
                accounts as nat,
                |i: int| ChainBalance { public: starting_balance, private: 0 },
            ),
            presigner.cursor == 0,
            presigner.seq == 0,
            presigner.epoch == 0,
            presigner.inflight@.len() == 0,
    {
        let mut nonces: Vec<u64> = Vec::new();
        let mut chains: Vec<ChainBalance> = Vec::new();
        let mut i: usize = 0;
        while i < accounts
            invariant
                i <= accounts,
                nonces@ == Seq::new(i as nat, |k: int| 0u64),
                chains@ == Seq::new(
                    i as nat,
                    |k: int| ChainBalance { public: starting_balance, private: 0 },
                ),
            decreases accounts - i,
        {
            nonces.push(0);
            chains.push(ChainBalance { public: starting_balance, private: 0 });
            proof {
                assert(nonces@ =~= Seq::new((i + 1) as nat, |k: int| 0u64));
                assert(chains@ =~= Seq::new(
                    (i + 1) as nat,
                    |k: int| ChainBalance { public: starting_balance, private: 0 },
                ));
            }
            i += 1;
        }
        let presigner = Presigner {
            value,
            nonces,
            chains,
            cursor: 0,
            seq: 0,
            epoch: 0,
            inflight: Vec::new(),
        };
        proof {
            assert(presigner.rests_on(presigner.state()));
        }
        presigner
    }

    /// Signs the next batch of public transfers.
    pub fn next_public(&mut self, count: usize) -> (envelope: Envelope)
        requires
            old(self).nonces@.len() > 0,
            old(self).cursor < old(self).nonces@.len(),
            count > 0,
            crate::spammer::signer::nonces_fit(
                old(self).nonces@,
                old(self).cursor as int,
                count as int,
            ),
            old(self).seq < u64::MAX,
        ensures
            envelope.seq == old(self).seq,
            envelope.epoch == old(self).epoch,
            envelope.batch matches SignedBatch::Public(batch) && batch@
                == crate::spammer::signer::batch_transfers(
                old(self).nonces@,
                old(self).cursor as int,
                old(self).value,
                count as nat,
            ),
            final(self).nonces@ == crate::spammer::signer::nonces_after(
                old(self).nonces@,
                old(self).cursor as int,
                count as int,
            ),
            final(self).cursor == crate::ring::position(
                old(self).cursor as int,
                count as int,
                old(self).nonces@.len() as int,
            ),
            final(self).cursor < final(self).nonces@.len(),
            *final(self) == (Presigner {
                nonces: final(self).nonces,
                cursor: final(self).cursor,
                seq: (old(self).seq + 1) as u64,
                ..*old(self)
            }),
    {
        let accounts: usize = self.nonces.len();
        proof {
            crate::ring::step(self.cursor as int, count as int, accounts as int);
        }
        let batch = sign_batch(accounts, self.value, &mut self.nonces, &mut self.cursor, count);
        let seq: u64 = self.seq;
        self.seq = seq + 1;
        Envelope { seq, epoch: self.epoch, batch: SignedBatch::Public(batch) }
    }

    /// Signs the next batch of private operations. Once every account is drained, waits for the
    /// unconfirmed batches, since one of them may yet fail and roll balance back.
    pub fn next_private(&mut self, count: usize) -> (next: PresignerStep)
        requires
            old(self).well_formed(),
            old(self).seq < u64::MAX,
        ensures
            final(self).well_formed(),
            final(self).value == old(self).value,
            final(self).epoch == old(self).epoch,
            final(self).nonces@.len() == old(self).nonces@.len(),
            final(self).cursor == crate::ring::position(
                old(self).cursor as int,
                count as int,
                old(self).nonces@.len() as int,
            ),
            ({
                let steps = crate::spammer::chains::planned(
                    old(self).state(),
                    old(self).cursor as int,
                    old(self).value,
                    count as nat,
                );
                if steps.len() == 0 {
                    &&& final(self).state() == old(self).state()
                    &&& final(self).inflight == old(self).inflight
                    &&& final(self).seq == old(self).seq
                    &&& next == if old(self).inflight@.len() == 0 {
                        PresignerStep::Exit
                    } else {
                        PresignerStep::AwaitFeedback
                    }
                } else {
                    &&& final(self).state() == old(self).state().all_done(steps)
                    &&& final(self).seq == old(self).seq + 1
                    &&& final(self).inflight@.len() == old(self).inflight@.len() + 1
                    &&& final(self).inflight@.drop_last() == old(self).inflight@
                    &&& final(self).inflight@.last().seq == old(self).seq
                    &&& final(self).inflight@.last().meta.pre_cursor == old(self).cursor
                    &&& final(self).inflight@.last().meta.steps@ == steps
                    &&& next matches PresignerStep::Send(envelope) && {
                        &&& envelope.seq == old(self).seq
                        &&& envelope.epoch == old(self).epoch
                        &&& envelope.batch matches SignedBatch::Private(meta) && meta.steps@
                            == steps && meta.pre_cursor == old(self).cursor
                    }
                }
            }),
    {
        let ghost base = choose|base: crate::spammer::chains::SigningState| #[trigger]
            old(self).rests_on(base) && base.sound() && base.nonces.len() == old(self).nonces@.len();
        proof {
            crate::ring::step(self.cursor as int, count as int, self.nonces@.len() as int);
        }
        let meta = sign_batch_private(
            self.value,
            &mut self.nonces,
            &mut self.chains,
            &mut self.cursor,
            count,
        );
        if meta.steps.len() == 0 {
            proof {
                assert(self.state() == old(self).state());
                assert(self.rests_on(base));
            }
            if self.inflight.len() == 0 {
                return PresignerStep::Exit;
            }
            return PresignerStep::AwaitFeedback;
        }
        let seq: u64 = self.seq;
        let kept = meta.copy();
        self.inflight.push(Inflight { seq, meta: kept });
        self.seq = seq + 1;
        proof {
            assert(self.inflight@.drop_last() =~= old(self).inflight@);
            assert(self.rests_on(base));
        }
        PresignerStep::Send(
            Envelope { seq, epoch: self.epoch, batch: SignedBatch::Private(meta) },
        )
    }

    /// Applies one outcome.
    ///
    /// A confirmed batch leaves, with every earlier one. A failed batch and every later one are
    /// rolled back, the newest first; the failed batch's confirmed operations are applied again; and
    /// the next batches belong to a new signing pass.
    pub fn apply_feedback(&mut self, feedback: Feedback)
        requires
            old(self).well_formed(),
            old(self).epoch < u64::MAX,
        ensures
            final(self).well_formed(),
            final(self).value == old(self).value,
            final(self).seq == old(self).seq,
            final(self).nonces@.len() == old(self).nonces@.len(),
            match feedback {
                Feedback::Resolved { seq } => {
                    &&& final(self).inflight@ == old(self).inflight@.skip(
                        resolved_prefix(old(self).inflight@, seq),
                    )
                    &&& final(self).state() == old(self).state()
                    &&& final(self).cursor == old(self).cursor
                    &&& final(self).epoch == old(self).epoch
                },
                Feedback::Failed { seq, landed } => {
                    &&& final(self).inflight@.len() == 0
                    &&& final(self).epoch == old(self).epoch + 1
                    &&& match failed_at(old(self).inflight@, seq) {
                        Some(at) => {
                            &&& final(self).cursor == old(self).inflight@[at].meta.pre_cursor
                            &&& final(self).state() == crate::spammer::chains::landed_done(
                                batches_undone(old(self).state(), old(self).inflight@.skip(at)),
                                old(self).inflight@[at].meta.steps@,
                                landed@,
                            )
                        },
                        None => {
                            &&& final(self).cursor == old(self).cursor
                            &&& final(self).state() == batches_undone(
                                old(self).state(),
                                old(self).inflight@,
                            )
                        },
                    }
                },
            },
    {
        match feedback {
            Feedback::Resolved { seq } => self.resolve(seq),
            Feedback::Failed { seq, landed } => self.fail(seq, &landed),
        }
    }

    fn resolve(&mut self, seq: u64)
        requires
            old(self).well_formed(),
        ensures
            final(self).well_formed(),
            final(self).inflight@ == old(self).inflight@.skip(
                resolved_prefix(old(self).inflight@, seq),
            ),
            *final(self) == (Presigner { inflight: final(self).inflight, ..*old(self) }),
    {
        let ghost mut base = choose|base: crate::spammer::chains::SigningState| #[trigger]
            self.rests_on(base) && base.sound() && base.nonces.len() == self.nonces@.len();
        let ghost mut left = 0int;
        proof {
            assert(self.inflight@.skip(0) =~= self.inflight@);
        }
        while self.inflight.len() > 0 && self.inflight[0].seq <= seq
            invariant
                *self == (Presigner { inflight: self.inflight, ..*old(self) }),
                self.well_formed(),
                self.rests_on(base),
                base.sound(),
                base.nonces.len() == self.nonces@.len(),
                0 <= left <= old(self).inflight@.len(),
                self.inflight@ == old(self).inflight@.skip(left),
                resolved_prefix(old(self).inflight@, seq) == left + resolved_prefix(
                    self.inflight@,
                    seq,
                ),
            decreases self.inflight@.len(),
        {
            let ghost before = self.inflight@;
            let ghost next = base.all_done(before[0].meta.steps@);
            proof {
                first_batch_leaves(base, before);
                done_is_sound(base, before[0], self.value);
            }
            let _ = self.inflight.remove(0);
            proof {
                assert(self.inflight@ =~= before.skip(1));
                assert(before.skip(1) =~= old(self).inflight@.skip(left + 1));
                left = left + 1;
                base = next;
                assert(self.rests_on(base));
            }
        }
    }

    fn fail(&mut self, seq: u64, landed: &Vec<usize>)
        requires
            old(self).well_formed(),
            old(self).epoch < u64::MAX,
        ensures
            final(self).well_formed(),
            final(self).value == old(self).value,
            final(self).seq == old(self).seq,
            final(self).nonces@.len() == old(self).nonces@.len(),
            final(self).inflight@.len() == 0,
            final(self).epoch == old(self).epoch + 1,
            match failed_at(old(self).inflight@, seq) {
                Some(at) => {
                    &&& final(self).cursor == old(self).inflight@[at].meta.pre_cursor
                    &&& final(self).state() == crate::spammer::chains::landed_done(
                        batches_undone(old(self).state(), old(self).inflight@.skip(at)),
                        old(self).inflight@[at].meta.steps@,
                        landed@,
                    )
                },
                None => {
                    &&& final(self).cursor == old(self).cursor
                    &&& final(self).state() == batches_undone(
                        old(self).state(),
                        old(self).inflight@,
                    )
                },
            },
    {
        let ghost base = choose|base: crate::spammer::chains::SigningState| #[trigger]
            self.rests_on(base) && base.sound() && base.nonces.len() == self.nonces@.len();
        let ghost all = self.inflight@;
        let ghost top = self.state();
        let ghost accounts = self.nonces@.len();
        let mut searching = true;
        proof {
            assert(all.skip(all.len() as int) =~= Seq::<Inflight>::empty());
            assert(all.take(all.len() as int) =~= all);
        }
        while searching && self.inflight.len() > 0
            invariant
                all == old(self).inflight@,
                top == old(self).state(),
                accounts == old(self).nonces@.len(),
                batches_fit(base, all),
                batches_done(base, all) == top,
                base.sound(),
                base.nonces.len() == accounts,
                self.value == old(self).value,
                self.value > 0,
                self.seq == old(self).seq,
                self.epoch == old(self).epoch,
                self.nonces@.len() == accounts,
                self.state().sound(),
                self.cursor < accounts,
                self.inflight@.len() <= all.len(),
                self.inflight@ == all.take(self.inflight@.len() as int),
                forall|i: int|
                    0 <= i < all.len() ==> (#[trigger] all[i]).meta.sound(accounts, self.value),
                searching ==> {
                    &&& self.cursor == old(self).cursor
                    &&& self.state() == batches_undone(top, all.skip(self.inflight@.len() as int))
                    &&& failed_at(all, seq) == failed_at(self.inflight@, seq)
                },
                !searching ==> {
                    &&& failed_at(all, seq) matches Some(at) && {
                        &&& 0 <= at < all.len()
                        &&& self.cursor == all[at].meta.pre_cursor
                        &&& self.state() == crate::spammer::chains::landed_done(
                            batches_undone(top, all.skip(at)),
                            all[at].meta.steps@,
                            landed@,
                        )
                    }
                },
            decreases self.inflight@.len(),
        {
            let ghost count = self.inflight@.len() as int;
            if let Some(newest) = self.inflight.pop() {
                proof {
                    let at = count - 1;
                    assert(newest == all[at]);
                    assert(all.take(count).drop_last() =~= all.take(at));
                    assert(self.inflight@ =~= all.take(at));
                    rollback_restores(base, all, count);
                    rollback_restores(base, all, at);
                    prefix_is_sound(base, all, at, accounts, self.value);
                    prefix_is_sound(base, all, count, accounts, self.value);
                    prefix_fits(base, all, count);
                    assert(all.take(count).last() == newest);
                    crate::spammer::chains::undoing_restores(
                        batches_done(base, all.take(at)),
                        newest.meta.steps@,
                    );
                }
                unwind_batch(&newest.meta, &mut self.nonces, &mut self.chains);
                proof {
                    assert(self.state() == batches_undone(top, all.skip(count - 1)));
                }
                if newest.seq == seq {
                    self.cursor = newest.meta.pre_cursor;
                    replay_landed(
                        &newest.meta,
                        landed,
                        &mut self.nonces,
                        &mut self.chains,
                        Ghost(self.value),
                    );
                    searching = false;
                }
            }
        }
        proof {
            if searching {
                assert(self.inflight@ =~= Seq::<Inflight>::empty());
                assert(all.skip(0) =~= all);
            }
        }
        self.inflight.clear();
        self.epoch = self.epoch + 1;
        proof {
            assert(self.rests_on(self.state()));
        }
    }
}

/// What some sound batches leave of a sound state is sound.
proof fn prefix_is_sound(
    base: crate::spammer::chains::SigningState,
    batches: Seq<Inflight>,
    count: int,
    accounts: nat,
    value: u64,
)
    requires
        0 <= count <= batches.len(),
        value > 0,
        base.sound(),
        base.nonces.len() == accounts,
        forall|i: int|
            0 <= i < batches.len() ==> (#[trigger] batches[i]).meta.sound(accounts, value),
    ensures
        batches_done(base, batches.take(count)).sound(),
        batches_done(base, batches.take(count)).nonces.len() == accounts,
    decreases count,
{
    if count > 0 {
        prefix_is_sound(base, batches, count - 1, accounts, value);
        assert(batches.take(count).drop_last() =~= batches.take(count - 1));
        assert(batches.take(count).last() == batches[count - 1]);
        crate::spammer::chains::sound_steps_keep_soundness(
            batches_done(base, batches.take(count - 1)),
            batches[count - 1].meta.steps@,
            value,
        );
    } else {
        assert(batches.take(0) =~= Seq::<Inflight>::empty());
    }
}

/// The first batches of a list that fits fit as well.
proof fn prefix_fits(
    base: crate::spammer::chains::SigningState,
    batches: Seq<Inflight>,
    count: int,
)
    requires
        batches_fit(base, batches),
        0 <= count <= batches.len(),
    ensures
        batches_fit(base, batches.take(count)),
    decreases batches.len(),
{
    if count < batches.len() {
        prefix_fits(base, batches.drop_last(), count);
        assert(batches.drop_last().take(count) =~= batches.take(count));
    } else {
        assert(batches.take(count) =~= batches);
    }
}

/// A confirmed batch leaves a sound state.
proof fn done_is_sound(
    base: crate::spammer::chains::SigningState,
    batch: Inflight,
    value: u64,
)
    requires
        value > 0,
        base.sound(),
        batch.meta.sound(base.nonces.len(), value),
    ensures
        base.all_done(batch.meta.steps@).sound(),
        base.all_done(batch.meta.steps@).nonces.len() == base.nonces.len(),
{
    crate::spammer::chains::sound_steps_keep_soundness(base, batch.meta.steps@, value);
}

/// A batch that fails without a landed operation leaves no trace: the next batch is signed against
/// exactly the nonces and balances that the failed one was signed against.
pub proof fn failure_leaves_no_trace(
    before: Presigner,
    after: Presigner,
    base: crate::spammer::chains::SigningState,
    at: int,
)
    requires
        before.rests_on(base),
        0 <= at < before.inflight@.len(),
        after.state() == crate::spammer::chains::landed_done(
            batches_undone(before.state(), before.inflight@.skip(at)),
            before.inflight@[at].meta.steps@,
            Seq::empty(),
        ),
    ensures
        after.state() == batches_done(base, before.inflight@.take(at)),
{
    rollback_restores(base, before.inflight@, at);
}

/// The operations of some batches, the newest first.
pub open spec fn steps_back(batches: Seq<Inflight>) -> Seq<PrivateStep>
    decreases batches.len(),
{
    if batches.len() == 0 {
        Seq::empty()
    } else {
        batches.last().meta.steps@.reverse() + steps_back(batches.drop_last())
    }
}

/// The operations at some positions; positions beyond the last are ignored.
pub open spec fn steps_at(steps: Seq<PrivateStep>, positions: Seq<usize>) -> Seq<PrivateStep>
    decreases positions.len(),
{
    if positions.len() == 0 {
        Seq::empty()
    } else {
        let earlier = steps_at(steps, positions.drop_last());
        if positions.last() < steps.len() {
            earlier.push(steps[positions.last() as int])
        } else {
            earlier
        }
    }
}

/// The state without some operations, one after the other.
pub open spec fn walked_back(
    state: crate::spammer::chains::SigningState,
    steps: Seq<PrivateStep>,
) -> crate::spammer::chains::SigningState
    decreases steps.len(),
{
    if steps.len() == 0 {
        state
    } else {
        walked_back(state.undone(steps[0]), steps.skip(1))
    }
}

proof fn walks_back_compose(
    state: crate::spammer::chains::SigningState,
    first: Seq<PrivateStep>,
    second: Seq<PrivateStep>,
)
    ensures
        walked_back(state, first + second) == walked_back(walked_back(state, first), second),
    decreases first.len(),
{
    if first.len() == 0 {
        assert(first + second =~= second);
    } else {
        assert((first + second).skip(1) =~= first.skip(1) + second);
        walks_back_compose(state.undone(first[0]), first.skip(1), second);
    }
}

proof fn reversed_walk_undoes(
    state: crate::spammer::chains::SigningState,
    steps: Seq<PrivateStep>,
)
    ensures
        walked_back(state, steps.reverse()) == state.all_undone(steps),
    decreases steps.len(),
{
    if steps.len() > 0 {
        let back = steps.reverse();
        assert(back[0] == steps.last());
        assert(back.skip(1) =~= steps.drop_last().reverse());
        reversed_walk_undoes(state.undone(steps.last()), steps.drop_last());
    }
}

/// Taking the operations of some batches back, the newest first, undoes the batches.
pub proof fn steps_back_undo_batches(
    state: crate::spammer::chains::SigningState,
    batches: Seq<Inflight>,
)
    ensures
        walked_back(state, steps_back(batches)) == batches_undone(state, batches),
    decreases batches.len(),
{
    if batches.len() > 0 {
        let steps = batches.last().meta.steps@;
        walks_back_compose(state, steps.reverse(), steps_back(batches.drop_last()));
        reversed_walk_undoes(state, steps);
        steps_back_undo_batches(state.all_undone(steps), batches.drop_last());
    }
}

impl Presigner {
    /// Returns the operations that the failure of a batch takes back, the newest first: those of the
    /// batch and of every later one.
    pub fn rollback_steps(&self, seq: u64) -> (steps: Vec<PrivateStep>)
        ensures
            steps@ == steps_back(
                match failed_at(self.inflight@, seq) {
                    Some(at) => self.inflight@.skip(at),
                    None => self.inflight@,
                },
            ),
    {
        let ghost all = self.inflight@;
        let mut steps: Vec<PrivateStep> = Vec::new();
        let mut left: usize = self.inflight.len();
        proof {
            assert(all.skip(left as int) =~= Seq::<Inflight>::empty());
            assert(all.take(left as int) =~= all);
        }
        while left > 0
            invariant
                left <= all.len(),
                all == self.inflight@,
                steps@ == steps_back(all.skip(left as int)),
                failed_at(all, seq) == failed_at(all.take(left as int), seq),
            decreases left,
        {
            let at: usize = left - 1;
            let batch = &self.inflight[at];
            let ghost later = steps@;
            let ghost own = batch.meta.steps@;
            let mut k: usize = batch.meta.steps.len();
            proof {
                assert(own.skip(k as int).reverse() =~= Seq::<PrivateStep>::empty());
                assert(later + own.skip(k as int).reverse() =~= later);
            }
            while k > 0
                invariant
                    k <= own.len(),
                    own == batch.meta.steps@,
                    steps@ == later + own.skip(k as int).reverse(),
                decreases k,
            {
                k = k - 1;
                steps.push(batch.meta.steps[k]);
                proof {
                    assert(later + own.skip(k as int).reverse() =~= (later + own.skip(
                        k + 1,
                    ).reverse()).push(own[k as int]));
                }
            }
            proof {
                assert(own.skip(0) =~= own);
                oldest_is_last(all, at as int);
                assert(all.take(left as int).drop_last() =~= all.take(at as int));
                assert(all.take(left as int).last() == all[at as int]);
            }
            left = at;
            if batch.seq == seq {
                return steps;
            }
        }
        proof {
            assert(all.skip(0) =~= all);
            assert(all.take(0) =~= Seq::<Inflight>::empty());
        }
        steps
    }

    /// Returns the operations of a batch that landed all the same.
    pub fn landed_steps(&self, seq: u64, landed: &Vec<usize>) -> (steps: Vec<PrivateStep>)
        ensures
            steps@ == match failed_at(self.inflight@, seq) {
                Some(at) => steps_at(self.inflight@[at].meta.steps@, landed@),
                None => Seq::<PrivateStep>::empty(),
            },
    {
        let ghost all = self.inflight@;
        let mut left: usize = self.inflight.len();
        proof {
            assert(all.take(left as int) =~= all);
        }
        while left > 0
            invariant
                left <= all.len(),
                all == self.inflight@,
                failed_at(all, seq) == failed_at(all.take(left as int), seq),
            decreases left,
        {
            let at: usize = left - 1;
            proof {
                assert(all.take(left as int).drop_last() =~= all.take(at as int));
                assert(all.take(left as int).last() == all[at as int]);
            }
            left = at;
            if self.inflight[at].seq == seq {
                return pick_steps(&self.inflight[at].meta.steps, landed);
            }
        }
        proof {
            assert(all.take(0) =~= Seq::<Inflight>::empty());
        }
        Vec::new()
    }
}

fn pick_steps(steps: &Vec<PrivateStep>, positions: &Vec<usize>) -> (picked: Vec<PrivateStep>)
    ensures
        picked@ == steps_at(steps@, positions@),
{
    let mut picked: Vec<PrivateStep> = Vec::new();
    let mut i: usize = 0;
    proof {
        assert(positions@.take(0) =~= Seq::<usize>::empty());
    }
    while i < positions.len()
        invariant
            i <= positions@.len(),
            picked@ == steps_at(steps@, positions@.take(i as int)),
        decreases positions@.len() - i,
    {
        proof {
            assert(positions@.take(i + 1).drop_last() =~= positions@.take(i as int));
            assert(positions@.take(i + 1).last() == positions@[i as int]);
        }
        if positions[i] < steps.len() {
            picked.push(steps[positions[i]]);
        }
        i += 1;
    }
    proof {
        assert(positions@.take(i as int) =~= positions@);
    }
    picked
}

/// With one more batch in front, its operations are taken back last.
proof fn oldest_is_last(batches: Seq<Inflight>, at: int)
    requires
        0 <= at < batches.len(),
    ensures
        steps_back(batches.skip(at)) == steps_back(batches.skip(at + 1))
            + batches[at].meta.steps@.reverse(),
    decreases batches.len(),
{
    let longer = batches.skip(at);
    let shorter = batches.skip(at + 1);
    if shorter.len() == 0 {
        assert(longer.drop_last() =~= Seq::<Inflight>::empty());
        assert(longer.last() == batches[at]);
        assert(steps_back(longer.drop_last()) =~= Seq::<PrivateStep>::empty());
        assert(steps_back(longer) =~= steps_back(shorter) + batches[at].meta.steps@.reverse());
    } else {
        let front = batches.drop_last();
        oldest_is_last(front, at);
        assert(longer.drop_last() =~= front.skip(at));
        assert(shorter.drop_last() =~= front.skip(at + 1));
        assert(longer.last() == shorter.last());
        assert(front[at] == batches[at]);
        assert(steps_back(longer) =~= steps_back(shorter) + batches[at].meta.steps@.reverse());
    }
}

/// The positions below `count` of the transactions that finalized, in order.
pub open spec fn finalized_positions(outcome: SubmitOutcome, count: nat) -> Seq<usize>
    decreases count,
{
    if count == 0 {
        Seq::empty()
    } else {
        let earlier = finalized_positions(outcome, (count - 1) as nat);
        if outcome.has((count - 1) as u64) {
            earlier.push((count - 1) as usize)
        } else {
            earlier
        }
    }
}

/// Follows the signing passes on the submitting side.
#[derive(Debug, Clone, Copy, PartialEq, Eq, Structural)]
pub struct BatchFollower {
    /// The signing pass that batches have to belong to.
    pub epoch: u64,
}

impl BatchFollower {
    /// Starts with the first signing pass.
    pub fn new() -> (follower: Self)
        ensures
            follower.epoch == 0,
    {
        BatchFollower { epoch: 0 }
    }

    /// Returns whether a batch is submitted: one that was signed before the last failure is stale.
    pub fn admits(&self, epoch: u64) -> (admitted: bool)
        ensures
            admitted == (epoch >= self.epoch),
    {
        epoch >= self.epoch
    }

    /// Reports what became of a batch of `count` transactions. After a failure only batches of later
    /// signing passes are submitted.
    pub fn report(&mut self, seq: u64, epoch: u64, count: usize, outcome: &SubmitOutcome) -> (
        feedback: Feedback)
        requires
            epoch < u64::MAX,
        ensures
            match *outcome {
                SubmitOutcome::AllFinalized => {
                    &&& feedback == (Feedback::Resolved { seq })
                    &&& *final(self) == *old(self)
                },
                _ => {
                    &&& feedback matches Feedback::Failed { seq: failed, landed } && failed == seq
                        && landed@ == finalized_positions(*outcome, count as nat)
                    &&& final(self).epoch == epoch + 1
                },
            },
    {
        if let SubmitOutcome::AllFinalized = outcome {
            return Feedback::Resolved { seq };
        }
        let mut landed: Vec<usize> = Vec::new();
        let mut index: usize = 0;
        while index < count
            invariant
                index <= count,
                landed@ == finalized_positions(*outcome, index as nat),
            decreases count - index,
        {
            if outcome.finalized(index as u64) {
                landed.push(index);
            }
            index += 1;
        }
        self.epoch = epoch + 1;
        Feedback::Failed { seq, landed }
    }
}

/// The positions that a failure reports are exactly those of the finalized transactions of the batch,
/// each once and in order.
pub proof fn reported_positions_are_finalized(outcome: SubmitOutcome, count: nat)
    requires
        count <= usize::MAX,
    ensures
        forall|index: usize| #[trigger]
            finalized_positions(outcome, count).contains(index) == (index < count && outcome.has(
                index as u64,
            )),
        forall|i: int, j: int|
            0 <= i < j < finalized_positions(outcome, count).len() ==> #[trigger] finalized_positions(
                outcome,
                count,
            )[i] < #[trigger] finalized_positions(outcome, count)[j],
    decreases count,
{
    let all = finalized_positions(outcome, count);
    if count > 0 {
        let last = (count - 1) as usize;
        let earlier = finalized_positions(outcome, (count - 1) as nat);
        reported_positions_are_finalized(outcome, (count - 1) as nat);
        assert forall|i: int| 0 <= i < earlier.len() implies #[trigger] earlier[i] < last by {
            assert(earlier.contains(earlier[i]));
        }
        assert forall|index: usize| #[trigger] all.contains(index) == (index < count && outcome.has(
            index as u64,
        )) by {
            if outcome.has(last as u64) {
                assert(all == earlier.push(last));
                assert(all[earlier.len() as int] == last);
                if earlier.contains(index) {
                    let i = choose|i: int| 0 <= i < earlier.len() && earlier[i] == index;
                    assert(all[i] == index);
                }
                if all.contains(index) && index != last {
                    let i = choose|i: int| 0 <= i < all.len() && all[i] == index;
                    assert(earlier[i] == index);
                }
            }
        }
    }
}

/// A private batch that fails without a landed operation right after it was signed leaves the
/// presigner where it was: the same nonces, the same balances and the same cursor. The next batch
/// belongs to a new signing pass and has a new number.
pub proof fn failed_batch_is_signed_again(
    signing: &mut Presigner,
    failing: &mut Presigner,
    count: usize,
    envelope: Envelope,
    landed: Vec<usize>,
)
    requires
        old(signing).well_formed(),
        old(signing).seq < u64::MAX,
        call_ensures(
            Presigner::next_private,
            (signing, count),
            PresignerStep::Send(envelope),
        ),
        *old(failing) == *final(signing),
        landed@.len() == 0,
        old(failing).epoch < u64::MAX,
        call_ensures(
            Presigner::apply_feedback,
            (failing, Feedback::Failed { seq: envelope.seq, landed }),
            (),
        ),
    ensures
        envelope.seq == old(signing).seq,
        envelope.epoch == old(signing).epoch,
        final(failing).nonces@ == old(signing).nonces@,
        final(failing).chains@ == old(signing).chains@,
        final(failing).cursor == old(signing).cursor,
        final(failing).inflight@.len() == 0,
        final(failing).epoch == old(signing).epoch + 1,
        final(failing).seq == old(signing).seq + 1,
{
    let batches = final(signing).inflight@;
    let at = batches.len() - 1;
    assert(batches.drop_last() == old(signing).inflight@);
    assert(batches.last() == batches[at]);
    failure_names_one_batch(batches, final(signing).seq, envelope.seq, at);
    let steps = batches.last().meta.steps@;
    assert(batches.skip(at) =~= seq![batches[at]]);
    let single = seq![batches[at]];
    assert(single.drop_last() =~= Seq::<Inflight>::empty());
    assert(single.last() == batches[at]);
    let signed = final(signing).state();
    assert(batches_undone(signed, single) == batches_undone(
        signed.all_undone(steps),
        single.drop_last(),
    ));
    assert(batches_undone(signed, single) == signed.all_undone(steps));
    assert(old(signing).nonces.len() == old(signing).nonces@.len());
    crate::spammer::chains::planned_steps_fit(
        old(signing).state(),
        old(signing).cursor as int,
        old(signing).value,
        count as nat,
    );
    crate::spammer::chains::undoing_restores(old(signing).state(), steps);
    assert(crate::spammer::chains::landed_done(signed.all_undone(steps), steps, landed@)
        == signed.all_undone(steps));
    assert(final(failing).state() == old(signing).state());
}

/// Batches are numbered one after the other, and a public batch goes on where the one before it
/// ended.
pub proof fn public_batches_follow_each_other(
    first: &mut Presigner,
    second: &mut Presigner,
    count: usize,
    more: usize,
    envelope: Envelope,
    following: Envelope,
)
    requires
        call_ensures(Presigner::next_public, (first, count), envelope),
        call_ensures(Presigner::next_public, (second, more), following),
        *old(second) == *final(first),
        old(first).nonces@.len() <= usize::MAX,
        old(first).cursor < old(first).nonces@.len(),
        old(first).seq + 1 < u64::MAX,
        count > 0,
        more > 0,
    ensures
        envelope.seq == old(first).seq,
        following.seq == envelope.seq + 1,
        following.epoch == envelope.epoch,
        (envelope.batch, following.batch) matches (
            SignedBatch::Public(left),
            SignedBatch::Public(right),
        ) && {
            &&& left@.len() == count
            &&& right@.len() == more
            &&& left@[0].sender == old(first).cursor
            &&& right@[0].sender == left@[count - 1].recipient
            &&& left@[0].value == old(first).value
            &&& right@[0].value == old(first).value
        },
{
    let size = old(first).nonces@.len() as int;
    let cursor = old(first).cursor as int;
    crate::ring::step(cursor, count - 1, size);
    crate::ring::step(cursor, 0, size);
    crate::ring::step(final(first).cursor as int, 0, size);
}

/// Confirming a batch takes it and every earlier one off the list and leaves the rest, the nonces and
/// the cursor as they are.
pub proof fn confirmed_batches_leave(presigner: &mut Presigner, seq: u64, at: int)
    requires
        old(presigner).well_formed(),
        old(presigner).epoch < u64::MAX,
        call_ensures(Presigner::apply_feedback, (presigner, Feedback::Resolved { seq }), ()),
        0 <= at < old(presigner).inflight@.len(),
    ensures
        final(presigner).nonces@ == old(presigner).nonces@,
        final(presigner).chains@ == old(presigner).chains@,
        final(presigner).cursor == old(presigner).cursor,
        final(presigner).epoch == old(presigner).epoch,
        old(presigner).inflight@[at].seq > seq ==> final(presigner).inflight@.contains(
            old(presigner).inflight@[at],
        ),
        forall|i: int|
            0 <= i < final(presigner).inflight@.len() ==> (
            #[trigger] final(presigner).inflight@[i]).seq > seq,
{
    let batches = old(presigner).inflight@;
    confirmation_takes_earlier_batches(batches, old(presigner).seq, seq);
    let gone = resolved_prefix(batches, seq);
    let left = final(presigner).inflight@;
    assert(old(presigner).state() == final(presigner).state());
    assert forall|i: int| 0 <= i < left.len() implies (#[trigger] left[i]).seq > seq by {
        assert(left[i] == batches[gone + i]);
    }
    if batches[at].seq > seq {
        assert(left[at - gone] == batches[at]);
    }
}

/// After a failure the submitting side takes only batches of a later signing pass, and after a
/// success it takes what it took before.
pub proof fn stale_batches_are_not_submitted(
    follower: &mut BatchFollower,
    seq: u64,
    epoch: u64,
    count: usize,
    outcome: SubmitOutcome,
    feedback: Feedback,
    stale: bool,
    fresh: bool,
)
    requires
        epoch < u64::MAX,
        call_ensures(BatchFollower::report, (follower, seq, epoch, count, &outcome), feedback),
        call_ensures(BatchFollower::admits, (final(follower), epoch), stale),
        call_ensures(BatchFollower::admits, (final(follower), (epoch + 1) as u64), fresh),
    ensures
        !(outcome is AllFinalized) ==> !stale && fresh && (feedback matches Feedback::Failed {
            seq: failed,
            ..
        } && failed == seq),
        outcome is AllFinalized ==> {
            &&& feedback == (Feedback::Resolved { seq })
            &&& final(follower).epoch == old(follower).epoch
        },
{
}

/// The operations of a failed batch that landed all the same are those at the reported positions, in
/// the order of the report; and what the failure takes back begins with the newest operation.
pub proof fn landed_operations_are_named(
    presigner: Presigner,
    seq: u64,
    landed: Vec<usize>,
    at: int,
    picked: Vec<PrivateStep>,
    taken_back: Vec<PrivateStep>,
)
    requires
        presigner.well_formed(),
        0 <= at < presigner.inflight@.len(),
        presigner.inflight@[at].seq == seq,
        forall|i: int|
            0 <= i < landed@.len() ==> (#[trigger] landed@[i])
                < presigner.inflight@[at].meta.steps@.len(),
        call_ensures(Presigner::landed_steps, (&presigner, seq, &landed), picked),
        call_ensures(Presigner::rollback_steps, (&presigner, seq), taken_back),
    ensures
        picked@.len() == landed@.len(),
        forall|i: int|
            0 <= i < landed@.len() ==> #[trigger] picked@[i]
                == presigner.inflight@[at].meta.steps@[landed@[i] as int],
        presigner.inflight@.last().meta.steps@.len() > 0 ==> taken_back@.len() > 0
            && taken_back@[0] == presigner.inflight@.last().meta.steps@.last(),
{
    let batches = presigner.inflight@;
    failure_names_one_batch(batches, presigner.seq, seq, at);
    picks_are_named(batches[at].meta.steps@, landed@);
    let later = batches.skip(at);
    assert(later.last() == batches.last());
    let steps = batches.last().meta.steps@;
    if steps.len() > 0 {
        assert(taken_back@ == steps.reverse() + steps_back(later.drop_last()));
        assert(steps.reverse()[0] == steps.last());
    }
}

proof fn picks_are_named(steps: Seq<PrivateStep>, positions: Seq<usize>)
    requires
        forall|i: int| 0 <= i < positions.len() ==> (#[trigger] positions[i]) < steps.len(),
    ensures
        steps_at(steps, positions).len() == positions.len(),
        forall|i: int|
            0 <= i < positions.len() ==> #[trigger] steps_at(steps, positions)[i]
                == steps[positions[i] as int],
    decreases positions.len(),
{
    if positions.len() > 0 {
        let front = positions.drop_last();
        assert forall|i: int| 0 <= i < front.len() implies (#[trigger] front[i])
            < steps.len() by {
            assert(front[i] == positions[i]);
        }
        picks_are_named(steps, front);
        assert(positions[positions.len() - 1] == positions.last());
    }
}

/// A presigner whose accounts are all drained sends nothing: it waits while batches are unconfirmed,
/// since one of them may yet fail, and ends once none is. One with an account that can act sends a
/// batch, given a walk that comes round to it.
pub proof fn drained_presigner_waits_for_feedback(
    presigner: &mut Presigner,
    count: usize,
    next: PresignerStep,
    account: int,
)
    requires
        old(presigner).well_formed(),
        old(presigner).seq < u64::MAX,
        count >= old(presigner).nonces@.len(),
        call_ensures(Presigner::next_private, (presigner, count), next),
        0 <= account < old(presigner).nonces@.len(),
    ensures
        (forall|a: int|
            0 <= a < old(presigner).chains@.len() ==> (#[trigger] old(presigner).chains@[a]).public
                == 0 && old(presigner).chains@[a].private < old(presigner).value) ==> {
            &&& next is Exit <==> old(presigner).inflight@.len() == 0
            &&& next is AwaitFeedback <==> old(presigner).inflight@.len() > 0
            &&& final(presigner).nonces@ == old(presigner).nonces@
        },
        old(presigner).chains@[account].public > 0 || old(presigner).chains@[account].private
            >= old(presigner).value ==> next is Send,
{
    let state = old(presigner).state();
    let value = old(presigner).value;
    crate::spammer::chains::empty_batch_means_drained(
        state,
        old(presigner).cursor as int,
        value,
        count as nat,
    );
    if forall|a: int|
        0 <= a < old(presigner).chains@.len() ==> (#[trigger] old(presigner).chains@[a]).public == 0
            && old(presigner).chains@[a].private < value {
        assert forall|a: int| 0 <= a < state.nonces.len() implies crate::spammer::chains::action_of(
            #[trigger] state.chains[a],
            value,
        ) is None by {
            assert(state.chains[a] == old(presigner).chains@[a]);
        }
        assert(final(presigner).state().nonces == final(presigner).nonces@);
    }
    if old(presigner).chains@[account].public > 0 || old(presigner).chains@[account].private
        >= value {
        assert(crate::spammer::chains::action_of(state.chains[account], value) is Some);
    }
}

/// An operation of a failed batch that landed keeps its effect: its account goes on behind that
/// operation's nonce. An account none of whose operations landed is back where it was before the
/// batch.
pub proof fn landed_operations_keep_their_nonce(
    signing: &mut Presigner,
    failing: &mut Presigner,
    count: usize,
    envelope: Envelope,
    landed: Vec<usize>,
    at: int,
    account: int,
)
    requires
        old(signing).well_formed(),
        old(signing).seq < u64::MAX,
        call_ensures(
            Presigner::next_private,
            (signing, count),
            PresignerStep::Send(envelope),
        ),
        *old(failing) == *final(signing),
        old(failing).epoch < u64::MAX,
        call_ensures(
            Presigner::apply_feedback,
            (failing, Feedback::Failed { seq: envelope.seq, landed }),
            (),
        ),
        envelope.batch matches SignedBatch::Private(meta) && {
            &&& 0 <= at < landed@.len()
            &&& landed@[at] < meta.steps@.len()
            &&& forall|later: int|
                at < later < landed@.len() && (#[trigger] landed@[later]) < meta.steps@.len()
                    ==> meta.steps@[landed@[later] as int].account
                    != meta.steps@[landed@[at] as int].account
            &&& forall|i: int|
                0 <= i < landed@.len() && (#[trigger] landed@[i]) < meta.steps@.len()
                    ==> meta.steps@[landed@[i] as int].account != account
        },
        0 <= account < old(signing).nonces@.len(),
    ensures
        envelope.batch matches SignedBatch::Private(meta) && {
            let step = meta.steps@[landed@[at] as int];
            &&& final(failing).nonces@[step.account as int] == step.nonce + 1
            &&& final(failing).nonces@[account] == old(signing).nonces@[account]
            &&& final(failing).chains@[account] == old(signing).chains@[account]
        },
{
    let batches = final(signing).inflight@;
    let last = batches.len() - 1;
    assert(batches.drop_last() == old(signing).inflight@);
    assert(batches.last() == batches[last]);
    failure_names_one_batch(batches, final(signing).seq, envelope.seq, last);
    let steps = batches.last().meta.steps@;
    let single = seq![batches[last]];
    assert(batches.skip(last) =~= single);
    assert(single.drop_last() =~= Seq::<Inflight>::empty());
    assert(single.last() == batches[last]);
    let signed = final(signing).state();
    assert(batches_undone(signed, single) == batches_undone(
        signed.all_undone(steps),
        single.drop_last(),
    ));
    assert(batches_undone(signed, single) == signed.all_undone(steps));
    assert(old(signing).nonces.len() == old(signing).nonces@.len());
    crate::spammer::chains::planned_steps_fit(
        old(signing).state(),
        old(signing).cursor as int,
        old(signing).value,
        count as nat,
    );
    crate::spammer::chains::undoing_restores(old(signing).state(), steps);
    let before = old(signing).state();
    assert(signed.all_undone(steps) == before);
    assert(batches[last].meta.sound(old(signing).nonces@.len(), old(signing).value));
    assert forall|i: int| 0 <= i < steps.len() implies (#[trigger] steps[i]).account
        < before.nonces.len() by {
        assert(
            crate::spammer::chains::step_sound(
                batches[last].meta.steps@[i],
                old(signing).nonces@.len(),
                old(signing).value,
            )
        );
    }
    let step = steps[landed@[at] as int];
    assert(
        crate::spammer::chains::step_sound(
            batches[last].meta.steps@[landed@[at] as int],
            old(signing).nonces@.len(),
            old(signing).value,
        )
    );
    crate::spammer::chains::step_spends(step, old(signing).nonces@.len(), old(signing).value);
    crate::spammer::chains::landed_operations_survive(before, steps, landed@, at);
    crate::spammer::chains::others_are_left_alone(before, steps, landed@, account);
    assert(final(failing).state() == crate::spammer::chains::landed_done(before, steps, landed@));
}

/// A batch that did not finalize as a whole is reported as failed with the positions of just those of
/// its transactions that did.
pub proof fn failures_report_what_landed(
    follower: &mut BatchFollower,
    seq: u64,
    epoch: u64,
    count: usize,
    outcome: SubmitOutcome,
    feedback: Feedback,
    index: usize,
)
    requires
        epoch < u64::MAX,
        call_ensures(BatchFollower::report, (follower, seq, epoch, count, &outcome), feedback),
        !(outcome is AllFinalized),
    ensures
        feedback matches Feedback::Failed { seq: failed, landed } && {
            &&& failed == seq
            &&& landed@.contains(index) <==> index < count && outcome.has(index as u64)
        },
        final(follower).epoch == epoch + 1,
{
    reported_positions_are_finalized(outcome, count as nat);
}

} // verus!

//! Scheduling of the ring spammer: which sender submits when, and what outcomes and statuses change.

use crate::spammer::spam::{
    classify_submission_error, next_retry_backoff, SenderFailure, SenderState, SubmissionErrorKind,
    INITIAL_RETRY_BACKOFF_MS, MAX_RETRY_BACKOFF_MS, MAX_SUBMISSION_TASKS_PER_ENDPOINT,
};
use std::collections::VecDeque;
use vstd::prelude::*;

verus! {

/// An endpoint and the senders that submit to it.
#[derive(Debug)]
pub struct EndpointState {
    /// The endpoint.
    pub endpoint: String,
    /// Senders of the endpoint.
    pub sender_indices: Vec<usize>,
    /// Senders whose turn it is, in order.
    pub ready: VecDeque<usize>,
    /// Senders that wait until a time, the next one last.
    pub delayed: Vec<(u64, usize)>,
    /// Submissions that run.
    pub submission_tasks: usize,
    /// Transactions that were included.
    pub completed: usize,
    /// Transactions that failed.
    pub failed: usize,
}

/// The contents of an endpoint.
#[verifier::ext_equal]
pub struct EndpointView {
    pub endpoint: Seq<char>,
    pub sender_indices: Seq<usize>,
    pub ready: Seq<usize>,
    pub delayed: Seq<(u64, usize)>,
    pub submission_tasks: usize,
    pub completed: usize,
    pub failed: usize,
}

impl View for EndpointState {
    type V = EndpointView;

    open spec fn view(&self) -> EndpointView {
        EndpointView {
            endpoint: self.endpoint@,
            sender_indices: self.sender_indices@,
            ready: self.ready@,
            delayed: self.delayed@,
            submission_tasks: self.submission_tasks,
            completed: self.completed,
            failed: self.failed,
        }
    }
}

/// The contents of some endpoints.
pub open spec fn endpoint_views(endpoints: Seq<EndpointState>) -> Seq<EndpointView> {
    Seq::new(endpoints.len(), |i: int| endpoints[i]@)
}

impl EndpointState {
    /// No sender submits yet.
    pub fn new(endpoint: String) -> (state: Self)
        ensures
            state@ == (EndpointView {
                endpoint: endpoint@,
                sender_indices: Seq::empty(),
                ready: Seq::empty(),
                delayed: Seq::empty(),
                submission_tasks: 0,
                completed: 0,
                failed: 0,
            }),
    {
        EndpointState {
            endpoint,
            sender_indices: Vec::new(),
            ready: VecDeque::new(),
            delayed: Vec::new(),
            submission_tasks: 0,
            completed: 0,
            failed: 0,
        }
    }
}

/// The senders among the first `count` that submit to the endpoint at `index`.
pub open spec fn senders_of(senders: Seq<SenderState>, index: int, count: nat) -> Seq<usize>
    decreases count,
{
    if count == 0 {
        Seq::empty()
    } else if senders[count - 1].account.endpoint_index == index {
        senders_of(senders, index, (count - 1) as nat).push((count - 1) as usize)
    } else {
        senders_of(senders, index, (count - 1) as nat)
    }
}

/// The endpoints and senders of a run.
#[derive(Debug)]
pub struct Scheduler {
    pub endpoints: Vec<EndpointState>,
    pub senders: Vec<SenderState>,
}

/// Whether one delayed sender waits at least as long as another.
pub open spec fn waits_longer(left: (u64, usize), right: (u64, usize)) -> bool {
    left.0 > right.0 || (left.0 == right.0 && left.1 >= right.1)
}

/// Whether delayed senders are in order, the next one last.
pub open spec fn in_order(delayed: Seq<(u64, usize)>) -> bool {
    forall|i: int, j: int|
        0 <= i < j < delayed.len() ==> waits_longer(#[trigger] delayed[i], #[trigger] delayed[j])
}

/// Delayed senders with one more, at its place.
pub open spec fn placed(delayed: Seq<(u64, usize)>, entry: (u64, usize)) -> Seq<(u64, usize)>
    decreases delayed.len(),
{
    if delayed.len() == 0 || waits_longer(delayed.last(), entry) {
        delayed.push(entry)
    } else {
        placed(delayed.drop_last(), entry).push(delayed.last())
    }
}

/// Placing a sender keeps the order, and keeps every other sender.
proof fn placing_keeps_order(delayed: Seq<(u64, usize)>, entry: (u64, usize))
    requires
        in_order(delayed),
    ensures
        in_order(placed(delayed, entry)),
        placed(delayed, entry).len() == delayed.len() + 1,
        forall|i: int|
            0 <= i < placed(delayed, entry).len() ==> #[trigger] placed(delayed, entry)[i] == entry
                || delayed.contains(placed(delayed, entry)[i]),
    decreases delayed.len(),
{
    if !(delayed.len() == 0 || waits_longer(delayed.last(), entry)) {
        let rest = delayed.drop_last();
        placing_keeps_order(rest, entry);
        let tail = placed(rest, entry);
        assert forall|i: int| 0 <= i < tail.len() implies waits_longer(
            #[trigger] tail[i],
            delayed.last(),
        ) by {
            if tail[i] != entry {
                let at = choose|at: int| 0 <= at < rest.len() && rest[at] == tail[i];
                assert(delayed[at] == tail[i]);
            }
        }
        assert forall|i: int| 0 <= i < placed(delayed, entry).len() implies #[trigger] placed(
            delayed,
            entry,
        )[i] == entry || delayed.contains(placed(delayed, entry)[i]) by {
            if i < tail.len() {
                if tail[i] != entry {
                    let at = choose|at: int| 0 <= at < rest.len() && rest[at] == tail[i];
                    assert(delayed[at] == tail[i]);
                }
            } else {
                assert(delayed[delayed.len() - 1] == delayed.last());
            }
        }
    } else {
        assert forall|i: int| 0 <= i < placed(delayed, entry).len() implies #[trigger] placed(
            delayed,
            entry,
        )[i] == entry || delayed.contains(placed(delayed, entry)[i]) by {
            if i < delayed.len() {
                assert(delayed[i] == placed(delayed, entry)[i]);
            }
        }
    }
}

/// Places a delayed sender.
fn place(delayed: &mut Vec<(u64, usize)>, entry: (u64, usize))
    ensures
        final(delayed)@ == placed(old(delayed)@, entry),
    decreases old(delayed)@.len(),
{
    let ghost before = delayed@;
    if delayed.len() == 0 {
        delayed.push(entry);
        return;
    }
    let last = delayed[delayed.len() - 1];
    if last.0 > entry.0 || (last.0 == entry.0 && last.1 >= entry.1) {
        delayed.push(entry);
        return;
    }
    let _ = delayed.pop();
    proof {
        assert(delayed@ =~= before.drop_last());
    }
    place(delayed, entry);
    delayed.push(last);
}

/// Whether the queues of an endpoint name only its own senders, in order.
pub open spec fn endpoint_sound(
    endpoint: EndpointView,
    senders: Seq<SenderState>,
    index: int,
) -> bool {
    &&& endpoint.sender_indices == senders_of(senders, index, senders.len())
    &&& forall|i: int|
        0 <= i < endpoint.ready.len() ==> belongs(senders, #[trigger] endpoint.ready[i], index)
    &&& forall|i: int|
        0 <= i < endpoint.delayed.len() ==> belongs(
            senders,
            (#[trigger] endpoint.delayed[i]).1,
            index,
        )
    &&& in_order(endpoint.delayed)
    &&& endpoint.submission_tasks <= MAX_SUBMISSION_TASKS_PER_ENDPOINT
}

/// Whether a sender exists and submits to the endpoint at `index`.
pub open spec fn belongs(senders: Seq<SenderState>, sender: usize, index: int) -> bool {
    sender < senders.len() && senders[sender as int].account.endpoint_index == index
}

/// Whether senders kept their accounts.
pub open spec fn same_accounts(left: Seq<SenderState>, right: Seq<SenderState>) -> bool {
    &&& left.len() == right.len()
    &&& forall|i: int|
        0 <= i < left.len() ==> (#[trigger] left[i]).account == (#[trigger] right[i]).account
}

proof fn senders_of_accounts(
    left: Seq<SenderState>,
    right: Seq<SenderState>,
    index: int,
    count: nat,
)
    requires
        same_accounts(left, right),
        count <= left.len(),
    ensures
        senders_of(left, index, count) == senders_of(right, index, count),
    decreases count,
{
    if count > 0 {
        senders_of_accounts(left, right, index, (count - 1) as nat);
        assert(left[count - 1].account == right[count - 1].account);
    }
}

/// An endpoint that is sound stays so while the senders keep their accounts.
pub(crate) proof fn soundness_needs_accounts(
    endpoint: EndpointView,
    left: Seq<SenderState>,
    right: Seq<SenderState>,
    index: int,
)
    requires
        endpoint_sound(endpoint, left, index),
        same_accounts(left, right),
    ensures
        endpoint_sound(endpoint, right, index),
{
    senders_of_accounts(left, right, index, left.len());
    assert forall|i: int| 0 <= i < endpoint.ready.len() implies belongs(
        right,
        #[trigger] endpoint.ready[i],
        index,
    ) by {
        let sender = endpoint.ready[i] as int;
        assert(belongs(left, endpoint.ready[i], index));
        assert(left[sender].account == right[sender].account);
    }
    assert forall|i: int| 0 <= i < endpoint.delayed.len() implies belongs(
        right,
        (#[trigger] endpoint.delayed[i]).1,
        index,
    ) by {
        let sender = endpoint.delayed[i].1 as int;
        assert(belongs(left, endpoint.delayed[i].1, index));
        assert(left[sender].account == right[sender].account);
    }
}

/// Builds the endpoints of a run: every sender waits for its first turn.
pub fn build_endpoint_states(endpoints: Vec<String>, senders: Vec<SenderState>) -> (scheduler:
    Scheduler)
    requires
        paced(senders@),
        forall|i: int|
            0 <= i < senders@.len() ==> (#[trigger] senders@[i]).account.endpoint_index
                < endpoints@.len(),
    ensures
        scheduler.well_formed(),
        scheduler.senders@.len() == senders@.len(),
        forall|i: int|
            0 <= i < senders@.len() ==> #[trigger] scheduler.senders@[i] == (SenderState {
                queued_ready: true,
                ..senders@[i]
            }),
        scheduler.endpoints@.len() == endpoints@.len(),
        forall|i: int|
            0 <= i < endpoints@.len() ==> (#[trigger] scheduler.endpoints@[i])@ == (EndpointView {
                endpoint: endpoints@[i]@,
                sender_indices: senders_of(senders@, i, senders@.len()),
                ready: senders_of(senders@, i, senders@.len()),
                delayed: Seq::empty(),
                submission_tasks: 0,
                completed: 0,
                failed: 0,
            }),
{
    let ghost names = endpoints@;
    let ghost before = senders@;
    let mut states: Vec<EndpointState> = Vec::new();
    for endpoint in iter: endpoints
        invariant
            iter.seq() == names,
            states@.len() == iter.index(),
            forall|i: int|
                0 <= i < states@.len() ==> (#[trigger] states@[i])@ == (EndpointView {
                    endpoint: names[i]@,
                    sender_indices: senders_of(before, i, 0),
                    ready: senders_of(before, i, 0),
                    delayed: Seq::empty(),
                    submission_tasks: 0,
                    completed: 0,
                    failed: 0,
                }),
    {
        states.push(EndpointState::new(endpoint));
    }
    let mut senders = senders;
    let mut k: usize = 0;
    while k < senders.len()
        invariant
            k <= before.len(),
            senders@.len() == before.len(),
            states@.len() == names.len(),
            forall|i: int|
                0 <= i < before.len() ==> (#[trigger] before[i]).account.endpoint_index
                    < names.len(),
            forall|i: int|
                0 <= i < before.len() ==> #[trigger] senders@[i] == (SenderState {
                    queued_ready: i < k || before[i].queued_ready,
                    ..before[i]
                }),
            forall|i: int|
                0 <= i < states@.len() ==> (#[trigger] states@[i])@ == (EndpointView {
                    endpoint: names[i]@,
                    sender_indices: senders_of(before, i, k as nat),
                    ready: senders_of(before, i, k as nat),
                    delayed: Seq::empty(),
                    submission_tasks: 0,
                    completed: 0,
                    failed: 0,
                }),
        decreases before.len() - k,
    {
        proof {
            assert(before[k as int].account == senders@[k as int].account);
        }
        let index: usize = senders[k].account.endpoint_index;
        states[index].sender_indices.push(k);
        states[index].ready.push_back(k);
        senders[k].queued_ready = true;
        k += 1;
    }
    let scheduler = Scheduler { endpoints: states, senders };
    proof {
        assert(same_accounts(before, scheduler.senders@));
        assert forall|i: int| 0 <= i < before.len() implies (
        #[trigger] scheduler.senders@[i]).retry_backoff_ms <= MAX_RETRY_BACKOFF_MS by {
            assert(before[i].retry_backoff_ms <= MAX_RETRY_BACKOFF_MS);
        }
        assert forall|i: int| 0 <= i < names.len() implies endpoint_sound(
            (#[trigger] scheduler.endpoints@[i])@,
            scheduler.senders@,
            i,
        ) by {
            senders_of_accounts(before, scheduler.senders@, i, before.len());
            senders_of_belong(scheduler.senders@, i, before.len());
        }
    }
    scheduler
}

pub(crate) proof fn senders_of_belong(senders: Seq<SenderState>, index: int, count: nat)
    requires
        count <= senders.len(),
        senders.len() <= usize::MAX,
    ensures
        forall|k: int|
            0 <= k < senders_of(senders, index, count).len() ==> belongs(
                senders,
                #[trigger] senders_of(senders, index, count)[k],
                index,
            ) && senders_of(senders, index, count)[k] < count,
    decreases count,
{
    if count > 0 {
        senders_of_belong(senders, index, (count - 1) as nat);
        let earlier = senders_of(senders, index, (count - 1) as nat);
        assert forall|k: int| 0 <= k < senders_of(senders, index, count).len() implies belongs(
            senders,
            #[trigger] senders_of(senders, index, count)[k],
            index,
        ) && senders_of(senders, index, count)[k] < count by {
            if k < earlier.len() {
                assert(belongs(senders, earlier[k], index));
            }
        }
    }
}

/// An endpoint and the senders after the delayed senders that are due had their turn.
pub open spec fn activated(
    endpoint: EndpointView,
    senders: Seq<SenderState>,
    now_ms: u64,
) -> (EndpointView, Seq<SenderState>)
    decreases endpoint.delayed.len(),
{
    if endpoint.delayed.len() == 0 || endpoint.delayed.last().0 > now_ms {
        (endpoint, senders)
    } else {
        let sender = endpoint.delayed.last().1;
        let rest = EndpointView { delayed: endpoint.delayed.drop_last(), ..endpoint };
        if senders[sender as int].pending_tx_hash is Some {
            activated(
                rest,
                senders.update(
                    sender as int,
                    SenderState { queued_ready: false, ..senders[sender as int] },
                ),
                now_ms,
            )
        } else {
            activated(
                EndpointView { ready: rest.ready.push(sender), ..rest },
                senders,
                now_ms,
            )
        }
    }
}

/// Every endpoint and the senders after the first `count` endpoints were activated.
pub open spec fn all_activated(
    endpoints: Seq<EndpointView>,
    senders: Seq<SenderState>,
    now_ms: u64,
    count: nat,
) -> (Seq<EndpointView>, Seq<SenderState>)
    decreases count,
{
    if count == 0 {
        (endpoints, senders)
    } else {
        let (earlier, before) = all_activated(endpoints, senders, now_ms, (count - 1) as nat);
        let (endpoint, after) = activated(earlier[count - 1], before, now_ms);
        (earlier.update(count - 1, endpoint), after)
    }
}

/// A submission to start.
#[derive(Debug, Clone, Copy, PartialEq, Eq, Structural)]
pub struct Submission {
    /// Index of the endpoint.
    pub endpoint_index: usize,
    /// Index of the sender.
    pub sender_index: usize,
    /// Nonce of the transaction.
    pub nonce: u64,
}

/// An endpoint, the senders, and the submissions to start, once the ready senders had their turn.
pub open spec fn spawned(
    endpoint: EndpointView,
    senders: Seq<SenderState>,
    started: Seq<Submission>,
    index: usize,
) -> (EndpointView, Seq<SenderState>, Seq<Submission>)
    decreases endpoint.ready.len(),
{
    if endpoint.ready.len() == 0 || endpoint.submission_tasks
        >= MAX_SUBMISSION_TASKS_PER_ENDPOINT {
        (endpoint, senders, started)
    } else {
        let sender = endpoint.ready[0];
        let rest = EndpointView { ready: endpoint.ready.skip(1), ..endpoint };
        let state = senders[sender as int];
        let after = senders.update(
            sender as int,
            SenderState { queued_ready: false, ..state },
        );
        if state.pending_tx_hash is Some {
            spawned(rest, after, started, index)
        } else {
            spawned(
                EndpointView {
                    submission_tasks: (rest.submission_tasks + 1) as usize,
                    ..rest
                },
                after,
                started.push(
                    Submission {
                        endpoint_index: index,
                        sender_index: sender,
                        nonce: state.next_nonce,
                    },
                ),
                index,
            )
        }
    }
}

/// Every endpoint, the senders, and the submissions to start, once the first `count` endpoints had
/// their turn.
pub open spec fn all_spawned(
    endpoints: Seq<EndpointView>,
    senders: Seq<SenderState>,
    count: nat,
) -> (Seq<EndpointView>, Seq<SenderState>, Seq<Submission>)
    decreases count,
{
    if count == 0 {
        (endpoints, senders, Seq::empty())
    } else {
        let (earlier, before, started) = all_spawned(endpoints, senders, (count - 1) as nat);
        let (endpoint, after, more) = spawned(
            earlier[count - 1],
            before,
            started,
            (count - 1) as usize,
        );
        (earlier.update(count - 1, endpoint), after, more)
    }
}

/// The outcome of a submission.
#[derive(Debug)]
pub struct SubmissionOutcome {
    /// Index of the sender.
    pub sender_index: usize,
    /// Hash of the transaction.
    pub tx_hash: String,
    /// Nonce of the transaction.
    pub nonce: u64,
    /// How the submission ended.
    pub result: Result<(), String>,
}

/// Whether no sender pauses longer than the longest pause.
pub open spec fn paced(senders: Seq<SenderState>) -> bool {
    forall|i: int|
        0 <= i < senders.len() ==> (#[trigger] senders[i]).retry_backoff_ms <= MAX_RETRY_BACKOFF_MS
}

impl Scheduler {
    /// Whether every sender has an endpoint, and the queues name only senders of their endpoint.
    pub open spec fn well_formed(self) -> bool {
        &&& paced(self.senders@)
        &&& forall|i: int|
            0 <= i < self.senders@.len() ==> (#[trigger] self.senders@[i]).account.endpoint_index
                < self.endpoints@.len()
        &&& forall|i: int|
            0 <= i < self.endpoints@.len() ==> endpoint_sound(
                (#[trigger] self.endpoints@[i])@,
                self.senders@,
                i,
            )
    }

    /// Lets a sender wait until a time.
    pub fn schedule_sender_retry(&mut self, sender_index: usize, ready_at_ms: u64)
        requires
            old(self).well_formed(),
            sender_index < old(self).senders@.len(),
        ensures
            final(self).well_formed(),
            final(self).senders@ == old(self).senders@.update(
                sender_index as int,
                SenderState { queued_ready: true, ..old(self).senders@[sender_index as int] },
            ),
            endpoint_views(final(self).endpoints@) == with_retry(
                endpoint_views(old(self).endpoints@),
                old(self).senders@[sender_index as int].account.endpoint_index as int,
                (ready_at_ms, sender_index),
            ),
    {
        let ghost before = *self;
        let endpoint_index: usize = self.senders[sender_index].account.endpoint_index;
        self.senders[sender_index].queued_ready = true;
        proof {
            assert(same_accounts(before.senders@, self.senders@));
            assert(endpoint_sound(
                before.endpoints@[endpoint_index as int]@,
                before.senders@,
                endpoint_index as int,
            ));
            placing_keeps_order(
                before.endpoints@[endpoint_index as int]@.delayed,
                (ready_at_ms, sender_index),
            );
        }
        place(&mut self.endpoints[endpoint_index].delayed, (ready_at_ms, sender_index));
        proof {
            assert forall|i: int| 0 <= i < self.endpoints@.len() implies endpoint_sound(
                (#[trigger] self.endpoints@[i])@,
                self.senders@,
                i,
            ) by {
                soundness_needs_accounts(before.endpoints@[i]@, before.senders@, self.senders@, i);
                if i == endpoint_index {
                    let delayed = self.endpoints@[i]@.delayed;
                    let earlier = before.endpoints@[i]@.delayed;
                    assert forall|k: int| 0 <= k < delayed.len() implies belongs(
                        self.senders@,
                        (#[trigger] delayed[k]).1,
                        i,
                    ) by {
                        if delayed[k] != (ready_at_ms, sender_index) {
                            let at = choose|at: int|
                                0 <= at < earlier.len() && earlier[at] == delayed[k];
                            assert(belongs(self.senders@, earlier[at].1, i));
                        }
                    }
                } else {
                    assert(self.endpoints@[i] == before.endpoints@[i]);
                }
            }
            assert(endpoint_views(self.endpoints@) =~= with_retry(
                endpoint_views(before.endpoints@),
                endpoint_index as int,
                (ready_at_ms, sender_index),
            ));
        }
    }
}

impl Scheduler {
    /// Gives the delayed senders of an endpoint that are due their turn. One whose transaction is
    /// not settled yet leaves the queue.
    fn activate_endpoint(&mut self, index: usize, now_ms: u64)
        requires
            old(self).well_formed(),
            index < old(self).endpoints@.len(),
        ensures
            final(self).well_formed(),
            endpoint_views(final(self).endpoints@) == endpoint_views(
                old(self).endpoints@,
            ).update(
                index as int,
                activated(old(self).endpoints@[index as int]@, old(self).senders@, now_ms).0,
            ),
            final(self).senders@ == activated(
                old(self).endpoints@[index as int]@,
                old(self).senders@,
                now_ms,
            ).1,
    {
        let ghost before = *self;
        let ghost goal = activated(before.endpoints@[index as int]@, before.senders@, now_ms);
        proof {
            assert(endpoint_sound(
                before.endpoints@[index as int]@,
                before.senders@,
                index as int,
            ));
            assert(same_accounts(before.senders@, before.senders@));
        }
        while self.endpoints[index].delayed.len() > 0 && self.endpoints[index].delayed[self.endpoints[index].delayed.len()
            - 1].0 <= now_ms
            invariant
                index < self.endpoints@.len(),
                self.endpoints@.len() == before.endpoints@.len(),
                forall|i: int|
                    0 <= i < before.endpoints@.len() && i != index ==> #[trigger] self.endpoints@[i]
                        == before.endpoints@[i],
                same_accounts(before.senders@, self.senders@),
                paced(self.senders@),
                endpoint_sound(self.endpoints@[index as int]@, self.senders@, index as int),
                activated(self.endpoints@[index as int]@, self.senders@, now_ms) == goal,
            decreases self.endpoints@[index as int].delayed@.len(),
        {
            let ghost now = self.endpoints@[index as int]@;
            let ghost then_senders = self.senders@;
            if let Some(entry) = self.endpoints[index].delayed.pop() {
                let sender: usize = entry.1;
                proof {
                    assert(entry == now.delayed.last());
                    assert(belongs(then_senders, now.delayed[now.delayed.len() - 1].1, index as int));
                    assert(self.endpoints@[index as int]@.delayed =~= now.delayed.drop_last());
                }
                if self.senders[sender].pending_tx_hash.is_some() {
                    self.senders[sender].queued_ready = false;
                    proof {
                        soundness_needs_accounts(now, then_senders, self.senders@, index as int);
                    }
                } else {
                    self.endpoints[index].ready.push_back(sender);
                }
                proof {
                    let after = self.endpoints@[index as int]@;
                    assert forall|k: int| 0 <= k < after.ready.len() implies belongs(
                        self.senders@,
                        #[trigger] after.ready[k],
                        index as int,
                    ) by {
                        if k < now.ready.len() {
                            assert(belongs(self.senders@, now.ready[k], index as int));
                        }
                    }
                    assert forall|k: int| 0 <= k < after.delayed.len() implies belongs(
                        self.senders@,
                        (#[trigger] after.delayed[k]).1,
                        index as int,
                    ) by {
                        assert(belongs(self.senders@, now.delayed[k].1, index as int));
                    }
                }
            }
        }
        proof {
            assert forall|i: int| 0 <= i < self.endpoints@.len() implies endpoint_sound(
                (#[trigger] self.endpoints@[i])@,
                self.senders@,
                i,
            ) by {
                if i != index {
                    soundness_needs_accounts(
                        before.endpoints@[i]@,
                        before.senders@,
                        self.senders@,
                        i,
                    );
                }
            }
            assert forall|i: int| 0 <= i < self.senders@.len() implies (
            #[trigger] self.senders@[i]).account.endpoint_index < self.endpoints@.len() by {
                assert(before.senders@[i].account == self.senders@[i].account);
            }
            assert(endpoint_views(self.endpoints@) =~= endpoint_views(before.endpoints@).update(
                index as int,
                goal.0,
            ));
        }
    }

    /// Gives every delayed sender that is due its turn.
    pub fn activate_ready_senders(&mut self, now_ms: u64)
        requires
            old(self).well_formed(),
        ensures
            final(self).well_formed(),
            (endpoint_views(final(self).endpoints@), final(self).senders@) == all_activated(
                endpoint_views(old(self).endpoints@),
                old(self).senders@,
                now_ms,
                old(self).endpoints@.len(),
            ),
    {
        let ghost before = *self;
        let mut index: usize = 0;
        while index < self.endpoints.len()
            invariant
                index <= before.endpoints@.len(),
                self.endpoints@.len() == before.endpoints@.len(),
                self.well_formed(),
                (endpoint_views(self.endpoints@), self.senders@) == all_activated(
                    endpoint_views(before.endpoints@),
                    before.senders@,
                    now_ms,
                    index as nat,
                ),
            decreases before.endpoints@.len() - index,
        {
            let ghost now = *self;
            self.activate_endpoint(index, now_ms);
            proof {
                assert(endpoint_views(self.endpoints@).len() == endpoint_views(
                    now.endpoints@,
                ).len());
                assert(endpoint_views(now.endpoints@)[index as int]
                    == now.endpoints@[index as int]@);
            }
            index += 1;
        }
    }

    /// Gives the ready senders of an endpoint their turn, within the limit on running submissions.
    fn spawn_endpoint(&mut self, index: usize, started: &mut Vec<Submission>)
        requires
            old(self).well_formed(),
            index < old(self).endpoints@.len(),
        ensures
            final(self).well_formed(),
            endpoint_views(final(self).endpoints@) == endpoint_views(
                old(self).endpoints@,
            ).update(
                index as int,
                spawned(
                    old(self).endpoints@[index as int]@,
                    old(self).senders@,
                    old(started)@,
                    index,
                ).0,
            ),
            final(self).senders@ == spawned(
                old(self).endpoints@[index as int]@,
                old(self).senders@,
                old(started)@,
                index,
            ).1,
            final(started)@ == spawned(
                old(self).endpoints@[index as int]@,
                old(self).senders@,
                old(started)@,
                index,
            ).2,
    {
        let ghost before = *self;
        let ghost goal = spawned(
            before.endpoints@[index as int]@,
            before.senders@,
            started@,
            index,
        );
        proof {
            assert(endpoint_sound(
                before.endpoints@[index as int]@,
                before.senders@,
                index as int,
            ));
            assert(same_accounts(before.senders@, before.senders@));
        }
        while self.endpoints[index].submission_tasks < MAX_SUBMISSION_TASKS_PER_ENDPOINT
            && self.endpoints[index].ready.len() > 0
            invariant
                index < self.endpoints@.len(),
                self.endpoints@.len() == before.endpoints@.len(),
                forall|i: int|
                    0 <= i < before.endpoints@.len() && i != index ==> #[trigger] self.endpoints@[i]
                        == before.endpoints@[i],
                same_accounts(before.senders@, self.senders@),
                paced(self.senders@),
                endpoint_sound(self.endpoints@[index as int]@, self.senders@, index as int),
                spawned(
                    self.endpoints@[index as int]@,
                    self.senders@,
                    started@,
                    index,
                ) == goal,
            decreases self.endpoints@[index as int].ready@.len(),
        {
            let ghost now = self.endpoints@[index as int]@;
            let ghost then_senders = self.senders@;
            if let Some(sender) = self.endpoints[index].ready.pop_front() {
                proof {
                    assert(belongs(then_senders, now.ready[0], index as int));
                    assert(self.endpoints@[index as int]@.ready =~= now.ready.skip(1));
                }
                self.senders[sender].queued_ready = false;
                proof {
                    soundness_needs_accounts(now, then_senders, self.senders@, index as int);
                }
                if self.senders[sender].pending_tx_hash.is_none() {
                    let nonce: u64 = self.senders[sender].next_nonce;
                    self.endpoints[index].submission_tasks =
                    self.endpoints[index].submission_tasks + 1;
                    started.push(
                        Submission { endpoint_index: index, sender_index: sender, nonce },
                    );
                }
                proof {
                    let after = self.endpoints@[index as int]@;
                    assert forall|k: int| 0 <= k < after.ready.len() implies belongs(
                        self.senders@,
                        #[trigger] after.ready[k],
                        index as int,
                    ) by {
                        assert(belongs(self.senders@, now.ready[k + 1], index as int));
                    }
                    assert(after.delayed == now.delayed);
                }
            }
        }
        proof {
            assert forall|i: int| 0 <= i < self.endpoints@.len() implies endpoint_sound(
                (#[trigger] self.endpoints@[i])@,
                self.senders@,
                i,
            ) by {
                if i != index {
                    soundness_needs_accounts(
                        before.endpoints@[i]@,
                        before.senders@,
                        self.senders@,
                        i,
                    );
                }
            }
            assert forall|i: int| 0 <= i < self.senders@.len() implies (
            #[trigger] self.senders@[i]).account.endpoint_index < self.endpoints@.len() by {
                assert(before.senders@[i].account == self.senders@[i].account);
            }
            assert(endpoint_views(self.endpoints@) =~= endpoint_views(before.endpoints@).update(
                index as int,
                goal.0,
            ));
        }
    }

    /// Gives every ready sender its turn and returns the submissions to start.
    pub fn spawn_submissions(&mut self) -> (started: Vec<Submission>)
        requires
            old(self).well_formed(),
        ensures
            final(self).well_formed(),
            (
                endpoint_views(final(self).endpoints@),
                final(self).senders@,
                started@,
            ) == all_spawned(
                endpoint_views(old(self).endpoints@),
                old(self).senders@,
                old(self).endpoints@.len(),
            ),
    {
        let ghost before = *self;
        let mut started: Vec<Submission> = Vec::new();
        let mut index: usize = 0;
        while index < self.endpoints.len()
            invariant
                index <= before.endpoints@.len(),
                self.endpoints@.len() == before.endpoints@.len(),
                self.well_formed(),
                (endpoint_views(self.endpoints@), self.senders@, started@) == all_spawned(
                    endpoint_views(before.endpoints@),
                    before.senders@,
                    index as nat,
                ),
            decreases before.endpoints@.len() - index,
        {
            let ghost now = *self;
            self.spawn_endpoint(index, &mut started);
            proof {
                assert(endpoint_views(self.endpoints@).len() == endpoint_views(
                    now.endpoints@,
                ).len());
                assert(endpoint_views(now.endpoints@)[index as int]
                    == now.endpoints@[index as int]@);
            }
            index += 1;
        }
        started
    }
}

/// Endpoints with one more delayed sender.
pub open spec fn with_retry(
    endpoints: Seq<EndpointView>,
    index: int,
    entry: (u64, usize),
) -> Seq<EndpointView> {
    endpoints.update(
        index,
        EndpointView { delayed: placed(endpoints[index].delayed, entry), ..endpoints[index] },
    )
}

/// Whether senders kept their nonces and unsettled transactions.
pub open spec fn same_transactions(left: Seq<SenderState>, right: Seq<SenderState>) -> bool {
    &&& left.len() == right.len()
    &&& forall|i: int|
        0 <= i < left.len() ==> (#[trigger] left[i]).next_nonce == (#[trigger] right[i]).next_nonce
            && left[i].pending_tx_hash == right[i].pending_tx_hash
}

proof fn same_transactions_chain(
    first: Seq<SenderState>,
    second: Seq<SenderState>,
    third: Seq<SenderState>,
)
    requires
        same_transactions(first, second),
        same_transactions(second, third),
    ensures
        same_transactions(first, third),
{
    assert forall|i: int| 0 <= i < first.len() implies (#[trigger] first[i]).next_nonce == (
    #[trigger] third[i]).next_nonce && first[i].pending_tx_hash == third[i].pending_tx_hash by {
        assert(first[i].next_nonce == second[i].next_nonce);
    }
}

/// Activation leaves no delayed sender that is due, gives each that is due at most one turn, and
/// changes no nonce and no unsettled transaction.
pub proof fn activation_serves_the_due(
    endpoint: EndpointView,
    senders: Seq<SenderState>,
    now_ms: u64,
)
    requires
        in_order(endpoint.delayed),
        forall|i: int|
            0 <= i < endpoint.delayed.len() ==> (#[trigger] endpoint.delayed[i]).1 < senders.len(),
    ensures
        ({
            let (after, later) = activated(endpoint, senders, now_ms);
            &&& forall|i: int|
                0 <= i < after.delayed.len() ==> (#[trigger] after.delayed[i]).0 > now_ms
            &&& after.delayed == endpoint.delayed.take(after.delayed.len() as int)
            &&& after.ready.len() + after.delayed.len() <= endpoint.ready.len()
                + endpoint.delayed.len()
            &&& after.ready.len() >= endpoint.ready.len()
            &&& after.ready.take(endpoint.ready.len() as int) == endpoint.ready
            &&& same_transactions(senders, later)
        }),
    decreases endpoint.delayed.len(),
{
    if endpoint.delayed.len() == 0 || endpoint.delayed.last().0 > now_ms {
        assert forall|i: int| 0 <= i < endpoint.delayed.len() implies (
        #[trigger] endpoint.delayed[i]).0 > now_ms by {
            if i < endpoint.delayed.len() - 1 {
                assert(waits_longer(
                    endpoint.delayed[i],
                    endpoint.delayed[endpoint.delayed.len() - 1],
                ));
            }
        }
        assert(endpoint.delayed.take(endpoint.delayed.len() as int) =~= endpoint.delayed);
        assert(endpoint.ready.take(endpoint.ready.len() as int) =~= endpoint.ready);
    } else {
        let last = endpoint.delayed[endpoint.delayed.len() - 1];
        let sender = last.1;
        let rest = EndpointView { delayed: endpoint.delayed.drop_last(), ..endpoint };
        assert forall|i: int| 0 <= i < rest.delayed.len() implies (#[trigger] rest.delayed[i]).1
            < senders.len() by {
            assert(rest.delayed[i] == endpoint.delayed[i]);
        }
        let (after, later) = activated(endpoint, senders, now_ms);
        if senders[sender as int].pending_tx_hash is Some {
            let freed = senders.update(
                sender as int,
                SenderState { queued_ready: false, ..senders[sender as int] },
            );
            activation_serves_the_due(rest, freed, now_ms);
            assert(same_transactions(senders, freed));
            same_transactions_chain(senders, freed, later);
        } else {
            let queued = EndpointView { ready: rest.ready.push(sender), ..rest };
            activation_serves_the_due(queued, senders, now_ms);
            assert(after.ready.take(endpoint.ready.len() as int) =~= after.ready.take(
                queued.ready.len() as int,
            ).take(endpoint.ready.len() as int));
            assert(queued.ready.take(endpoint.ready.len() as int) =~= endpoint.ready);
        }
        assert(rest.delayed.take(after.delayed.len() as int) =~= endpoint.delayed.take(
            after.delayed.len() as int,
        ));
    }
}

/// Only senders without an unsettled transaction submit, each at its next nonce; no endpoint runs
/// more submissions than it may; and starting them changes no nonce and no unsettled transaction.
pub proof fn submissions_are_fresh(
    endpoint: EndpointView,
    senders: Seq<SenderState>,
    started: Seq<Submission>,
    index: usize,
)
    requires
        endpoint.submission_tasks <= MAX_SUBMISSION_TASKS_PER_ENDPOINT,
        forall|i: int|
            0 <= i < endpoint.ready.len() ==> #[trigger] endpoint.ready[i] < senders.len(),
        forall|i: int|
            0 <= i < started.len() ==> starts_fresh(senders, #[trigger] started[i]),
    ensures
        ({
            let (after, later, all) = spawned(endpoint, senders, started, index);
            &&& after.submission_tasks <= MAX_SUBMISSION_TASKS_PER_ENDPOINT
            &&& after.submission_tasks - endpoint.submission_tasks == all.len() - started.len()
            &&& forall|i: int| 0 <= i < all.len() ==> starts_fresh(senders, #[trigger] all[i])
            &&& same_transactions(senders, later)
        }),
    decreases endpoint.ready.len(),
{
    if !(endpoint.ready.len() == 0 || endpoint.submission_tasks
        >= MAX_SUBMISSION_TASKS_PER_ENDPOINT) {
        let sender = endpoint.ready[0];
        let rest = EndpointView { ready: endpoint.ready.skip(1), ..endpoint };
        let state = senders[sender as int];
        let freed = senders.update(sender as int, SenderState { queued_ready: false, ..state });
        assert forall|i: int| 0 <= i < rest.ready.len() implies #[trigger] rest.ready[i]
            < senders.len() by {
            assert(rest.ready[i] == endpoint.ready[i + 1]);
        }
        assert(same_transactions(senders, freed));
        let more = if state.pending_tx_hash is Some {
            started
        } else {
            started.push(
                Submission {
                    endpoint_index: index,
                    sender_index: sender,
                    nonce: state.next_nonce,
                },
            )
        };
        let next = if state.pending_tx_hash is Some {
            rest
        } else {
            EndpointView { submission_tasks: (rest.submission_tasks + 1) as usize, ..rest }
        };
        assert forall|i: int| 0 <= i < more.len() implies starts_fresh(freed, #[trigger] more[i]) by {
            if i < started.len() {
                assert(starts_fresh(senders, started[i]));
                let other = started[i].sender_index as int;
                assert(senders[other].next_nonce == freed[other].next_nonce);
            }
        }
        submissions_are_fresh(next, freed, more, index);
        let (after, later, all) = spawned(next, freed, more, index);
        same_transactions_chain(senders, freed, later);
        assert forall|i: int| 0 <= i < all.len() implies starts_fresh(senders, #[trigger] all[i]) by {
            assert(starts_fresh(freed, all[i]));
            let other = all[i].sender_index as int;
            assert(senders[other].next_nonce == freed[other].next_nonce);
        }
    }
}

/// Whether a submission is of a sender without an unsettled transaction, at its next nonce.
pub open spec fn starts_fresh(senders: Seq<SenderState>, submission: Submission) -> bool {
    &&& submission.sender_index < senders.len()
    &&& senders[submission.sender_index as int].pending_tx_hash is None
    &&& submission.nonce == senders[submission.sender_index as int].next_nonce
}

/// Endpoints once a submission of the endpoint at `index` is over.
pub open spec fn with_task_over(endpoints: Seq<EndpointView>, index: int) -> Seq<EndpointView> {
    endpoints.update(
        index,
        EndpointView {
            submission_tasks: (endpoints[index].submission_tasks - 1) as usize,
            ..endpoints[index]
        },
    )
}

/// Endpoints with one more failed transaction at `index`.
pub open spec fn with_failure(endpoints: Seq<EndpointView>, index: int) -> Seq<EndpointView> {
    endpoints.update(
        index,
        EndpointView { failed: (endpoints[index].failed + 1) as usize, ..endpoints[index] },
    )
}

/// Whether `after` and `result` follow from the outcome of a submission.
pub open spec fn completes(
    before: Scheduler,
    after: Scheduler,
    outcome: SubmissionOutcome,
    now_ms: u64,
    result: Result<(), SenderFailure>,
) -> bool {
    let sender = before.senders@[outcome.sender_index as int];
    let index = sender.account.endpoint_index as int;
    let endpoints = with_task_over(endpoint_views(before.endpoints@), index);
    match outcome.result {
        Ok(()) => {
            &&& result is Ok
            &&& endpoint_views(after.endpoints@) == endpoints
            &&& after.senders@ == before.senders@.update(
                outcome.sender_index as int,
                SenderState {
                    pending_tx_hash: Some(outcome.tx_hash),
                    retry_backoff_ms: INITIAL_RETRY_BACKOFF_MS,
                    ..sender
                },
            )
        },
        Err(err) => {
            let pause = crate::spammer::spam::backoff_after(sender.retry_backoff_ms, err@);
            match crate::spammer::spam::error_kind(err@) {
                SubmissionErrorKind::Fatal => {
                    &&& endpoint_views(after.endpoints@) == with_failure(endpoints, index)
                    &&& after.senders@ == before.senders@
                    &&& result matches Err(failure) && {
                        &&& failure.endpoint@ == endpoints[index].endpoint
                        &&& failure.sender_index == outcome.sender_index
                        &&& failure.nonce == outcome.nonce
                        &&& failure.reason == err
                    }
                },
                SubmissionErrorKind::RetryRejected => {
                    &&& result is Ok
                    &&& endpoint_views(after.endpoints@) == with_retry(
                        endpoints,
                        index,
                        ((now_ms + pause) as u64, outcome.sender_index),
                    )
                    &&& after.senders@ == before.senders@.update(
                        outcome.sender_index as int,
                        SenderState { retry_backoff_ms: pause, queued_ready: true, ..sender },
                    )
                },
                SubmissionErrorKind::RetryCheckStatus => {
                    &&& result is Ok
                    &&& endpoint_views(after.endpoints@) == with_retry(
                        endpoints,
                        index,
                        ((now_ms + pause) as u64, outcome.sender_index),
                    )
                    &&& after.senders@ == before.senders@.update(
                        outcome.sender_index as int,
                        SenderState {
                            retry_backoff_ms: pause,
                            pending_tx_hash: Some(outcome.tx_hash),
                            queued_ready: true,
                            ..sender
                        },
                    )
                },
            }
        },
    }
}

/// An endpoint is as sound with other counters.
proof fn soundness_needs_no_counters(
    left: EndpointView,
    right: EndpointView,
    senders: Seq<SenderState>,
    index: int,
)
    requires
        endpoint_sound(left, senders, index),
        right.sender_indices == left.sender_indices,
        right.ready == left.ready,
        right.delayed == left.delayed,
        right.submission_tasks <= left.submission_tasks,
    ensures
        endpoint_sound(right, senders, index),
{
}

impl Scheduler {
    /// Takes in the outcome of a submission. A rejected transaction is submitted again after a
    /// pause; one that may have been taken has its status checked first; and one that can never be
    /// taken fails.
    pub fn handle_submission_completion(&mut self, outcome: SubmissionOutcome, now_ms: u64) -> (
        result: Result<(), SenderFailure>)
        requires
            old(self).well_formed(),
            outcome.sender_index < old(self).senders@.len(),
            ({
                let index = old(self).senders@[outcome.sender_index as int].account.endpoint_index as int;
                &&& old(self).endpoints@[index].submission_tasks > 0
                &&& old(self).endpoints@[index].failed < usize::MAX
            }),
            now_ms + MAX_RETRY_BACKOFF_MS <= u64::MAX,
        ensures
            final(self).well_formed(),
            completes(*old(self), *final(self), outcome, now_ms, result),
    {
        let ghost before = *self;
        let sender_index: usize = outcome.sender_index;
        let index: usize = self.senders[sender_index].account.endpoint_index;
        self.endpoints[index].submission_tasks = self.endpoints[index].submission_tasks - 1;
        proof {
            self.recount(before, index as int);
            assert(endpoint_views(self.endpoints@) =~= with_task_over(
                endpoint_views(before.endpoints@),
                index as int,
            ));
        }
        let ghost relieved = *self;
        match outcome.result {
            Ok(()) => {
                self.senders[sender_index].pending_tx_hash = Some(outcome.tx_hash);
                self.senders[sender_index].retry_backoff_ms = INITIAL_RETRY_BACKOFF_MS;
                proof {
                    self.keep_accounts(relieved);
                    assert(self.senders@ =~= before.senders@.update(
                        sender_index as int,
                        SenderState {
                            pending_tx_hash: Some(outcome.tx_hash),
                            retry_backoff_ms: INITIAL_RETRY_BACKOFF_MS,
                            ..before.senders@[sender_index as int]
                        },
                    ));
                }
                Ok(())
            },
            Err(err) => {
                proof {
                    crate::spammer::spam::backoff_is_bounded(
                        before.senders@[sender_index as int].retry_backoff_ms,
                        err@,
                    );
                }
                match classify_submission_error(err.as_str()) {
                    SubmissionErrorKind::Fatal => {
                        self.endpoints[index].failed = self.endpoints[index].failed + 1;
                        proof {
                            self.recount(relieved, index as int);
                            assert(endpoint_views(self.endpoints@) =~= with_failure(
                                endpoint_views(relieved.endpoints@),
                                index as int,
                            ));
                        }
                        Err(
                            SenderFailure {
                                endpoint: self.endpoints[index].endpoint.clone(),
                                sender_index,
                                nonce: outcome.nonce,
                                reason: err,
                            },
                        )
                    },
                    SubmissionErrorKind::RetryRejected => {
                        let pause_ms: u64 = next_retry_backoff(
                            self.senders[sender_index].retry_backoff_ms,
                            err.as_str(),
                        );
                        self.senders[sender_index].retry_backoff_ms = pause_ms;
                        proof {
                            self.keep_accounts(relieved);
                        }
                        self.schedule_sender_retry(sender_index, now_ms + pause_ms);
                        proof {
                            assert(self.senders@ =~= before.senders@.update(
                                sender_index as int,
                                SenderState {
                                    retry_backoff_ms: pause_ms,
                                    queued_ready: true,
                                    ..before.senders@[sender_index as int]
                                },
                            ));
                        }
                        Ok(())
                    },
                    SubmissionErrorKind::RetryCheckStatus => {
                        let pause_ms: u64 = next_retry_backoff(
                            self.senders[sender_index].retry_backoff_ms,
                            err.as_str(),
                        );
                        self.senders[sender_index].retry_backoff_ms = pause_ms;
                        self.senders[sender_index].pending_tx_hash = Some(outcome.tx_hash);
                        proof {
                            self.keep_accounts(relieved);
                        }
                        self.schedule_sender_retry(sender_index, now_ms + pause_ms);
                        proof {
                            assert(self.senders@ =~= before.senders@.update(
                                sender_index as int,
                                SenderState {
                                    retry_backoff_ms: pause_ms,
                                    pending_tx_hash: Some(outcome.tx_hash),
                                    queued_ready: true,
                                    ..before.senders@[sender_index as int]
                                },
                            ));
                        }
                        Ok(())
                    },
                }
            },
        }
    }

    /// Changing the counters of an endpoint keeps the scheduler well-formed.
    pub(crate) proof fn recount(self, before: Scheduler, index: int)
        requires
            before.well_formed(),
            0 <= index < before.endpoints@.len(),
            self.senders@ == before.senders@,
            self.endpoints@.len() == before.endpoints@.len(),
            forall|i: int|
                0 <= i < before.endpoints@.len() && i != index ==> #[trigger] self.endpoints@[i]
                    == before.endpoints@[i],
            self.endpoints@[index]@.sender_indices == before.endpoints@[index]@.sender_indices,
            self.endpoints@[index]@.ready == before.endpoints@[index]@.ready,
            self.endpoints@[index]@.delayed == before.endpoints@[index]@.delayed,
            self.endpoints@[index]@.submission_tasks <= before.endpoints@[index]@.submission_tasks,
        ensures
            self.well_formed(),
    {
        assert forall|i: int| 0 <= i < self.endpoints@.len() implies endpoint_sound(
            (#[trigger] self.endpoints@[i])@,
            self.senders@,
            i,
        ) by {
            assert(endpoint_sound(before.endpoints@[i]@, before.senders@, i));
            soundness_needs_no_counters(
                before.endpoints@[i]@,
                self.endpoints@[i]@,
                self.senders@,
                i,
            );
        }
    }

    /// Changing senders but not their accounts keeps the scheduler well-formed.
    pub(crate) proof fn keep_accounts(self, before: Scheduler)
        requires
            before.well_formed(),
            self.endpoints@ == before.endpoints@,
            same_accounts(before.senders@, self.senders@),
            paced(self.senders@),
        ensures
            self.well_formed(),
    {
        assert forall|i: int| 0 <= i < self.senders@.len() implies (
        #[trigger] self.senders@[i]).account.endpoint_index < self.endpoints@.len() by {
            assert(before.senders@[i].account == self.senders@[i].account);
        }
        assert forall|i: int| 0 <= i < self.endpoints@.len() implies endpoint_sound(
            (#[trigger] self.endpoints@[i])@,
            self.senders@,
            i,
        ) by {
            soundness_needs_accounts(before.endpoints@[i]@, before.senders@, self.senders@, i);
        }
    }
}

/// Every delayed sender that is due leaves the queue, and joins the ready ones unless its
/// transaction is not settled yet. One that is not due keeps waiting.
pub proof fn due_senders_get_their_turn(
    endpoint: EndpointView,
    senders: Seq<SenderState>,
    now_ms: u64,
    at: int,
)
    requires
        in_order(endpoint.delayed),
        forall|i: int|
            0 <= i < endpoint.delayed.len() ==> (#[trigger] endpoint.delayed[i]).1 < senders.len(),
        0 <= at < endpoint.delayed.len(),
    ensures
        ({
            let (after, later) = activated(endpoint, senders, now_ms);
            let (ready_at, sender) = endpoint.delayed[at];
            &&& ready_at > now_ms ==> at < after.delayed.len() && after.delayed[at] == (
                ready_at,
                sender,
            )
            &&& ready_at <= now_ms ==> at >= after.delayed.len()
            &&& ready_at <= now_ms && senders[sender as int].pending_tx_hash is None
                ==> after.ready.skip(endpoint.ready.len() as int).contains(sender)
            &&& forall|i: int|
                endpoint.ready.len() <= i < after.ready.len() ==> {
                    &&& #[trigger] after.ready[i] < senders.len()
                    &&& senders[after.ready[i] as int].pending_tx_hash is None
                }
        }),
    decreases endpoint.delayed.len(),
{
    let (after, later) = activated(endpoint, senders, now_ms);
    let base = endpoint.ready.len() as int;
    activation_serves_the_due(endpoint, senders, now_ms);
    if endpoint.delayed.last().0 > now_ms {
        assert(waits_longer(endpoint.delayed[at], endpoint.delayed.last())) by {
            if at < endpoint.delayed.len() - 1 {
                assert(waits_longer(
                    endpoint.delayed[at],
                    endpoint.delayed[endpoint.delayed.len() - 1],
                ));
            }
        }
    } else {
        let sender = endpoint.delayed.last().1;
        let rest = EndpointView { delayed: endpoint.delayed.drop_last(), ..endpoint };
        assert(in_order(rest.delayed)) by {
            assert forall|i: int, j: int| 0 <= i < j < rest.delayed.len() implies waits_longer(
                #[trigger] rest.delayed[i],
                #[trigger] rest.delayed[j],
            ) by {
                assert(waits_longer(endpoint.delayed[i], endpoint.delayed[j]));
            }
        }
        assert(endpoint.delayed[endpoint.delayed.len() - 1] == endpoint.delayed.last());
        assert forall|i: int| 0 <= i < rest.delayed.len() implies (#[trigger] rest.delayed[i]).1
            < senders.len() by {
            assert(rest.delayed[i] == endpoint.delayed[i]);
        }
        let (next, now) = if senders[sender as int].pending_tx_hash is Some {
            (
                rest,
                senders.update(
                    sender as int,
                    SenderState { queued_ready: false, ..senders[sender as int] },
                ),
            )
        } else {
            (EndpointView { ready: rest.ready.push(sender), ..rest }, senders)
        };
        assert(activated(next, now, now_ms) == (after, later));
        activation_serves_the_due(next, now, now_ms);
        assert(next.delayed == rest.delayed);
        assert(after.delayed.len() <= rest.delayed.len());
        assert forall|i: int| base <= i < after.ready.len() implies {
            &&& #[trigger] after.ready[i] < senders.len()
            &&& senders[after.ready[i] as int].pending_tx_hash is None
        } by {
            if next.delayed.len() > 0 {
                due_senders_get_their_turn(next, now, now_ms, 0);
            }
            assert(next.ready == after.ready.take(next.ready.len() as int));
            if i < next.ready.len() {
                assert(after.ready.take(next.ready.len() as int)[i] == next.ready[i]);
            } else {
                assert(now[after.ready[i] as int].pending_tx_hash is None);
            }
        }
        if at < rest.delayed.len() {
            due_senders_get_their_turn(next, now, now_ms, at);
            assert(next.delayed[at] == endpoint.delayed[at]);
            let (ready_at, due) = endpoint.delayed[at];
            if ready_at <= now_ms && senders[due as int].pending_tx_hash is None {
                let skipped = after.ready.skip(next.ready.len() as int);
                let k = choose|k: int| 0 <= k < skipped.len() && skipped[k] == due;
                let shift = next.ready.len() - base;
                assert(after.ready.skip(base)[shift + k] == due);
            }
        } else if senders[sender as int].pending_tx_hash is None {
            assert(after.ready.take(next.ready.len() as int)[base] == next.ready[base]);
            assert(after.ready.skip(base)[0] == sender);
        }
    }
}

/// Ready senders have their turn in order until none is left or the endpoint runs 256 submissions.
/// Each whose turn came, and whose transactions were all settled, is among the submissions, for
/// this endpoint.
pub proof fn turns_are_taken_in_order(
    endpoint: EndpointView,
    senders: Seq<SenderState>,
    started: Seq<Submission>,
    index: usize,
    at: int,
)
    requires
        endpoint.submission_tasks <= 256,
        forall|i: int|
            0 <= i < endpoint.ready.len() ==> #[trigger] endpoint.ready[i] < senders.len(),
    ensures
        ({
            let (after, later, all) = spawned(endpoint, senders, started, index);
            let taken = endpoint.ready.len() - after.ready.len();
            &&& after.ready.len() <= endpoint.ready.len()
            &&& after.ready == endpoint.ready.skip(taken)
            &&& after.ready.len() == 0 || after.submission_tasks == 256
            &&& after.delayed == endpoint.delayed
            &&& started.is_prefix_of(all)
            &&& forall|i: int|
                started.len() <= i < all.len() ==> (#[trigger] all[i]).endpoint_index == index
            &&& 0 <= at < taken && senders[endpoint.ready[at] as int].pending_tx_hash is None
                ==> exists|i: int|
                started.len() <= i < all.len() && (#[trigger] all[i]).sender_index
                    == endpoint.ready[at]
        }),
    decreases endpoint.ready.len(),
{
    let (after, later, all) = spawned(endpoint, senders, started, index);
    if endpoint.ready.len() == 0 || endpoint.submission_tasks >= 256 {
        assert(endpoint.ready.skip(0) =~= endpoint.ready);
    } else {
        let sender = endpoint.ready[0];
        let rest = EndpointView { ready: endpoint.ready.skip(1), ..endpoint };
        let state = senders[sender as int];
        let now = senders.update(sender as int, SenderState { queued_ready: false, ..state });
        let submission = Submission {
            endpoint_index: index,
            sender_index: sender,
            nonce: state.next_nonce,
        };
        let (next, begun) = if state.pending_tx_hash is Some {
            (rest, started)
        } else {
            (
                EndpointView { submission_tasks: (rest.submission_tasks + 1) as usize, ..rest },
                started.push(submission),
            )
        };
        assert forall|i: int| 0 <= i < next.ready.len() implies #[trigger] next.ready[i]
            < now.len() by {
            assert(next.ready[i] == endpoint.ready[i + 1]);
        }
        turns_are_taken_in_order(next, now, begun, index, at - 1);
        let taken = endpoint.ready.len() - after.ready.len();
        assert(next.ready.skip(taken - 1) =~= endpoint.ready.skip(taken));
        if !(state.pending_tx_hash is Some) {
            assert(begun[started.len() as int] == submission);
            assert(all[started.len() as int] == begun[started.len() as int]);
            assert forall|i: int| 0 <= i < started.len() implies all[i] == started[i] by {
                assert(begun[i] == started[i]);
            }
        }
        if 1 <= at < taken {
            assert(next.ready[at - 1] == endpoint.ready[at]);
        }
    }
}

/// The outcome of a submission touches its sender and that sender's endpoint only. It ends one
/// running submission and changes no nonce. A transaction that was taken, or may have been, is
/// unsettled from then on; one that was not taken leaves the sender waiting; and only one that can
/// never be taken counts as failed and is reported.
pub proof fn outcomes_touch_one_sender(
    before: Scheduler,
    after: Scheduler,
    outcome: SubmissionOutcome,
    now_ms: u64,
    result: Result<(), SenderFailure>,
    other: int,
)
    requires
        before.well_formed(),
        outcome.sender_index < before.senders@.len(),
        ({
            let sender = before.senders@[outcome.sender_index as int];
            let endpoint = before.endpoints@[sender.account.endpoint_index as int];
            endpoint.submission_tasks > 0 && endpoint.failed < usize::MAX
        }),
        now_ms + MAX_RETRY_BACKOFF_MS <= u64::MAX,
        completes(before, after, outcome, now_ms, result),
    ensures
        ({
            let at = outcome.sender_index as int;
            let index = before.senders@[at].account.endpoint_index as int;
            let sender = after.senders@[at];
            &&& after.senders@.len() == before.senders@.len()
            &&& after.endpoints@.len() == before.endpoints@.len()
            &&& 0 <= other < before.senders@.len() && other != at ==> after.senders@[other]
                == before.senders@[other]
            &&& 0 <= other < before.endpoints@.len() && other != index
                ==> after.endpoints@[other]@ == before.endpoints@[other]@
            &&& sender.next_nonce == before.senders@[at].next_nonce
            &&& sender.account == before.senders@[at].account
            &&& after.endpoints@[index].submission_tasks
                == before.endpoints@[index].submission_tasks - 1
            &&& after.endpoints@[index].completed == before.endpoints@[index].completed
            &&& after.endpoints@[index].ready@ == before.endpoints@[index].ready@
            &&& result is Err ==> after.endpoints@[index].failed
                == before.endpoints@[index].failed + 1 && after.senders@ == before.senders@
            &&& result is Ok ==> after.endpoints@[index].failed == before.endpoints@[index].failed
            &&& match outcome.result {
                Ok(()) => {
                    &&& result is Ok
                    &&& sender.pending_tx_hash == Some(outcome.tx_hash)
                    &&& sender.retry_backoff_ms == 100
                    &&& after.endpoints@[index].delayed@ == before.endpoints@[index].delayed@
                },
                Err(err) => {
                    &&& result is Ok ==> {
                        &&& sender.queued_ready
                        &&& after.endpoints@[index].delayed@.contains(
                            ((now_ms + sender.retry_backoff_ms) as u64, outcome.sender_index),
                        )
                        &&& after.endpoints@[index].delayed@.len()
                            == before.endpoints@[index].delayed@.len() + 1
                        &&& sender.pending_tx_hash == Some(outcome.tx_hash)
                            || sender.pending_tx_hash == before.senders@[at].pending_tx_hash
                    }
                    &&& result matches Err(failure) ==> failure.nonce == outcome.nonce
                        && failure.reason == err && failure.sender_index == outcome.sender_index
                },
            }
        }),
{
    let at = outcome.sender_index as int;
    let index = before.senders@[at].account.endpoint_index as int;
    let old_views = endpoint_views(before.endpoints@);
    let new_views = endpoint_views(after.endpoints@);
    assert(old_views.len() == before.endpoints@.len());
    assert(new_views.len() == after.endpoints@.len());
    assert(old_views[index] == before.endpoints@[index]@);
    let over = with_task_over(old_views, index);
    match outcome.result {
        Ok(()) => {},
        Err(err) => {
            let pause = crate::spammer::spam::backoff_after(
                before.senders@[at].retry_backoff_ms,
                err@,
            );
            crate::spammer::spam::backoff_is_bounded(before.senders@[at].retry_backoff_ms, err@);
            placing_adds_one(over[index].delayed, ((now_ms + pause) as u64, outcome.sender_index));
        },
    }
    assert(new_views.len() == old_views.len());
    assert(new_views[index] == after.endpoints@[index]@);
    if 0 <= other < before.endpoints@.len() && other != index {
        assert(new_views[other] == old_views[other]);
    }
}

proof fn placing_adds_one(delayed: Seq<(u64, usize)>, entry: (u64, usize))
    ensures
        placed(delayed, entry).len() == delayed.len() + 1,
        placed(delayed, entry).contains(entry),
    decreases delayed.len(),
{
    if delayed.len() == 0 || waits_longer(delayed.last(), entry) {
        assert(placed(delayed, entry)[delayed.len() as int] == entry);
    } else {
        let front = placed(delayed.drop_last(), entry);
        placing_adds_one(delayed.drop_last(), entry);
        let at = choose|at: int| 0 <= at < front.len() && front[at] == entry;
        assert(placed(delayed, entry)[at] == entry);
    }
}

/// The sender that is due first waits last in the queue, and a sender that is placed takes nobody's
/// place: everybody else waits as before.
pub proof fn placing_keeps_everybody(
    delayed: Seq<(u64, usize)>,
    entry: (u64, usize),
    waiting: (u64, usize),
)
    requires
        in_order(delayed),
    ensures
        in_order(placed(delayed, entry)),
        placed(delayed, entry).contains(waiting) <==> waiting == entry || delayed.contains(waiting),
        placed(delayed, entry).to_multiset() == delayed.to_multiset().insert(entry),
    decreases delayed.len(),
{
    broadcast use vstd::seq_lib::group_to_multiset_ensures;

    placing_keeps_order(delayed, entry);
    placing_counts_everybody(delayed, entry);
    let after = placed(delayed, entry);
    assert(after.contains(waiting) <==> after.to_multiset().count(waiting) > 0);
    assert(delayed.contains(waiting) <==> delayed.to_multiset().count(waiting) > 0);
}

pub(crate) proof fn placing_counts_everybody(delayed: Seq<(u64, usize)>, entry: (u64, usize))
    ensures
        placed(delayed, entry).to_multiset() == delayed.to_multiset().insert(entry),
    decreases delayed.len(),
{
    broadcast use vstd::seq_lib::group_to_multiset_ensures;

    if !(delayed.len() == 0 || waits_longer(delayed.last(), entry)) {
        let front = delayed.drop_last();
        placing_counts_everybody(front, entry);
        assert(delayed =~= front.push(delayed.last()));
        assert(placed(delayed, entry).to_multiset() =~= delayed.to_multiset().insert(entry));
    }
}

/// An endpoint's senders are exactly those that submit to it, each once and in order.
pub proof fn senders_of_are_own(senders: Seq<SenderState>, index: int, count: nat, sender: usize)
    requires
        count <= senders.len(),
        senders.len() <= usize::MAX,
    ensures
        senders_of(senders, index, count).contains(sender) <==> sender < count && senders[
            sender as int
        ].account.endpoint_index == index,
        forall|i: int, j: int|
            0 <= i < j < senders_of(senders, index, count).len() ==> #[trigger] senders_of(
                senders,
                index,
                count,
            )[i] < #[trigger] senders_of(senders, index, count)[j],
    decreases count,
{
    if count > 0 {
        let less = (count - 1) as nat;
        let front = senders_of(senders, index, less);
        let all = senders_of(senders, index, count);
        senders_of_are_own(senders, index, less, sender);
        senders_of_belong(senders, index, less);
        if senders[count - 1].account.endpoint_index == index {
            assert(all[front.len() as int] == (count - 1) as usize);
            if front.contains(sender) {
                let at = choose|at: int| 0 <= at < front.len() && front[at] == sender;
                assert(all[at] == sender);
            }
            if all.contains(sender) {
                let at = choose|at: int| 0 <= at < all.len() && all[at] == sender;
                if at < front.len() {
                    assert(front[at] == sender);
                }
            }
            assert forall|i: int, j: int| 0 <= i < j < all.len() implies #[trigger] all[i]
                < #[trigger] all[j] by {
                assert(all[i] == front[i]);
                if j < front.len() {
                    assert(all[j] == front[j]);
                }
            }
        }
    }
}

#[verifier::spinoff_prover]
proof fn all_activations(
    endpoints: Seq<EndpointView>,
    senders: Seq<SenderState>,
    now_ms: u64,
    count: nat,
    index: int,
    at: int,
)
    requires
        count <= endpoints.len(),
        forall|i: int| 0 <= i < endpoints.len() ==> in_order((#[trigger] endpoints[i]).delayed),
        forall|i: int, k: int|
            0 <= i < endpoints.len() && 0 <= k < endpoints[i].delayed.len() ==> (
            #[trigger] endpoints[i].delayed[k]).1 < senders.len(),
        0 <= index < endpoints.len(),
    ensures
        ({
            let (after, later) = all_activated(endpoints, senders, now_ms, count);
            &&& after.len() == endpoints.len()
            &&& same_transactions(senders, later)
            &&& index >= count ==> after[index] == endpoints[index]
            &&& index < count ==> {
                &&& forall|k: int|
                    0 <= k < after[index].delayed.len() ==> (#[trigger] after[index].delayed[k]).0
                        > now_ms
                &&& 0 <= at < endpoints[index].delayed.len() ==> {
                    let (ready_at, sender) = endpoints[index].delayed[at];
                    &&& ready_at > now_ms ==> after[index].delayed.contains((ready_at, sender))
                    &&& ready_at <= now_ms && senders[sender as int].pending_tx_hash is None
                        ==> after[index].ready.contains(sender)
                }
                &&& endpoints[index].ready.is_prefix_of(after[index].ready)
            }
        }),
    decreases count,
{
    if count > 0 {
        let less = (count - 1) as nat;
        let (earlier, before) = all_activated(endpoints, senders, now_ms, less);
        all_activations(endpoints, senders, now_ms, less, index, at);
        all_activations(endpoints, senders, now_ms, less, count - 1, at);
        let endpoint = endpoints[count - 1];
        assert(earlier[count - 1] == endpoint);
        assert forall|k: int| 0 <= k < endpoint.delayed.len() implies (
        #[trigger] endpoint.delayed[k]).1 < before.len() by {
            assert(endpoints[count - 1].delayed[k].1 < senders.len());
        }
        activation_serves_the_due(endpoint, before, now_ms);
        let (now, later) = activated(endpoint, before, now_ms);
        same_transactions_chain(senders, before, later);
        if index == count - 1 {
            assert(endpoint.ready =~= now.ready.take(endpoint.ready.len() as int));
            assert forall|k: int| 0 <= k < endpoint.ready.len() implies endpoint.ready[k]
                == now.ready[k] by {
                assert(now.ready.take(endpoint.ready.len() as int)[k] == now.ready[k]);
            }
            if 0 <= at < endpoint.delayed.len() {
                due_senders_get_their_turn(endpoint, before, now_ms, at);
                let (ready_at, sender) = endpoint.delayed[at];
                if ready_at > now_ms {
                    assert(now.delayed[at] == (ready_at, sender));
                } else if senders[sender as int].pending_tx_hash is None {
                    let base = endpoint.ready.len() as int;
                    let tail = now.ready.skip(base);
                    assert(before[sender as int].pending_tx_hash is None);
                    let k = choose|k: int| 0 <= k < tail.len() && tail[k] == sender;
                    assert(now.ready[base + k] == sender);
                }
            }
        }
    }
}

/// Once the due senders had their turn, no sender of any endpoint waits past its time. One that was
/// due and has nothing unsettled is ready, one that was not due keeps waiting, whoever was ready before
/// comes first, and no nonce and no unsettled transaction changes.
pub proof fn activation_reaches_every_endpoint(
    scheduler: &mut Scheduler,
    now_ms: u64,
    index: int,
    at: int,
)
    requires
        old(scheduler).well_formed(),
        call_ensures(Scheduler::activate_ready_senders, (scheduler, now_ms), ()),
        0 <= index < old(scheduler).endpoints@.len(),
    ensures
        final(scheduler).endpoints@.len() == old(scheduler).endpoints@.len(),
        same_transactions(old(scheduler).senders@, final(scheduler).senders@),
        forall|k: int|
            0 <= k < final(scheduler).endpoints@[index].delayed@.len() ==> (
            #[trigger] final(scheduler).endpoints@[index].delayed@[k]).0 > now_ms,
        0 <= at < old(scheduler).endpoints@[index].delayed@.len() ==> {
            let (ready_at, sender) = old(scheduler).endpoints@[index].delayed@[at];
            &&& ready_at > now_ms ==> final(scheduler).endpoints@[index].delayed@.contains(
                (ready_at, sender),
            )
            &&& ready_at <= now_ms && old(scheduler).senders@[sender as int].pending_tx_hash is None
                ==> final(scheduler).endpoints@[index].ready@.contains(sender)
        },
        old(scheduler).endpoints@[index].ready@.is_prefix_of(
            final(scheduler).endpoints@[index].ready@,
        ),
{
    let views = endpoint_views(old(scheduler).endpoints@);
    let after = endpoint_views(final(scheduler).endpoints@);
    let senders = old(scheduler).senders@;
    assert forall|i: int| 0 <= i < views.len() implies in_order((#[trigger] views[i]).delayed) by {
        assert(views[i] == old(scheduler).endpoints@[i]@);
        assert(endpoint_sound(old(scheduler).endpoints@[i]@, senders, i));
    }
    assert forall|i: int, k: int|
        0 <= i < views.len() && 0 <= k < views[i].delayed.len() implies (
    #[trigger] views[i].delayed[k]).1 < senders.len() by {
        assert(views[i] == old(scheduler).endpoints@[i]@);
        assert(endpoint_sound(old(scheduler).endpoints@[i]@, senders, i));
        assert(belongs(senders, views[i].delayed[k].1, i));
    }
    all_activations(views, senders, now_ms, views.len(), index, at);
    assert(after.len() == final(scheduler).endpoints@.len());
    assert(views[index] == old(scheduler).endpoints@[index]@);
    assert(after[index] == final(scheduler).endpoints@[index]@);
}

#[verifier::spinoff_prover]
proof fn all_spawns(
    endpoints: Seq<EndpointView>,
    senders: Seq<SenderState>,
    count: nat,
    index: int,
    at: int,
)
    requires
        count <= endpoints.len() <= usize::MAX,
        forall|i: int|
            0 <= i < endpoints.len() ==> (#[trigger] endpoints[i]).submission_tasks <= 256,
        forall|i: int, k: int|
            0 <= i < endpoints.len() && 0 <= k < endpoints[i].ready.len()
                ==> #[trigger] endpoints[i].ready[k] < senders.len(),
        0 <= index < endpoints.len(),
    ensures
        ({
            let (after, later, started) = all_spawned(endpoints, senders, count);
            &&& after.len() == endpoints.len()
            &&& same_transactions(senders, later)
            &&& forall|i: int|
                0 <= i < started.len() ==> starts_fresh(senders, #[trigger] started[i])
            &&& forall|i: int|
                0 <= i < started.len() ==> (#[trigger] started[i]).endpoint_index < count
            &&& index >= count ==> after[index] == endpoints[index]
            &&& index < count ==> {
                &&& after[index].submission_tasks <= 256
                &&& after[index].ready.len() == 0 || after[index].submission_tasks == 256
                &&& after[index].delayed == endpoints[index].delayed
                &&& after[index].ready.len() <= endpoints[index].ready.len()
                &&& 0 <= at < endpoints[index].ready.len() - after[index].ready.len() && senders[
                    endpoints[index].ready[at] as int
                ].pending_tx_hash is None ==> exists|i: int|
                    0 <= i < started.len() && (#[trigger] started[i]).endpoint_index == index
                        && started[i].sender_index == endpoints[index].ready[at]
            }
        }),
    decreases count,
{
    if count > 0 {
        let less = (count - 1) as nat;
        let (earlier, before, begun) = all_spawned(endpoints, senders, less);
        all_spawns(endpoints, senders, less, index, at);
        all_spawns(endpoints, senders, less, count - 1, at);
        let endpoint = endpoints[count - 1];
        assert(earlier[count - 1] == endpoint);
        assert forall|k: int| 0 <= k < endpoint.ready.len() implies #[trigger] endpoint.ready[k]
            < before.len() by {
            assert(endpoints[count - 1].ready[k] < senders.len());
        }
        assert forall|i: int| 0 <= i < begun.len() implies starts_fresh(
            before,
            #[trigger] begun[i],
        ) by {
            assert(starts_fresh(senders, begun[i]));
        }
        submissions_are_fresh(endpoint, before, begun, less as usize);
        turns_are_taken_in_order(endpoint, before, begun, less as usize, at);
        let (now, later, all) = spawned(endpoint, before, begun, less as usize);
        assert(all_spawned(endpoints, senders, count) == (
            earlier.update(count - 1, now),
            later,
            all,
        ));
        same_transactions_chain(senders, before, later);
        assert forall|i: int| 0 <= i < all.len() implies starts_fresh(
            senders,
            #[trigger] all[i],
        ) by {
            assert(starts_fresh(before, all[i]));
        }
        assert forall|i: int| 0 <= i < all.len() implies (#[trigger] all[i]).endpoint_index
            < count by {
            if i < begun.len() {
                assert(all[i] == begun[i]);
            }
        }
        if index == count - 1 {
            let taken = endpoint.ready.len() - now.ready.len();
            if 0 <= at < taken && senders[endpoint.ready[at] as int].pending_tx_hash is None {
                assert(before[endpoint.ready[at] as int].pending_tx_hash is None);
                let i = choose|i: int|
                    begun.len() <= i < all.len() && (#[trigger] all[i]).sender_index
                        == endpoint.ready[at];
                assert(all[i].endpoint_index == index);
                let whole = all_spawned(endpoints, senders, count).2;
                assert(whole[i].sender_index == endpoints[index].ready[at]);
            }
        } else if index < less {
            if 0 <= at < endpoints[index].ready.len() - earlier[index].ready.len() && senders[
                endpoints[index].ready[at] as int
            ].pending_tx_hash is None {
                let i = choose|i: int|
                    0 <= i < begun.len() && (#[trigger] begun[i]).endpoint_index == index
                        && begun[i].sender_index == endpoints[index].ready[at];
                assert(all[i] == begun[i]);
                let whole = all_spawned(endpoints, senders, count).2;
                assert(whole[i].sender_index == endpoints[index].ready[at]);
            }
        }
    }
}

/// The submissions that are started: every endpoint lets its ready senders have their turn, in order,
/// until none is left or it runs 256 submissions. Each sender whose turn came and whose transactions
/// are settled submits to that endpoint, at its next nonce, and nobody else submits.
pub proof fn submissions_reach_every_endpoint(
    scheduler: &mut Scheduler,
    started: Vec<Submission>,
    index: int,
    at: int,
)
    requires
        old(scheduler).well_formed(),
        call_ensures(Scheduler::spawn_submissions, (scheduler,), started),
        0 <= index < old(scheduler).endpoints@.len(),
    ensures
        final(scheduler).endpoints@.len() == old(scheduler).endpoints@.len(),
        same_transactions(old(scheduler).senders@, final(scheduler).senders@),
        final(scheduler).endpoints@[index].submission_tasks <= 256,
        final(scheduler).endpoints@[index].ready@.len() == 0
            || final(scheduler).endpoints@[index].submission_tasks == 256,
        forall|i: int|
            0 <= i < started@.len() ==> {
                let submission = #[trigger] started@[i];
                &&& submission.sender_index < old(scheduler).senders@.len()
                &&& old(scheduler).senders@[submission.sender_index as int].pending_tx_hash is None
                &&& submission.nonce
                    == old(scheduler).senders@[submission.sender_index as int].next_nonce
            },
        0 <= at < old(scheduler).endpoints@[index].ready@.len()
            - final(scheduler).endpoints@[index].ready@.len() && old(scheduler).senders@[
            old(scheduler).endpoints@[index].ready@[at] as int
        ].pending_tx_hash is None ==> exists|i: int|
            0 <= i < started@.len() && (#[trigger] started@[i]).endpoint_index == index
                && started@[i].sender_index == old(scheduler).endpoints@[index].ready@[at],
{
    let views = endpoint_views(old(scheduler).endpoints@);
    let after = endpoint_views(final(scheduler).endpoints@);
    let senders = old(scheduler).senders@;
    assert(old(scheduler).endpoints.len() == views.len());
    assert forall|i: int| 0 <= i < views.len() implies (#[trigger] views[i]).submission_tasks
        <= 256 by {
        assert(views[i] == old(scheduler).endpoints@[i]@);
        assert(endpoint_sound(old(scheduler).endpoints@[i]@, senders, i));
    }
    assert forall|i: int, k: int|
        0 <= i < views.len() && 0 <= k < views[i].ready.len() implies #[trigger] views[i].ready[k]
        < senders.len() by {
        assert(views[i] == old(scheduler).endpoints@[i]@);
        assert(endpoint_sound(old(scheduler).endpoints@[i]@, senders, i));
        assert(belongs(senders, views[i].ready[k], i));
    }
    all_spawns(views, senders, views.len(), index, at);
    let (last, later, all) = all_spawned(views, senders, views.len());
    assert(last == after);
    assert(later == final(scheduler).senders@);
    assert(all == started@);
    assert(after.len() == final(scheduler).endpoints@.len());
    assert(views[index] == old(scheduler).endpoints@[index]@);
    assert(after[index] == final(scheduler).endpoints@[index]@);
    assert forall|i: int| 0 <= i < started@.len() implies {
        let submission = #[trigger] started@[i];
        &&& submission.sender_index < senders.len()
        &&& senders[submission.sender_index as int].pending_tx_hash is None
        &&& submission.nonce == senders[submission.sender_index as int].next_nonce
    } by {
        assert(starts_fresh(senders, started@[i]));
    }
}

/// What the outcome of a submission changes, as a call of
/// [`Scheduler::handle_submission_completion`] reports it: one running submission less, no nonce
/// moved, and other senders and endpoints left alone. A transaction that was taken is unsettled from
/// then on; one that failed for good is counted and reported; after any other error the sender waits.
pub proof fn completions_touch_one_sender(
    scheduler: &mut Scheduler,
    outcome: SubmissionOutcome,
    now_ms: u64,
    result: Result<(), SenderFailure>,
    other: int,
)
    requires
        old(scheduler).well_formed(),
        outcome.sender_index < old(scheduler).senders@.len(),
        ({
            let sender = old(scheduler).senders@[outcome.sender_index as int];
            let endpoint = old(scheduler).endpoints@[sender.account.endpoint_index as int];
            endpoint.submission_tasks > 0 && endpoint.failed < usize::MAX
        }),
        now_ms + 5_000 <= u64::MAX,
        call_ensures(
            Scheduler::handle_submission_completion,
            (scheduler, outcome, now_ms),
            result,
        ),
        0 <= other < old(scheduler).senders@.len(),
    ensures
        ({
            let at = outcome.sender_index as int;
            let index = old(scheduler).senders@[at].account.endpoint_index as int;
            let sender = final(scheduler).senders@[at];
            &&& final(scheduler).senders@.len() == old(scheduler).senders@.len()
            &&& other != at ==> final(scheduler).senders@[other] == old(scheduler).senders@[other]
            &&& sender.next_nonce == old(scheduler).senders@[at].next_nonce
            &&& final(scheduler).endpoints@[index].submission_tasks
                == old(scheduler).endpoints@[index].submission_tasks - 1
            &&& result is Err <==> final(scheduler).endpoints@[index].failed
                == old(scheduler).endpoints@[index].failed + 1
            &&& outcome.result is Ok ==> result is Ok && sender.pending_tx_hash == Some(
                outcome.tx_hash,
            )
            &&& outcome.result is Err && result is Ok
                ==> final(scheduler).endpoints@[index].delayed@.contains(
                ((now_ms + sender.retry_backoff_ms) as u64, outcome.sender_index),
            )
            &&& outcome.result matches Err(err) ==> {
                &&& crate::text::begins_with(err@, "request failed:"@) ==> result is Ok
                    && sender.pending_tx_hash == Some(outcome.tx_hash)
                &&& result is Err ==> final(scheduler).senders@ == old(scheduler).senders@
            }
        }),
{
    outcomes_touch_one_sender(
        *old(scheduler),
        *final(scheduler),
        outcome,
        now_ms,
        result,
        other,
    );
}

/// At the start every sender waits for its turn at its own endpoint, and at no other.
pub proof fn every_sender_starts_ready(
    endpoints: Vec<String>,
    senders: Vec<SenderState>,
    scheduler: Scheduler,
    sender: usize,
    index: int,
)
    requires
        call_ensures(build_endpoint_states, (endpoints, senders), scheduler),
        sender < senders@.len(),
        0 <= index < endpoints@.len(),
    ensures
        scheduler.endpoints@.len() == endpoints@.len(),
        scheduler.endpoints@[index].endpoint@ == endpoints@[index]@,
        scheduler.endpoints@[index].ready@.contains(sender) <==> index
            == senders@[sender as int].account.endpoint_index,
        scheduler.endpoints@[index].delayed@.len() == 0,
        scheduler.endpoints@[index].submission_tasks == 0,
        scheduler.endpoints@[index].completed == 0,
        scheduler.endpoints@[index].failed == 0,
        scheduler.senders@[sender as int].queued_ready,
        scheduler.senders@[sender as int].next_nonce == senders@[sender as int].next_nonce,
{
    assert(senders.len() == senders@.len());
    senders_of_are_own(senders@, index, senders@.len(), sender);
    let view = scheduler.endpoints@[index]@;
    assert(view.ready == senders_of(senders@, index, senders@.len()));
}

/// A sender that is to wait until a time waits at its own endpoint until then, and everybody else waits
/// as before.
pub proof fn retries_wait_at_own_endpoint(
    scheduler: &mut Scheduler,
    sender_index: usize,
    ready_at_ms: u64,
    other: int,
    waiting: (u64, usize),
)
    requires
        old(scheduler).well_formed(),
        sender_index < old(scheduler).senders@.len(),
        call_ensures(
            Scheduler::schedule_sender_retry,
            (scheduler, sender_index, ready_at_ms),
            (),
        ),
        0 <= other < old(scheduler).endpoints@.len(),
    ensures
        ({
            let index = old(scheduler).senders@[sender_index as int].account.endpoint_index;
            &&& final(scheduler).endpoints@.len() == old(scheduler).endpoints@.len()
            &&& other != index ==> final(scheduler).endpoints@[other]@
                == old(scheduler).endpoints@[other]@
            &&& other == index ==> (final(scheduler).endpoints@[other].delayed@.contains(waiting)
                <==> waiting == (ready_at_ms, sender_index)
                || old(scheduler).endpoints@[other].delayed@.contains(waiting))
            &&& final(scheduler).endpoints@[other].ready@ == old(scheduler).endpoints@[other].ready@
            &&& final(scheduler).senders@[sender_index as int].queued_ready
            &&& final(scheduler).senders@[sender_index as int].next_nonce
                == old(scheduler).senders@[sender_index as int].next_nonce
        }),
{
    let index = old(scheduler).senders@[sender_index as int].account.endpoint_index as int;
    let before = endpoint_views(old(scheduler).endpoints@);
    let after = endpoint_views(final(scheduler).endpoints@);
    assert(before.len() == old(scheduler).endpoints@.len());
    assert(after.len() == final(scheduler).endpoints@.len());
    assert(before[index] == old(scheduler).endpoints@[index]@);
    assert(before[other] == old(scheduler).endpoints@[other]@);
    assert(after[other] == final(scheduler).endpoints@[other]@);
    assert(
        endpoint_sound(old(scheduler).endpoints@[index]@, old(scheduler).senders@, index)
    );
    placing_keeps_everybody(before[index].delayed, (ready_at_ms, sender_index), waiting);
}

/// How a failed submission is handled follows [`classify_submission_error`], and the pause after it
/// [`next_retry_backoff`]: a transaction that was not taken is submitted again, with nothing unsettled
/// that was not before; one that may have been taken is unsettled; and one that can never be taken ends
/// in a failure.
pub proof fn failed_submissions_follow_their_kind(
    scheduler: &mut Scheduler,
    outcome: SubmissionOutcome,
    now_ms: u64,
    result: Result<(), SenderFailure>,
    text: &str,
    kind: SubmissionErrorKind,
    pause_ms: u64,
)
    requires
        old(scheduler).well_formed(),
        outcome.sender_index < old(scheduler).senders@.len(),
        now_ms + 5_000 <= u64::MAX,
        call_ensures(
            Scheduler::handle_submission_completion,
            (scheduler, outcome, now_ms),
            result,
        ),
        outcome.result matches Err(err) && err@ == text@,
        call_ensures(classify_submission_error, (text,), kind),
        call_ensures(
            next_retry_backoff,
            (old(scheduler).senders@[outcome.sender_index as int].retry_backoff_ms, text),
            pause_ms,
        ),
    ensures
        ({
            let before = old(scheduler).senders@[outcome.sender_index as int];
            let after = final(scheduler).senders@[outcome.sender_index as int];
            &&& kind is Fatal <==> result is Err
            &&& kind is RetryRejected ==> after.pending_tx_hash == before.pending_tx_hash
            &&& kind is RetryCheckStatus ==> after.pending_tx_hash == Some(outcome.tx_hash)
            &&& !(kind is Fatal) ==> after.retry_backoff_ms == pause_ms && after.queued_ready
            &&& kind is Fatal ==> after == before
        }),
{
}

} // verus!

//! Status polls of the ring spammer: which hashes are asked for, and what the statuses change.

use crate::spammer::scheduler::Scheduler;
use crate::spammer::shared::{tx_url, TransactionState, TransactionStatus};
use crate::spammer::spam::{
    format_sender_failure, sender_is_ready, SenderFailure, SenderState, INITIAL_RETRY_BACKOFF_MS,
    MAX_RETRY_BACKOFF_MS, STATUS_POLL_BATCH_SIZE, STATUS_POLL_INTERVAL_MS,
};
use crate::text::push_decimal;
use vstd::prelude::*;

verus! {

/// Returns when the status poll after this one is due, if one is due now.
pub fn poll_due(now_ms: u64, next_ms: u64) -> (due: Option<u64>)
    requires
        now_ms + STATUS_POLL_INTERVAL_MS <= u64::MAX,
    ensures
        due == if now_ms >= next_ms {
            Some((now_ms + STATUS_POLL_INTERVAL_MS) as u64)
        } else {
            None
        },
{
    if now_ms >= next_ms {
        Some(now_ms + STATUS_POLL_INTERVAL_MS)
    } else {
        None
    }
}

/// A request for the statuses of some transactions.
#[derive(Debug, Clone)]
pub struct PollRequest {
    /// Index of the endpoint to ask.
    pub endpoint_index: usize,
    /// Senders of the transactions.
    pub senders: Vec<usize>,
    /// Hashes of the transactions.
    pub tx_hashes: Vec<String>,
}

/// The senders among some whose transaction is not settled yet.
pub open spec fn unsettled(senders: Seq<SenderState>, indices: Seq<usize>) -> Seq<usize>
    decreases indices.len(),
{
    if indices.len() == 0 {
        Seq::empty()
    } else {
        let earlier = unsettled(senders, indices.drop_last());
        if senders[indices.last() as int].pending_tx_hash is Some {
            earlier.push(indices.last())
        } else {
            earlier
        }
    }
}

/// A list in pieces of `size`, the last of which may be shorter.
pub open spec fn pieces(list: Seq<usize>, size: nat) -> Seq<Seq<usize>>
    decreases list.len(),
{
    if list.len() == 0 || size == 0 {
        Seq::empty()
    } else if list.len() <= size {
        seq![list]
    } else {
        seq![list.take(size as int)] + pieces(list.skip(size as int), size)
    }
}

/// The requests of the first `count` endpoints: who is asked, and for which senders.
pub open spec fn requests_for(
    endpoints: Seq<crate::spammer::scheduler::EndpointView>,
    senders: Seq<SenderState>,
    count: nat,
) -> Seq<(usize, Seq<usize>)>
    decreases count,
{
    if count == 0 {
        Seq::empty()
    } else {
        let own = pieces(
            unsettled(senders, endpoints[count - 1].sender_indices),
            STATUS_POLL_BATCH_SIZE as nat,
        );
        requests_for(endpoints, senders, (count - 1) as nat) + Seq::new(
            own.len(),
            |i: int| ((count - 1) as usize, own[i]),
        )
    }
}

/// Whether a request asks an endpoint for the transactions of some senders.
pub open spec fn asks(
    request: PollRequest,
    senders: Seq<SenderState>,
    asked: (usize, Seq<usize>),
) -> bool {
    &&& request.endpoint_index == asked.0
    &&& request.senders@ == asked.1
    &&& request.tx_hashes@.len() == asked.1.len()
    &&& forall|k: int|
        0 <= k < asked.1.len() ==> senders[asked.1[k] as int].pending_tx_hash == Some(
            #[trigger] request.tx_hashes@[k],
        )
}

proof fn unsettled_are_pending(senders: Seq<SenderState>, indices: Seq<usize>)
    ensures
        forall|k: int|
            0 <= k < unsettled(senders, indices).len() ==> {
                &&& indices.contains(#[trigger] unsettled(senders, indices)[k])
                &&& senders[unsettled(senders, indices)[k] as int].pending_tx_hash is Some
            },
        unsettled(senders, indices).len() <= indices.len(),
    decreases indices.len(),
{
    if indices.len() > 0 {
        let earlier = unsettled(senders, indices.drop_last());
        unsettled_are_pending(senders, indices.drop_last());
        assert forall|k: int| 0 <= k < unsettled(senders, indices).len() implies {
            &&& indices.contains(#[trigger] unsettled(senders, indices)[k])
            &&& senders[unsettled(senders, indices)[k] as int].pending_tx_hash is Some
        } by {
            if k < earlier.len() {
                assert(unsettled(senders, indices)[k] == earlier[k]);
                let at = choose|at: int|
                    0 <= at < indices.drop_last().len() && indices.drop_last()[at] == earlier[k];
                assert(indices[at] == earlier[k]);
            } else {
                assert(indices[indices.len() - 1] == indices.last());
            }
        }
    }
}

/// A sender with a settled transaction is not asked for, and every other one is.
pub proof fn poll_covers_unsettled(senders: Seq<SenderState>, indices: Seq<usize>, at: int)
    requires
        0 <= at < indices.len(),
    ensures
        unsettled(senders, indices).contains(indices[at])
            <==> senders[indices[at] as int].pending_tx_hash is Some,
    decreases indices.len(),
{
    unsettled_are_pending(senders, indices);
    let earlier = unsettled(senders, indices.drop_last());
    let all = unsettled(senders, indices);
    if senders[indices[at] as int].pending_tx_hash is Some {
        if at == indices.len() - 1 {
            assert(all.last() == indices[at]);
        } else {
            poll_covers_unsettled(senders, indices.drop_last(), at);
            let k = choose|k: int| 0 <= k < earlier.len() && earlier[k] == indices[at];
            assert(all[k] == indices[at]);
        }
    }
}

/// The pieces of a list are the list, and none is longer than `size`.
pub proof fn pieces_cover(list: Seq<usize>, size: nat)
    requires
        size > 0,
    ensures
        pieces(list, size).flatten() == list,
        forall|i: int|
            0 <= i < pieces(list, size).len() ==> 0 < (#[trigger] pieces(list, size)[i]).len()
                <= size,
    decreases list.len(),
{
    if list.len() == 0 {
        assert(pieces(list, size).flatten() =~= list);
    } else if list.len() <= size {
        let all = pieces(list, size);
        assert(all =~= seq![list]);
        assert(all.drop_first() =~= Seq::<Seq<usize>>::empty());
        assert(all.drop_first().flatten() =~= Seq::<usize>::empty());
        assert(all.flatten() =~= all.first() + all.drop_first().flatten());
    } else {
        pieces_cover(list.skip(size as int), size);
        let all = pieces(list, size);
        assert(all.drop_first() =~= pieces(list.skip(size as int), size));
        assert(all.first() =~= list.take(size as int));
        assert(all.flatten() =~= all.first() + all.drop_first().flatten());
        assert(list.take(size as int) + list.skip(size as int) =~= list);
    }
}

/// What a status poll of one endpoint has changed so far.
#[verifier::ext_equal]
pub struct PollProgress {
    pub senders: Seq<SenderState>,
    pub endpoint: crate::spammer::scheduler::EndpointView,
    pub retries: Seq<(usize, u64)>,
    pub problem: Option<PollProblem>,
}

/// What ends a status poll early.
pub enum PollProblem {
    /// The endpoint answered for another transaction.
    Mismatch { tx_hash: Seq<char>, sender: usize },
    /// The transaction was rejected.
    Rejected { sender: usize, nonce: u64 },
}

impl PollProgress {
    /// The progress after the status of a sender's transaction. An included transaction frees its
    /// sender, which moves on to the next nonce; an unknown one is submitted again after a pause.
    pub open spec fn settled(
        self,
        sender: usize,
        status: TransactionStatus,
        now_ms: u64,
    ) -> PollProgress {
        let state = self.senders[sender as int];
        if self.problem is Some || state.pending_tx_hash is None {
            self
        } else if state.pending_tx_hash.unwrap()@ != status.tx_hash@ {
            PollProgress {
                problem: Some(PollProblem::Mismatch { tx_hash: status.tx_hash@, sender }),
                ..self
            }
        } else {
            match status.state {
                TransactionState::Pending => self,
                TransactionState::Included => PollProgress {
                    senders: self.senders.update(
                        sender as int,
                        SenderState {
                            pending_tx_hash: None,
                            next_nonce: (state.next_nonce + 1) as u64,
                            retry_backoff_ms: INITIAL_RETRY_BACKOFF_MS,
                            queued_ready: true,
                            ..state
                        },
                    ),
                    endpoint: crate::spammer::scheduler::EndpointView {
                        completed: (self.endpoint.completed + 1) as usize,
                        ready: if state.queued_ready {
                            self.endpoint.ready
                        } else {
                            self.endpoint.ready.push(sender)
                        },
                        ..self.endpoint
                    },
                    ..self
                },
                TransactionState::Rejected => PollProgress {
                    endpoint: crate::spammer::scheduler::EndpointView {
                        failed: (self.endpoint.failed + 1) as usize,
                        ..self.endpoint
                    },
                    problem: Some(PollProblem::Rejected { sender, nonce: state.next_nonce }),
                    ..self
                },
                TransactionState::Unknown => PollProgress {
                    senders: self.senders.update(
                        sender as int,
                        SenderState { pending_tx_hash: None, ..state },
                    ),
                    retries: self.retries.push(
                        (sender, (now_ms + state.retry_backoff_ms) as u64),
                    ),
                    ..self
                },
            }
        }
    }

    /// The progress after the statuses of the first `count` senders' transactions.
    pub open spec fn all_settled(
        self,
        senders: Seq<usize>,
        statuses: Seq<TransactionStatus>,
        now_ms: u64,
        count: nat,
    ) -> PollProgress
        decreases count,
    {
        if count == 0 {
            self
        } else {
            self.all_settled(senders, statuses, now_ms, (count - 1) as nat).settled(
                senders[count - 1],
                statuses[count - 1],
                now_ms,
            )
        }
    }
}

/// A sender moves on to its next nonce exactly when the transaction that it waits for is included,
/// and no status of one sender's transaction changes another sender.
pub proof fn nonces_advance_on_inclusion(
    progress: PollProgress,
    sender: usize,
    status: TransactionStatus,
    now_ms: u64,
    other: int,
)
    requires
        sender < progress.senders.len(),
        progress.senders[sender as int].next_nonce < u64::MAX,
        0 <= other < progress.senders.len(),
    ensures
        ({
            let before = progress.senders[other];
            let after = progress.settled(sender, status, now_ms).senders[other];
            &&& other != sender ==> after == before
            &&& after.next_nonce == before.next_nonce || after.next_nonce == before.next_nonce + 1
            &&& after.next_nonce == before.next_nonce + 1 <==> {
                &&& other == sender
                &&& progress.problem is None
                &&& status.state == TransactionState::Included
                &&& before.pending_tx_hash matches Some(hash) && hash@ == status.tx_hash@
            }
        }),
{
}

/// Once a poll has ended early, later statuses change nothing.
proof fn problems_end_polls(
    progress: PollProgress,
    senders: Seq<usize>,
    statuses: Seq<TransactionStatus>,
    now_ms: u64,
    count: nat,
    more: nat,
)
    requires
        count <= more,
        progress.all_settled(senders, statuses, now_ms, count).problem is Some,
    ensures
        progress.all_settled(senders, statuses, now_ms, more) == progress.all_settled(
            senders,
            statuses,
            now_ms,
            count,
        ),
    decreases more,
{
    if count < more {
        problems_end_polls(progress, senders, statuses, now_ms, count, (more - 1) as nat);
    }
}

/// Why a status poll ended early.
#[derive(Debug, Clone)]
pub enum PollError {
    /// The endpoint answered for too few or too many transactions.
    StatusCount { endpoint: String, returned: usize, requested: usize },
    /// The endpoint answered for another transaction.
    MismatchedHash { endpoint: String, tx_hash: String, sender_index: usize },
    /// A transaction was rejected.
    Rejected(SenderFailure),
}

/// Whether an error stands for a problem that the endpoint reported.
pub open spec fn stands_for(error: PollError, problem: PollProblem, endpoint: Seq<char>) -> bool {
    match (error, problem) {
        (
            PollError::MismatchedHash { endpoint: named, tx_hash, sender_index },
            PollProblem::Mismatch { tx_hash: hash, sender },
        ) => named@ == endpoint && tx_hash@ == hash && sender_index == sender,
        (PollError::Rejected(failure), PollProblem::Rejected { sender, nonce }) => {
            &&& failure.endpoint@ == endpoint
            &&& failure.sender_index == sender
            &&& failure.nonce == nonce
            &&& failure.reason@ == "transaction rejected before inclusion"@
        },
        _ => false,
    }
}

impl PollError {
    /// The words for this error, given the addresses of a rejected transaction's two accounts.
    pub open spec fn text(self, from: Seq<u8>, to: Seq<u8>) -> Seq<char> {
        match self {
            PollError::StatusCount { endpoint, returned, requested } => endpoint@ + " returned "@
                + crate::text::decimal(returned as nat) + " statuses for "@ + crate::text::decimal(
                requested as nat,
            ) + " requested hashes"@,
            PollError::MismatchedHash { endpoint, tx_hash, sender_index } => endpoint@
                + " returned mismatched tx hash "@ + tx_hash@ + " for sender "@
                + crate::text::decimal(sender_index as nat),
            PollError::Rejected(failure) => failure.endpoint@ + " "@ + crate::formatting::hex_text(
                from,
            ) + " -> "@ + crate::formatting::hex_text(to) + " nonce="@ + crate::text::decimal(
                failure.nonce as nat,
            ) + ": "@ + failure.reason@,
        }
    }

    /// Returns the words for this error, given the addresses of a rejected transaction's two
    /// accounts.
    pub fn message(&self, from: &[u8], to: &[u8]) -> (text: String)
        ensures
            text@ == self.text(from@, to@),
    {
        match self {
            PollError::StatusCount { endpoint, returned, requested } => {
                let mut text = endpoint.clone();
                text.append(" returned ");
                push_decimal(&mut text, *returned as u64);
                text.append(" statuses for ");
                push_decimal(&mut text, *requested as u64);
                text.append(" requested hashes");
                text
            },
            PollError::MismatchedHash { endpoint, tx_hash, sender_index } => {
                let mut text = endpoint.clone();
                text.append(" returned mismatched tx hash ");
                text.append(tx_hash.as_str());
                text.append(" for sender ");
                push_decimal(&mut text, *sender_index as u64);
                text
            },
            PollError::Rejected(failure) => format_sender_failure(failure, from, to),
        }
    }
}

/// The progress of a poll of the endpoint at `index`, before any status.
pub open spec fn poll_start(
    scheduler: Scheduler,
    index: int,
    retries: Seq<(usize, u64)>,
) -> PollProgress {
    PollProgress {
        senders: scheduler.senders@,
        endpoint: scheduler.endpoints@[index]@,
        retries,
        problem: None,
    }
}

impl Scheduler {
    /// Lists the senders of an endpoint whose transaction is not settled yet.
    fn pending_senders(&self, index: usize) -> (pending: Vec<usize>)
        requires
            self.well_formed(),
            index < self.endpoints@.len(),
        ensures
            pending@ == unsettled(self.senders@, self.endpoints@[index as int].sender_indices@),
            forall|k: int| 0 <= k < pending@.len() ==> #[trigger] pending@[k] < self.senders@.len(),
    {
        let indices = &self.endpoints[index].sender_indices;
        let ghost all = indices@;
        proof {
            assert(crate::spammer::scheduler::endpoint_sound(
                self.endpoints@[index as int]@,
                self.senders@,
                index as int,
            ));
            assert(self.senders@.len() == self.senders.len());
            crate::spammer::scheduler::senders_of_belong(
                self.senders@,
                index as int,
                self.senders@.len(),
            );
        }
        let mut pending: Vec<usize> = Vec::new();
        let mut i: usize = 0;
        proof {
            assert(all.take(0) =~= Seq::<usize>::empty());
        }
        while i < indices.len()
            invariant
                i <= all.len(),
                all == indices@,
                forall|k: int| 0 <= k < all.len() ==> #[trigger] all[k] < self.senders@.len(),
                pending@ == unsettled(self.senders@, all.take(i as int)),
                forall|k: int|
                    0 <= k < pending@.len() ==> #[trigger] pending@[k] < self.senders@.len(),
            decreases all.len() - i,
        {
            let sender: usize = indices[i];
            proof {
                assert(all.take(i + 1).drop_last() =~= all.take(i as int));
                assert(all.take(i + 1).last() == all[i as int]);
            }
            if self.senders[sender].pending_tx_hash.is_some() {
                pending.push(sender);
            }
            i += 1;
        }
        proof {
            assert(all.take(i as int) =~= all);
        }
        pending
    }

    /// Builds the request for some senders' transactions.
    fn request_for(&self, index: usize, senders: Vec<usize>) -> (request: PollRequest)
        requires
            forall|k: int|
                0 <= k < senders@.len() ==> #[trigger] senders@[k] < self.senders@.len()
                    && self.senders@[senders@[k] as int].pending_tx_hash is Some,
        ensures
            asks(request, self.senders@, (index, senders@)),
    {
        let mut tx_hashes: Vec<String> = Vec::new();
        let mut k: usize = 0;
        while k < senders.len()
            invariant
                k <= senders@.len(),
                forall|j: int|
                    0 <= j < senders@.len() ==> #[trigger] senders@[j] < self.senders@.len()
                        && self.senders@[senders@[j] as int].pending_tx_hash is Some,
                tx_hashes@.len() == k,
                forall|j: int|
                    0 <= j < k ==> self.senders@[senders@[j] as int].pending_tx_hash == Some(
                        #[trigger] tx_hashes@[j],
                    ),
            decreases senders@.len() - k,
        {
            let sender: usize = senders[k];
            if let Some(tx_hash) = &self.senders[sender].pending_tx_hash {
                tx_hashes.push(tx_hash.clone());
            }
            k += 1;
        }
        PollRequest { endpoint_index: index, senders, tx_hashes }
    }

    /// Lists the requests of a status poll: every endpoint is asked for the transactions of its own
    /// senders that are not settled yet.
    pub fn plan_poll(&self) -> (requests: Vec<PollRequest>)
        requires
            self.well_formed(),
        ensures
            requests@.len() == requests_for(
                crate::spammer::scheduler::endpoint_views(self.endpoints@),
                self.senders@,
                self.endpoints@.len(),
            ).len(),
            forall|i: int|
                0 <= i < requests@.len() ==> asks(
                    #[trigger] requests@[i],
                    self.senders@,
                    requests_for(
                        crate::spammer::scheduler::endpoint_views(self.endpoints@),
                        self.senders@,
                        self.endpoints@.len(),
                    )[i],
                ),
    {
        let ghost views = crate::spammer::scheduler::endpoint_views(self.endpoints@);
        let mut requests: Vec<PollRequest> = Vec::new();
        let mut index: usize = 0;
        while index < self.endpoints.len()
            invariant
                index <= self.endpoints@.len(),
                self.well_formed(),
                views == crate::spammer::scheduler::endpoint_views(self.endpoints@),
                requests@.len() == requests_for(views, self.senders@, index as nat).len(),
                forall|i: int|
                    0 <= i < requests@.len() ==> asks(
                        #[trigger] requests@[i],
                        self.senders@,
                        requests_for(views, self.senders@, index as nat)[i],
                    ),
            decreases self.endpoints@.len() - index,
        {
            let pending = self.pending_senders(index);
            let ghost own = pieces(pending@, STATUS_POLL_BATCH_SIZE as nat);
            let ghost earlier = requests_for(views, self.senders@, index as nat);
            let ghost goal = requests_for(views, self.senders@, (index + 1) as nat);
            proof {
                assert(views[index as int].sender_indices
                    == self.endpoints@[index as int].sender_indices@);
                unsettled_are_pending(
                    self.senders@,
                    self.endpoints@[index as int].sender_indices@,
                );
                assert(goal == earlier + Seq::new(own.len(), |i: int| (index, own[i])));
            }
            let mut from: usize = 0;
            let ghost mut taken = 0int;
            proof {
                assert(pending@.skip(0) =~= pending@);
            }
            while from < pending.len()
                invariant
                    from <= pending@.len(),
                    index < self.endpoints@.len(),
                    own == pieces(pending@, STATUS_POLL_BATCH_SIZE as nat),
                    goal == earlier + Seq::new(own.len(), |i: int| (index, own[i])),
                    0 <= taken <= own.len(),
                    own.skip(taken) == pieces(
                        pending@.skip(from as int),
                        STATUS_POLL_BATCH_SIZE as nat,
                    ),
                    forall|k: int|
                        0 <= k < pending@.len() ==> #[trigger] pending@[k] < self.senders@.len()
                            && self.senders@[pending@[k] as int].pending_tx_hash is Some,
                    requests@.len() == earlier.len() + taken,
                    forall|i: int|
                        0 <= i < requests@.len() ==> asks(
                            #[trigger] requests@[i],
                            self.senders@,
                            goal[i],
                        ),
                decreases pending@.len() - from,
            {
                let ghost rest = pending@.skip(from as int);
                let to: usize = if pending.len() - from <= STATUS_POLL_BATCH_SIZE {
                    pending.len()
                } else {
                    from + STATUS_POLL_BATCH_SIZE
                };
                let mut piece: Vec<usize> = Vec::new();
                let mut k: usize = from;
                while k < to
                    invariant
                        from <= k <= to <= pending@.len(),
                        piece@ == pending@.subrange(from as int, k as int),
                    decreases to - k,
                {
                    piece.push(pending[k]);
                    proof {
                        assert(pending@.subrange(from as int, k + 1) =~= pending@.subrange(
                            from as int,
                            k as int,
                        ).push(pending@[k as int]));
                    }
                    k += 1;
                }
                proof {
                    assert(piece@ =~= rest.take(to - from));
                    assert(own.skip(taken)[0] =~= piece@);
                    assert(own.skip(taken).skip(1) =~= own.skip(taken + 1));
                    assert(pending@.skip(to as int) =~= rest.skip(to - from));
                    assert(pieces(rest, STATUS_POLL_BATCH_SIZE as nat).skip(1) =~= pieces(
                        rest.skip(to - from),
                        STATUS_POLL_BATCH_SIZE as nat,
                    ));
                    assert(goal[earlier.len() + taken] == (index, own[taken]));
                    assert(own[taken] == own.skip(taken)[0]);
                    assert forall|j: int| 0 <= j < piece@.len() implies #[trigger] piece@[j]
                        < self.senders@.len()
                        && self.senders@[piece@[j] as int].pending_tx_hash is Some by {
                        assert(piece@[j] == pending@[from + j]);
                    }
                }
                requests.push(self.request_for(index, piece));
                proof {
                    taken = taken + 1;
                }
                from = to;
            }
            proof {
                assert(pending@.skip(from as int) =~= Seq::<usize>::empty());
                assert(own.skip(taken).len() == 0);
            }
            index += 1;
        }
        requests
    }

    /// Takes in the statuses of one request. Returns early on an answer that does not match, or on a
    /// rejected transaction; transactions that the endpoint does not know are added to `retries`.
    pub fn apply_statuses(
        &mut self,
        index: usize,
        senders: &Vec<usize>,
        statuses: &Vec<TransactionStatus>,
        retries: &mut Vec<(usize, u64)>,
        now_ms: u64,
    ) -> (result: Result<(), PollError>)
        requires
            old(self).well_formed(),
            index < old(self).endpoints@.len(),
            forall|k: int|
                0 <= k < senders@.len() ==> crate::spammer::scheduler::belongs(
                    old(self).senders@,
                    #[trigger] senders@[k],
                    index as int,
                ),
            forall|i: int|
                0 <= i < old(self).senders@.len() && (#[trigger] old(self).senders@[i]).pending_tx_hash is Some ==> old(self).senders@[i].next_nonce
                    < u64::MAX,
            forall|i: int|
                0 <= i < old(retries)@.len() ==> (#[trigger] old(retries)@[i]).0 < old(self).senders@.len(),
            old(self).endpoints@[index as int].completed + senders@.len() <= usize::MAX,
            old(self).endpoints@[index as int].failed < usize::MAX,
            now_ms + MAX_RETRY_BACKOFF_MS <= u64::MAX,
        ensures
            final(self).well_formed(),
            final(self).senders@.len() == old(self).senders@.len(),
            forall|i: int|
                0 <= i < final(retries)@.len() ==> (#[trigger] final(retries)@[i]).0 < final(self).senders@.len(),
            if statuses@.len() != senders@.len() {
                &&& *final(self) == *old(self)
                &&& final(retries)@ == old(retries)@
                &&& result matches Err(PollError::StatusCount { endpoint, returned, requested })
                    && endpoint@ == old(self).endpoints@[index as int].endpoint@ && returned
                    == statuses@.len() && requested == senders@.len()
            } else {
                let progress = poll_start(*old(self), index as int, old(retries)@).all_settled(
                    senders@,
                    statuses@,
                    now_ms,
                    senders@.len(),
                );
                &&& final(self).senders@ == progress.senders
                &&& crate::spammer::scheduler::endpoint_views(final(self).endpoints@)
                    == crate::spammer::scheduler::endpoint_views(old(self).endpoints@).update(
                    index as int,
                    progress.endpoint,
                )
                &&& final(retries)@ == progress.retries
                &&& match result {
                    Ok(()) => progress.problem is None,
                    Err(error) => progress.problem matches Some(problem) && stands_for(
                        error,
                        problem,
                        old(self).endpoints@[index as int].endpoint@,
                    ),
                }
            },
    {
        let ghost before = *self;
        if statuses.len() != senders.len() {
            return Err(
                PollError::StatusCount {
                    endpoint: self.endpoints[index].endpoint.clone(),
                    returned: statuses.len(),
                    requested: senders.len(),
                },
            );
        }
        let ghost start = poll_start(before, index as int, retries@);
        let ghost total = senders@.len();
        proof {
            assert(crate::spammer::scheduler::same_accounts(before.senders@, before.senders@));
        }
        let mut k: usize = 0;
        while k < senders.len()
            invariant
                k <= total,
                total == senders@.len(),
                statuses@.len() == senders@.len(),
                before == *old(self),
                start == poll_start(before, index as int, old(retries)@),
                before.well_formed(),
                index < before.endpoints@.len(),
                self.well_formed(),
                self.endpoints@.len() == before.endpoints@.len(),
                crate::spammer::scheduler::same_accounts(before.senders@, self.senders@),
                forall|i: int|
                    0 <= i < before.endpoints@.len() && i != index ==> #[trigger] self.endpoints@[i]
                        == before.endpoints@[i],
                self.endpoints@[index as int].endpoint == before.endpoints@[index as int].endpoint,
                forall|j: int|
                    0 <= j < senders@.len() ==> crate::spammer::scheduler::belongs(
                        before.senders@,
                        #[trigger] senders@[j],
                        index as int,
                    ),
                forall|i: int|
                    0 <= i < self.senders@.len() && (
                    #[trigger] self.senders@[i]).pending_tx_hash is Some
                        ==> self.senders@[i].next_nonce < u64::MAX,
                forall|i: int|
                    0 <= i < retries@.len() ==> (#[trigger] retries@[i]).0 < before.senders@.len(),
                self.endpoints@[index as int].completed + (total - k) <= usize::MAX,
                self.endpoints@[index as int].failed < usize::MAX,
                now_ms + MAX_RETRY_BACKOFF_MS <= u64::MAX,
                start.all_settled(senders@, statuses@, now_ms, k as nat) == (PollProgress {
                    senders: self.senders@,
                    endpoint: self.endpoints@[index as int]@,
                    retries: retries@,
                    problem: None,
                }),
            decreases total - k,
        {
            let sender: usize = senders[k];
            let ghost now = *self;
            let ghost earlier = start.all_settled(senders@, statuses@, now_ms, k as nat);
            let ghost next = earlier.settled(sender, statuses@[k as int], now_ms);
            proof {
                assert(crate::spammer::scheduler::belongs(
                    before.senders@,
                    senders@[k as int],
                    index as int,
                ));
                assert(before.senders@[sender as int].account == now.senders@[sender as int].account);
                assert(next == start.all_settled(senders@, statuses@, now_ms, (k + 1) as nat));
                assert(now.senders@[sender as int].retry_backoff_ms <= MAX_RETRY_BACKOFF_MS);
            }
            let matches = match &self.senders[sender].pending_tx_hash {
                None => None,
                Some(hash) => Some(*hash == statuses[k].tx_hash),
            };
            if let Some(matching) = matches {
                if !matching {
                    let error = PollError::MismatchedHash {
                        endpoint: self.endpoints[index].endpoint.clone(),
                        tx_hash: statuses[k].tx_hash.clone(),
                        sender_index: sender,
                    };
                    proof {
                        problems_end_polls(
                            start,
                            senders@,
                            statuses@,
                            now_ms,
                            (k + 1) as nat,
                            total,
                        );
                        assert(crate::spammer::scheduler::endpoint_views(self.endpoints@)
                            =~= crate::spammer::scheduler::endpoint_views(
                            before.endpoints@,
                        ).update(index as int, next.endpoint));
                    }
                    return Err(error);
                }
                match statuses[k].state {
                    TransactionState::Pending => {},
                    TransactionState::Included => {
                        let nonce: u64 = self.senders[sender].next_nonce;
                        self.senders[sender].pending_tx_hash = None;
                        self.senders[sender].next_nonce = nonce + 1;
                        self.senders[sender].retry_backoff_ms = INITIAL_RETRY_BACKOFF_MS;
                        proof {
                            self.keep_accounts(now);
                        }
                        let ghost freed = *self;
                        self.endpoints[index].completed = self.endpoints[index].completed + 1;
                        proof {
                            self.recount(freed, index as int);
                        }
                        if sender_is_ready(&self.senders[sender]) {
                            let ghost counted = *self;
                            self.senders[sender].queued_ready = true;
                            proof {
                                self.keep_accounts(counted);
                            }
                            let ghost queued = *self;
                            self.endpoints[index].ready.push_back(sender);
                            proof {
                                self.queue_keeps_soundness(queued, index as int, sender);
                            }
                        }
                        proof {
                            assert(self.senders@ =~= next.senders);
                            assert(self.endpoints@[index as int]@ =~= next.endpoint);
                        }
                    },
                    TransactionState::Rejected => {
                        let nonce: u64 = self.senders[sender].next_nonce;
                        self.endpoints[index].failed = self.endpoints[index].failed + 1;
                        proof {
                            self.recount(now, index as int);
                            problems_end_polls(
                                start,
                                senders@,
                                statuses@,
                                now_ms,
                                (k + 1) as nat,
                                total,
                            );
                            assert(self.endpoints@[index as int]@ =~= next.endpoint);
                            assert(crate::spammer::scheduler::endpoint_views(self.endpoints@)
                                =~= crate::spammer::scheduler::endpoint_views(
                                before.endpoints@,
                            ).update(index as int, next.endpoint));
                        }
                        return Err(
                            PollError::Rejected(
                                SenderFailure {
                                    endpoint: self.endpoints[index].endpoint.clone(),
                                    sender_index: sender,
                                    nonce,
                                    reason: "transaction rejected before inclusion".to_string(),
                                },
                            ),
                        );
                    },
                    TransactionState::Unknown => {
                        let pause_ms: u64 = self.senders[sender].retry_backoff_ms;
                        self.senders[sender].pending_tx_hash = None;
                        retries.push((sender, now_ms + pause_ms));
                        proof {
                            self.keep_accounts(now);
                            assert(self.senders@ =~= next.senders);
                        }
                    },
                }
            }
            k += 1;
        }
        proof {
            let progress = start.all_settled(senders@, statuses@, now_ms, total);
            assert(crate::spammer::scheduler::endpoint_views(self.endpoints@)
                =~= crate::spammer::scheduler::endpoint_views(before.endpoints@).update(
                index as int,
                progress.endpoint,
            ));
        }
        Ok(())
    }

    /// Queueing a sender of the endpoint keeps the scheduler well-formed.
    proof fn queue_keeps_soundness(self, before: Scheduler, index: int, sender: usize)
        requires
            before.well_formed(),
            0 <= index < before.endpoints@.len(),
            crate::spammer::scheduler::belongs(before.senders@, sender, index),
            self.senders@ == before.senders@,
            self.endpoints@.len() == before.endpoints@.len(),
            forall|i: int|
                0 <= i < before.endpoints@.len() && i != index ==> #[trigger] self.endpoints@[i]
                    == before.endpoints@[i],
            self.endpoints@[index]@ == (crate::spammer::scheduler::EndpointView {
                ready: before.endpoints@[index]@.ready.push(sender),
                ..before.endpoints@[index]@
            }),
        ensures
            self.well_formed(),
    {
        assert forall|i: int| 0 <= i < self.endpoints@.len() implies
            crate::spammer::scheduler::endpoint_sound(
            (#[trigger] self.endpoints@[i])@,
            self.senders@,
            i,
        ) by {
            assert(crate::spammer::scheduler::endpoint_sound(
                before.endpoints@[i]@,
                before.senders@,
                i,
            ));
            if i == index {
                let ready = self.endpoints@[i]@.ready;
                let earlier = before.endpoints@[i]@.ready;
                assert forall|k: int| 0 <= k < ready.len() implies
                    crate::spammer::scheduler::belongs(self.senders@, #[trigger] ready[k], i) by {
                    if k < earlier.len() {
                        assert(crate::spammer::scheduler::belongs(before.senders@, earlier[k], i));
                    }
                }
            }
        }
    }
}

/// Endpoints and senders with the first `count` retries scheduled.
pub open spec fn retries_scheduled(
    endpoints: Seq<crate::spammer::scheduler::EndpointView>,
    senders: Seq<SenderState>,
    retries: Seq<(usize, u64)>,
    count: nat,
) -> (Seq<crate::spammer::scheduler::EndpointView>, Seq<SenderState>)
    decreases count,
{
    if count == 0 {
        (endpoints, senders)
    } else {
        let (earlier, before) = retries_scheduled(endpoints, senders, retries, (count - 1) as nat);
        let (sender, at) = retries[count - 1];
        (
            crate::spammer::scheduler::with_retry(
                earlier,
                before[sender as int].account.endpoint_index as int,
                (at, sender),
            ),
            before.update(
                sender as int,
                SenderState { queued_ready: true, ..before[sender as int] },
            ),
        )
    }
}

impl Scheduler {
    /// Schedules the retries that a poll collected.
    pub fn schedule_retries(&mut self, retries: &Vec<(usize, u64)>)
        requires
            old(self).well_formed(),
            forall|i: int|
                0 <= i < retries@.len() ==> (#[trigger] retries@[i]).0 < old(self).senders@.len(),
        ensures
            final(self).well_formed(),
            (
                crate::spammer::scheduler::endpoint_views(final(self).endpoints@),
                final(self).senders@,
            ) == retries_scheduled(
                crate::spammer::scheduler::endpoint_views(old(self).endpoints@),
                old(self).senders@,
                retries@,
                retries@.len(),
            ),
    {
        let ghost before = *self;
        let mut i: usize = 0;
        while i < retries.len()
            invariant
                i <= retries@.len(),
                self.well_formed(),
                self.senders@.len() == before.senders@.len(),
                forall|k: int|
                    0 <= k < retries@.len() ==> (#[trigger] retries@[k]).0 < before.senders@.len(),
                (
                    crate::spammer::scheduler::endpoint_views(self.endpoints@),
                    self.senders@,
                ) == retries_scheduled(
                    crate::spammer::scheduler::endpoint_views(before.endpoints@),
                    before.senders@,
                    retries@,
                    i as nat,
                ),
            decreases retries@.len() - i,
        {
            let retry = retries[i];
            self.schedule_sender_retry(retry.0, retry.1);
            i += 1;
        }
    }

    /// Returns the lines that a run starts with.
    pub fn startup_lines(&self, sender_count: usize) -> (lines: Vec<String>)
        ensures
            lines@.len() == self.endpoints@.len() + 1,
            lines@[0]@ == startup_headline(
                crate::spammer::scheduler::endpoint_views(self.endpoints@),
                sender_count as nat,
            ),
            forall|i: int|
                0 <= i < self.endpoints@.len() ==> (#[trigger] lines@[i + 1])@ == endpoint_line(
                    self.endpoints@[i]@,
                    i as nat,
                ),
    {
        let mut lines: Vec<String> = Vec::new();
        let mut headline = "running ring spammer with ".to_string();
        push_decimal(&mut headline, sender_count as u64);
        if self.endpoints.len() == 1 {
            headline.append(" senders against ");
            headline.append(tx_url(self.endpoints[0].endpoint.as_str()).as_str());
        } else {
            headline.append(" senders across ");
            push_decimal(&mut headline, self.endpoints.len() as u64);
            headline.append(" validators");
        }
        headline.append(". Press Ctrl-C to stop.");
        lines.push(headline);
        let mut i: usize = 0;
        while i < self.endpoints.len()
            invariant
                i <= self.endpoints@.len(),
                lines@.len() == i + 1,
                lines@[0] == headline,
                forall|k: int|
                    0 <= k < i ==> (#[trigger] lines@[k + 1])@ == endpoint_line(
                        self.endpoints@[k]@,
                        k as nat,
                    ),
            decreases self.endpoints@.len() - i,
        {
            lines.push(self.endpoint_text(i));
            i += 1;
        }
        lines
    }

    fn endpoint_text(&self, index: usize) -> (line: String)
        requires
            index < self.endpoints@.len(),
        ensures
            line@ == endpoint_line(self.endpoints@[index as int]@, index as nat),
    {
        let mut line = "endpoint[".to_string();
        push_decimal(&mut line, index as u64);
        line.append("] ");
        line.append(tx_url(self.endpoints[index].endpoint.as_str()).as_str());
        line.append(" senders=");
        push_decimal(&mut line, self.endpoints[index].sender_indices.len() as u64);
        line
    }

    /// Returns the lines that a run ends with.
    pub fn summary_lines(&self) -> (lines: Vec<String>)
        requires
            total_completed(self.endpoints@) <= usize::MAX,
            total_failed(self.endpoints@) <= usize::MAX,
        ensures
            lines@.len() == self.endpoints@.len() + 2,
            lines@[0]@ == "completed: "@ + crate::text::decimal(total_completed(self.endpoints@)),
            lines@[1]@ == "failed: "@ + crate::text::decimal(total_failed(self.endpoints@)),
            forall|i: int|
                0 <= i < self.endpoints@.len() ==> (#[trigger] lines@[i + 2])@ == endpoint_line(
                    self.endpoints@[i]@,
                    i as nat,
                ) + " completed="@ + crate::text::decimal(self.endpoints@[i].completed as nat)
                    + " failed="@ + crate::text::decimal(self.endpoints@[i].failed as nat),
    {
        let mut lines: Vec<String> = Vec::new();
        let mut completed = "completed: ".to_string();
        push_decimal(&mut completed, self.completed() as u64);
        let mut failed = "failed: ".to_string();
        push_decimal(&mut failed, self.failed() as u64);
        lines.push(completed);
        lines.push(failed);
        let mut i: usize = 0;
        while i < self.endpoints.len()
            invariant
                i <= self.endpoints@.len(),
                lines@.len() == i + 2,
                lines@[0] == completed,
                lines@[1] == failed,
                forall|k: int|
                    0 <= k < i ==> (#[trigger] lines@[k + 2])@ == endpoint_line(
                        self.endpoints@[k]@,
                        k as nat,
                    ) + " completed="@ + crate::text::decimal(self.endpoints@[k].completed as nat)
                        + " failed="@ + crate::text::decimal(self.endpoints@[k].failed as nat),
            decreases self.endpoints@.len() - i,
        {
            let mut line = self.endpoint_text(i);
            line.append(" completed=");
            push_decimal(&mut line, self.endpoints[i].completed as u64);
            line.append(" failed=");
            push_decimal(&mut line, self.endpoints[i].failed as u64);
            lines.push(line);
            i += 1;
        }
        lines
    }

    fn completed(&self) -> (total: usize)
        requires
            total_completed(self.endpoints@) <= usize::MAX,
        ensures
            total == total_completed(self.endpoints@),
    {
        let mut total: usize = 0;
        let mut i: usize = 0;
        proof {
            assert(self.endpoints@.take(0) =~= Seq::empty());
        }
        while i < self.endpoints.len()
            invariant
                i <= self.endpoints@.len(),
                total_completed(self.endpoints@) <= usize::MAX,
                total == total_completed(self.endpoints@.take(i as int)),
            decreases self.endpoints@.len() - i,
        {
            proof {
                let all = self.endpoints@;
                assert(all.take(i + 1).drop_last() =~= all.take(i as int));
                assert(all.take(i + 1).last() == all[i as int]);
                totals_grow(all, i + 1);
            }
            total = total + self.endpoints[i].completed;
            i += 1;
        }
        proof {
            assert(self.endpoints@.take(i as int) =~= self.endpoints@);
        }
        total
    }

    /// Returns how many transactions failed.
    pub fn failed(&self) -> (total: usize)
        requires
            total_failed(self.endpoints@) <= usize::MAX,
        ensures
            total == total_failed(self.endpoints@),
    {
        let mut total: usize = 0;
        let mut i: usize = 0;
        proof {
            assert(self.endpoints@.take(0) =~= Seq::empty());
        }
        while i < self.endpoints.len()
            invariant
                i <= self.endpoints@.len(),
                total_failed(self.endpoints@) <= usize::MAX,
                total == total_failed(self.endpoints@.take(i as int)),
            decreases self.endpoints@.len() - i,
        {
            proof {
                let all = self.endpoints@;
                assert(all.take(i + 1).drop_last() =~= all.take(i as int));
                assert(all.take(i + 1).last() == all[i as int]);
                totals_grow(all, i + 1);
            }
            total = total + self.endpoints[i].failed;
            i += 1;
        }
        proof {
            assert(self.endpoints@.take(i as int) =~= self.endpoints@);
        }
        total
    }

    /// Returns how a run ends: as a failure when any transaction failed.
    pub fn summary_result(&self) -> (result: Result<(), String>)
        requires
            total_failed(self.endpoints@) <= usize::MAX,
        ensures
            match result {
                Ok(()) => total_failed(self.endpoints@) == 0,
                Err(reason) => total_failed(self.endpoints@) > 0 && reason@ == "failed: "@
                    + crate::text::decimal(total_failed(self.endpoints@)),
            },
    {
        let failed: usize = self.failed();
        if failed == 0 {
            return Ok(());
        }
        let mut reason = "failed: ".to_string();
        push_decimal(&mut reason, failed as u64);
        Err(reason)
    }
}

/// The line of an endpoint.
pub open spec fn endpoint_line(
    endpoint: crate::spammer::scheduler::EndpointView,
    index: nat,
) -> Seq<char> {
    "endpoint["@ + crate::text::decimal(index) + "] "@ + (crate::text::without_trailing_slashes(
        endpoint.endpoint,
    ) + "/tx"@) + " senders="@ + crate::text::decimal(endpoint.sender_indices.len())
}

/// The first line of a run.
pub open spec fn startup_headline(
    endpoints: Seq<crate::spammer::scheduler::EndpointView>,
    sender_count: nat,
) -> Seq<char> {
    if endpoints.len() == 1 {
        "running ring spammer with "@ + crate::text::decimal(sender_count) + " senders against "@ + (
        crate::text::without_trailing_slashes(endpoints[0].endpoint) + "/tx"@)
            + ". Press Ctrl-C to stop."@
    } else {
        "running ring spammer with "@ + crate::text::decimal(sender_count) + " senders across "@
            + crate::text::decimal(endpoints.len()) + " validators"@ + ". Press Ctrl-C to stop."@
    }
}

/// The transactions that were included.
pub open spec fn total_completed(
    endpoints: Seq<crate::spammer::scheduler::EndpointState>,
) -> nat
    decreases endpoints.len(),
{
    if endpoints.len() == 0 {
        0
    } else {
        total_completed(endpoints.drop_last()) + endpoints.last().completed as nat
    }
}

/// The transactions that failed.
pub open spec fn total_failed(endpoints: Seq<crate::spammer::scheduler::EndpointState>) -> nat
    decreases endpoints.len(),
{
    if endpoints.len() == 0 {
        0
    } else {
        total_failed(endpoints.drop_last()) + endpoints.last().failed as nat
    }
}

proof fn totals_grow(endpoints: Seq<crate::spammer::scheduler::EndpointState>, count: int)
    requires
        0 <= count <= endpoints.len(),
    ensures
        total_completed(endpoints.take(count)) <= total_completed(endpoints),
        total_failed(endpoints.take(count)) <= total_failed(endpoints),
    decreases endpoints.len(),
{
    if count < endpoints.len() {
        totals_grow(endpoints.drop_last(), count);
        assert(endpoints.drop_last().take(count) =~= endpoints.take(count));
    } else {
        assert(endpoints.take(count) =~= endpoints);
    }
}

/// A status poll is due from its time on, and the next one is due a second later.
pub proof fn polls_are_a_second_apart(now_ms: u64, next_ms: u64, due: Option<u64>)
    requires
        call_ensures(poll_due, (now_ms, next_ms), due),
        now_ms + 1_000 <= u64::MAX,
    ensures
        due is Some <==> now_ms >= next_ms,
        due matches Some(following) ==> following == now_ms + 1_000,
{
}

/// Every piece of a list but the last is full, so no more pieces are made than needed.
pub proof fn pieces_are_full(list: Seq<usize>, size: nat, at: int)
    requires
        size > 0,
        0 <= at < pieces(list, size).len() - 1,
    ensures
        pieces(list, size)[at].len() == size,
    decreases list.len(),
{
    if list.len() > size {
        let rest = pieces(list.skip(size as int), size);
        let all = seq![list.take(size as int)] + rest;
        assert(pieces(list, size) == all);
        if at > 0 {
            pieces_are_full(list.skip(size as int), size, at - 1);
            assert(all[at] == rest[at - 1]);
        }
    }
}

/// What the status of the transaction that a sender waits for changes. A pending one changes
/// nothing. An included one counts as completed and queues its sender for the next nonce. A
/// rejected one counts as failed and ends the poll. One that the endpoint does not know frees its
/// sender and has the same nonce submitted again after the sender's pause.
pub proof fn statuses_settle_transactions(
    progress: PollProgress,
    sender: usize,
    status: TransactionStatus,
    now_ms: u64,
)
    requires
        sender < progress.senders.len(),
        progress.problem is None,
        progress.senders[sender as int].pending_tx_hash matches Some(hash) && hash@
            == status.tx_hash@,
        progress.senders[sender as int].next_nonce < u64::MAX,
        progress.endpoint.completed < usize::MAX,
        progress.endpoint.failed < usize::MAX,
        now_ms + progress.senders[sender as int].retry_backoff_ms <= u64::MAX,
    ensures
        ({
            let before = progress.senders[sender as int];
            let after = progress.settled(sender, status, now_ms);
            let state = after.senders[sender as int];
            &&& after.senders.len() == progress.senders.len()
            &&& state.account == before.account
            &&& after.endpoint.delayed == progress.endpoint.delayed
            &&& after.endpoint.submission_tasks == progress.endpoint.submission_tasks
            &&& after.endpoint.completed - progress.endpoint.completed == (if status.state
                is Included {
                1int
            } else {
                0
            })
            &&& after.endpoint.failed - progress.endpoint.failed == (if status.state is Rejected {
                1int
            } else {
                0
            })
            &&& after.problem is Some <==> status.state is Rejected
            &&& status.state is Rejected ==> after.problem == Some(
                PollProblem::Rejected { sender, nonce: before.next_nonce },
            )
            &&& state.pending_tx_hash is Some <==> status.state is Pending || status.state
                is Rejected
            &&& status.state is Pending ==> after == progress
            &&& status.state is Included ==> {
                &&& state.next_nonce == before.next_nonce + 1
                &&& state.retry_backoff_ms == 100
                &&& state.queued_ready
                &&& after.endpoint.ready.len() > 0 || before.queued_ready
                &&& !before.queued_ready ==> after.endpoint.ready == progress.endpoint.ready.push(
                    sender,
                )
                &&& before.queued_ready ==> after.endpoint.ready == progress.endpoint.ready
            }
            &&& status.state is Unknown ==> {
                &&& state.next_nonce == before.next_nonce
                &&& after.retries.len() == progress.retries.len() + 1
                &&& after.retries.last().0 == sender
                &&& after.retries.last().1 == now_ms + before.retry_backoff_ms
            }
            &&& !(status.state is Unknown) ==> after.retries == progress.retries
        }),
{
}

proof fn requests_name_endpoints(
    endpoints: Seq<crate::spammer::scheduler::EndpointView>,
    senders: Seq<SenderState>,
    count: nat,
    index: int,
    sender: usize,
) -> (found: (int, int))
    requires
        0 <= index < count <= endpoints.len(),
        endpoints.len() <= usize::MAX,
        unsettled(senders, endpoints[index].sender_indices).contains(sender),
    ensures
        ({
            let (at, k) = found;
            let asked = requests_for(endpoints, senders, count);
            &&& 0 <= at < asked.len()
            &&& asked[at].0 == index
            &&& 0 <= k < asked[at].1.len()
            &&& asked[at].1[k] == sender
        }),
    decreases count,
{
    let less = (count - 1) as nat;
    let earlier = requests_for(endpoints, senders, less);
    let list = unsettled(senders, endpoints[count - 1].sender_indices);
    let own = pieces(list, STATUS_POLL_BATCH_SIZE as nat);
    let all = requests_for(endpoints, senders, count);
    let added = Seq::new(own.len(), |i: int| ((count - 1) as usize, own[i]));
    assert(all == earlier + added);
    if index < less {
        let (at, k) = requests_name_endpoints(endpoints, senders, less, index, sender);
        assert(all[at] == earlier[at]);
        (at, k)
    } else {
        let (piece, k) = pieces_hold_items(list, STATUS_POLL_BATCH_SIZE as nat, sender);
        assert(all[earlier.len() + piece] == added[piece]);
        (earlier.len() + piece, k)
    }
}

proof fn pieces_hold_items(list: Seq<usize>, size: nat, item: usize) -> (found: (int, int))
    requires
        size > 0,
        list.contains(item),
    ensures
        0 <= found.0 < pieces(list, size).len(),
        0 <= found.1 < pieces(list, size)[found.0].len(),
        pieces(list, size)[found.0][found.1] == item,
    decreases list.len(),
{
    let at = choose|at: int| 0 <= at < list.len() && list[at] == item;
    if list.len() <= size {
        (0, at)
    } else {
        let first = list.take(size as int);
        let back = list.skip(size as int);
        let rest = pieces(back, size);
        assert(pieces(list, size) == seq![first] + rest);
        if at < size {
            assert(first[at] == item);
            (0, at)
        } else {
            assert(back[at - size] == item);
            let (piece, k) = pieces_hold_items(back, size, item);
            assert((seq![first] + rest)[piece + 1] == rest[piece]);
            (piece + 1, k)
        }
    }
}

/// A status poll asks for every unsettled transaction, at the endpoint that its sender submits to.
pub proof fn poll_asks_for_every_unsettled_transaction(
    scheduler: Scheduler,
    requests: Vec<PollRequest>,
    sender: usize,
) -> (found: (int, int))
    requires
        scheduler.well_formed(),
        call_ensures(Scheduler::plan_poll, (&scheduler,), requests),
        sender < scheduler.senders@.len(),
        scheduler.senders@[sender as int].pending_tx_hash is Some,
    ensures
        ({
            let (at, k) = found;
            let request = requests@[at];
            &&& 0 <= at < requests@.len()
            &&& request.endpoint_index
                == scheduler.senders@[sender as int].account.endpoint_index
            &&& 0 <= k < request.senders@.len()
            &&& request.senders@[k] == sender
            &&& request.tx_hashes@.len() == request.senders@.len()
            &&& scheduler.senders@[sender as int].pending_tx_hash == Some(request.tx_hashes@[k])
        }),
{
    let views = crate::spammer::scheduler::endpoint_views(scheduler.endpoints@);
    let senders = scheduler.senders@;
    let index = senders[sender as int].account.endpoint_index as int;
    assert(scheduler.senders.len() == senders.len());
    assert(scheduler.endpoints.len() == views.len());
    assert(views[index] == scheduler.endpoints@[index]@);
    assert(
        crate::spammer::scheduler::endpoint_sound(scheduler.endpoints@[index]@, senders, index)
    );
    crate::spammer::scheduler::senders_of_are_own(senders, index, senders.len(), sender);
    let indices = views[index].sender_indices;
    let at = choose|at: int| 0 <= at < indices.len() && indices[at] == sender;
    poll_covers_unsettled(senders, indices, at);
    let found = requests_name_endpoints(views, senders, views.len(), index, sender);
    let asked = requests_for(views, senders, views.len());
    assert(asks(requests@[found.0], senders, asked[found.0]));
    found
}

/// Statuses of other senders change nothing for a sender.
proof fn strangers_change_nothing(
    progress: PollProgress,
    senders: Seq<usize>,
    statuses: Seq<TransactionStatus>,
    now_ms: u64,
    count: nat,
    sender: int,
)
    requires
        count <= senders.len(),
        0 <= sender < progress.senders.len(),
        forall|k: int| 0 <= k < count ==> #[trigger] senders[k] != sender,
        forall|k: int| 0 <= k < count ==> #[trigger] senders[k] < progress.senders.len(),
    ensures
        progress.all_settled(senders, statuses, now_ms, count).senders[sender]
            == progress.senders[sender],
        progress.all_settled(senders, statuses, now_ms, count).senders.len()
            == progress.senders.len(),
    decreases count,
{
    if count > 0 {
        strangers_change_nothing(
            progress,
            senders,
            statuses,
            now_ms,
            (count - 1) as nat,
            sender,
        );
        assert(senders[count - 1] != sender);
    }
}

proof fn polls_keep_lengths(
    progress: PollProgress,
    senders: Seq<usize>,
    statuses: Seq<TransactionStatus>,
    now_ms: u64,
    count: nat,
)
    requires
        count <= senders.len(),
        forall|k: int| 0 <= k < senders.len() ==> #[trigger] senders[k] < progress.senders.len(),
    ensures
        progress.all_settled(senders, statuses, now_ms, count).senders.len()
            == progress.senders.len(),
    decreases count,
{
    if count > 0 {
        assert(senders[count - 1] < progress.senders.len());
        polls_keep_lengths(progress, senders, statuses, now_ms, (count - 1) as nat);
    }
}

proof fn own_status_settles(
    progress: PollProgress,
    senders: Seq<usize>,
    statuses: Seq<TransactionStatus>,
    now_ms: u64,
    count: nat,
    at: int,
)
    requires
        0 <= at < count <= senders.len(),
        senders.no_duplicates(),
        forall|k: int| 0 <= k < senders.len() ==> #[trigger] senders[k] < progress.senders.len(),
        progress.problem is None,
        progress.all_settled(senders, statuses, now_ms, count).problem is None,
    ensures
        progress.all_settled(senders, statuses, now_ms, count).senders[senders[at] as int]
            == progress.settled(senders[at], statuses[at], now_ms).senders[senders[at] as int],
    decreases count,
{
    let less = (count - 1) as nat;
    let earlier = progress.all_settled(senders, statuses, now_ms, less);
    polls_keep_lengths(progress, senders, statuses, now_ms, less);
    let last = senders[count - 1];
    if at < less {
        own_status_settles(progress, senders, statuses, now_ms, less, at);
        assert(senders[at] != senders[count - 1]);
    } else {
        assert forall|k: int| 0 <= k < less implies #[trigger] senders[k] != last as int by {
            assert(senders[k] != senders[count - 1]);
        }
        strangers_change_nothing(progress, senders, statuses, now_ms, less, last as int);
        assert(earlier.senders[last as int] == progress.senders[last as int]);
    }
}

/// What a call of [`Scheduler::apply_statuses`] that succeeds does for each sender that it was about:
/// an included transaction frees its sender and moves it on to the next nonce, one that the endpoint
/// does not know frees its sender at the same nonce, a pending one changes nothing, and none was
/// rejected.
pub proof fn polls_settle_every_sender(
    scheduler: &mut Scheduler,
    index: usize,
    senders: Vec<usize>,
    statuses: Vec<TransactionStatus>,
    retries: &mut Vec<(usize, u64)>,
    now_ms: u64,
    at: int,
)
    requires
        old(scheduler).well_formed(),
        index < old(scheduler).endpoints@.len(),
        senders@.len() == statuses@.len(),
        senders@.no_duplicates(),
        forall|k: int|
            0 <= k < senders@.len() ==> crate::spammer::scheduler::belongs(
                old(scheduler).senders@,
                #[trigger] senders@[k],
                index as int,
            ),
        0 <= at < senders@.len(),
        old(scheduler).senders@[senders@[at] as int].pending_tx_hash matches Some(hash) && hash@
            == statuses@[at].tx_hash@,
        old(scheduler).senders@[senders@[at] as int].next_nonce < u64::MAX,
        call_ensures(
            Scheduler::apply_statuses,
            (scheduler, index, &senders, &statuses, retries, now_ms),
            Ok::<(), PollError>(()),
        ),
    ensures
        ({
            let before = old(scheduler).senders@[senders@[at] as int];
            let after = final(scheduler).senders@[senders@[at] as int];
            match statuses@[at].state {
                TransactionState::Included => {
                    &&& after.next_nonce == before.next_nonce + 1
                    &&& after.pending_tx_hash is None
                    &&& after.queued_ready
                },
                TransactionState::Unknown => {
                    &&& after.next_nonce == before.next_nonce
                    &&& after.pending_tx_hash is None
                },
                TransactionState::Pending => after == before,
                TransactionState::Rejected => false,
            }
        }),
{
    let start = poll_start(*old(scheduler), index as int, old(retries)@);
    assert forall|k: int| 0 <= k < senders@.len() implies #[trigger] senders@[k]
        < start.senders.len() by {
        assert(
            crate::spammer::scheduler::belongs(
                old(scheduler).senders@,
                senders@[k],
                index as int,
            )
        );
    }
    own_status_settles(start, senders@, statuses@, now_ms, senders@.len(), at);
    if statuses@[at].state is Rejected {
        let less = at as nat;
        polls_keep_lengths(start, senders@, statuses@, now_ms, less);
        assert forall|k: int| 0 <= k < less implies #[trigger] senders@[k] != senders@[at] as int by {
            assert(senders@[k] != senders@[at]);
        }
        strangers_change_nothing(
            start,
            senders@,
            statuses@,
            now_ms,
            less,
            senders@[at] as int,
        );
        let next = start.all_settled(senders@, statuses@, now_ms, less + 1);
        assert(next.problem is Some);
        problems_end_polls(start, senders@, statuses@, now_ms, less + 1, senders@.len());
    }
}

/// An answer for another number of transactions, or for another transaction, is refused, and so is a
/// rejected transaction.
pub proof fn bad_answers_end_polls(
    scheduler: &mut Scheduler,
    index: usize,
    senders: Vec<usize>,
    statuses: Vec<TransactionStatus>,
    retries: &mut Vec<(usize, u64)>,
    now_ms: u64,
    result: Result<(), PollError>,
)
    requires
        old(scheduler).well_formed(),
        index < old(scheduler).endpoints@.len(),
        call_ensures(
            Scheduler::apply_statuses,
            (scheduler, index, &senders, &statuses, retries, now_ms),
            result,
        ),
    ensures
        senders@.len() != statuses@.len() ==> {
            &&& result matches Err(PollError::StatusCount { returned, requested, .. })
            &&& returned == statuses@.len()
            &&& requested == senders@.len()
            &&& *final(scheduler) == *old(scheduler)
        },
        senders@.len() == statuses@.len() && senders@.len() > 0 && senders@[0]
            < old(scheduler).senders@.len() && (old(scheduler).senders@[senders@[0] as int].pending_tx_hash matches Some(
        hash) && hash@ != statuses@[0].tx_hash@) ==> {
            &&& result matches Err(PollError::MismatchedHash { tx_hash, sender_index, .. })
            &&& tx_hash@ == statuses@[0].tx_hash@
            &&& sender_index == senders@[0]
            &&& final(scheduler).senders@ == old(scheduler).senders@
        },
{
    if senders@.len() == statuses@.len() && senders@.len() > 0 && senders@[0]
        < old(scheduler).senders@.len() && (
    old(scheduler).senders@[senders@[0] as int].pending_tx_hash matches Some(hash) && hash@
        != statuses@[0].tx_hash@) {
        let start = poll_start(*old(scheduler), index as int, old(retries)@);
        assert(start.all_settled(senders@, statuses@, now_ms, 0) == start);
        let next = start.all_settled(senders@, statuses@, now_ms, 1);
        assert(next == start.settled(senders@[0], statuses@[0], now_ms));
        problems_end_polls(start, senders@, statuses@, now_ms, 1, senders@.len());
    }
}

/// The completed and failed transactions of a run are those of its endpoints together.
pub proof fn totals_add_up(
    front: Seq<crate::spammer::scheduler::EndpointState>,
    back: Seq<crate::spammer::scheduler::EndpointState>,
)
    ensures
        total_completed(front + back) == total_completed(front) + total_completed(back),
        total_failed(front + back) == total_failed(front) + total_failed(back),
        front.len() == 1 ==> total_completed(front) == front[0].completed && total_failed(front)
            == front[0].failed,
        front.len() == 0 ==> total_completed(front) == 0 && total_failed(front) == 0,
    decreases back.len(),
{
    if front.len() == 1 {
        assert(front.drop_last().len() == 0);
        assert(total_completed(front.drop_last()) == 0);
        assert(total_failed(front.drop_last()) == 0);
        assert(front.last() == front[0]);
    }
    if back.len() == 0 {
        assert(front + back =~= front);
    } else {
        totals_add_up(front, back.drop_last());
        assert((front + back).drop_last() =~= front + back.drop_last());
        assert((front + back).last() == back.last());
    }
}

/// A run fails exactly if some transaction of some endpoint failed.
pub proof fn run_fails_with_any_failure(
    scheduler: Scheduler,
    result: Result<(), String>,
    index: int,
)
    requires
        call_ensures(Scheduler::summary_result, (&scheduler,), result),
    ensures
        0 <= index < scheduler.endpoints@.len() && scheduler.endpoints@[index].failed > 0
            ==> result is Err,
        (forall|i: int|
            0 <= i < scheduler.endpoints@.len() ==> (#[trigger] scheduler.endpoints@[i]).failed
                == 0) ==> result is Ok,
{
    let all = scheduler.endpoints@;
    if 0 <= index < all.len() && all[index].failed > 0 {
        totals_add_up(all.take(index), all.skip(index));
        assert(all.take(index) + all.skip(index) =~= all);
        let rest = all.skip(index);
        totals_add_up(rest.take(1), rest.skip(1));
        assert(rest.take(1) + rest.skip(1) =~= rest);
        assert(rest.take(1)[0] == all[index]);
    }
    if forall|i: int| 0 <= i < all.len() ==> (#[trigger] all[i]).failed == 0 {
        no_failures(all);
    }
}

proof fn no_failures(endpoints: Seq<crate::spammer::scheduler::EndpointState>)
    requires
        forall|i: int| 0 <= i < endpoints.len() ==> (#[trigger] endpoints[i]).failed == 0,
    ensures
        total_failed(endpoints) == 0,
    decreases endpoints.len(),
{
    if endpoints.len() > 0 {
        let front = endpoints.drop_last();
        assert forall|i: int| 0 <= i < front.len() implies (#[trigger] front[i]).failed == 0 by {
            assert(front[i] == endpoints[i]);
        }
        no_failures(front);
        assert(endpoints[endpoints.len() - 1] == endpoints.last());
    }
}

proof fn retries_keep_lengths(
    endpoints: Seq<crate::spammer::scheduler::EndpointView>,
    senders: Seq<SenderState>,
    retries: Seq<(usize, u64)>,
    count: nat,
)
    requires
        count <= retries.len(),
        forall|i: int| 0 <= i < retries.len() ==> (#[trigger] retries[i]).0 < senders.len(),
        forall|i: int|
            0 <= i < senders.len() ==> (#[trigger] senders[i]).account.endpoint_index
                < endpoints.len(),
    ensures
        retries_scheduled(endpoints, senders, retries, count).0.len() == endpoints.len(),
        crate::spammer::scheduler::same_accounts(
            senders,
            retries_scheduled(endpoints, senders, retries, count).1,
        ),
    decreases count,
{
    if count > 0 {
        let less = (count - 1) as nat;
        retries_keep_lengths(endpoints, senders, retries, less);
        let (earlier, before) = retries_scheduled(endpoints, senders, retries, less);
        let sender = retries[count - 1].0;
        assert(senders[sender as int].account == before[sender as int].account);
    }
}

proof fn retries_stay_scheduled(
    endpoints: Seq<crate::spammer::scheduler::EndpointView>,
    senders: Seq<SenderState>,
    retries: Seq<(usize, u64)>,
    count: nat,
    at: int,
)
    requires
        0 <= at < count <= retries.len(),
        forall|i: int| 0 <= i < retries.len() ==> (#[trigger] retries[i]).0 < senders.len(),
        forall|i: int|
            0 <= i < senders.len() ==> (#[trigger] senders[i]).account.endpoint_index
                < endpoints.len(),
    ensures
        ({
            let (sender, time) = retries[at];
            let index = senders[sender as int].account.endpoint_index as int;
            let after = retries_scheduled(endpoints, senders, retries, count).0[index];
            after.delayed.to_multiset().count((time, sender)) > 0
        }),
    decreases count,
{
    let less = (count - 1) as nat;
    retries_keep_lengths(endpoints, senders, retries, less);
    let (earlier, before) = retries_scheduled(endpoints, senders, retries, less);
    let (sender, time) = retries[count - 1];
    let index = before[sender as int].account.endpoint_index as int;
    assert(senders[sender as int].account == before[sender as int].account);
    crate::spammer::scheduler::placing_counts_everybody(earlier[index].delayed, (time, sender));
    if at < less {
        retries_stay_scheduled(endpoints, senders, retries, less, at);
    }
}

/// Every retry that a poll collected is scheduled: its sender waits at its own endpoint until the time
/// of the retry.
pub proof fn collected_retries_are_scheduled(
    scheduler: &mut Scheduler,
    retries: Vec<(usize, u64)>,
    at: int,
)
    requires
        old(scheduler).well_formed(),
        forall|i: int|
            0 <= i < retries@.len() ==> (#[trigger] retries@[i]).0 < old(scheduler).senders@.len(),
        call_ensures(Scheduler::schedule_retries, (scheduler, &retries), ()),
        0 <= at < retries@.len(),
    ensures
        ({
            let (sender, time) = retries@[at];
            let index = old(scheduler).senders@[sender as int].account.endpoint_index as int;
            final(scheduler).endpoints@[index].delayed@.contains((time, sender))
        }),
{
    broadcast use vstd::seq_lib::group_to_multiset_ensures;

    let views = crate::spammer::scheduler::endpoint_views(old(scheduler).endpoints@);
    let after = crate::spammer::scheduler::endpoint_views(final(scheduler).endpoints@);
    let senders = old(scheduler).senders@;
    assert(views.len() == old(scheduler).endpoints@.len());
    retries_stay_scheduled(views, senders, retries@, retries@.len(), at);
    retries_keep_lengths(views, senders, retries@, retries@.len());
    let (sender, time) = retries@[at];
    let index = senders[sender as int].account.endpoint_index as int;
    assert(after.len() == final(scheduler).endpoints@.len());
    assert(after[index] == final(scheduler).endpoints@[index]@);
    assert(after[index].delayed.to_multiset().count((time, sender)) > 0);
}

/// The lines that a run ends with: what was completed and what failed over all endpoints, then each
/// endpoint with its own share.
pub proof fn summaries_name_every_endpoint(
    scheduler: Scheduler,
    lines: Vec<String>,
    index: int,
)
    requires
        call_ensures(Scheduler::summary_lines, (&scheduler,), lines),
        0 <= index < scheduler.endpoints@.len(),
    ensures
        lines@.len() == scheduler.endpoints@.len() + 2,
        lines@[0]@ == "completed: "@ + crate::text::decimal(
            total_completed(scheduler.endpoints@),
        ),
        lines@[1]@ == "failed: "@ + crate::text::decimal(total_failed(scheduler.endpoints@)),
        ("endpoint["@ + crate::text::decimal(index as nat) + "] "@).is_prefix_of(
            lines@[index + 2]@,
        ),
        ({
            let tail = " failed="@ + crate::text::decimal(
                scheduler.endpoints@[index].failed as nat,
            );
            lines@[index + 2]@.skip(lines@[index + 2]@.len() - tail.len()) == tail
        }),
{
    let endpoint = scheduler.endpoints@[index];
    let line = lines@[index + 2]@;
    let head = endpoint_line(endpoint@, index as nat);
    let middle = head + " completed="@ + crate::text::decimal(endpoint.completed as nat);
    let tail = " failed="@ + crate::text::decimal(endpoint.failed as nat);
    assert(line =~= middle + tail);
    assert(line.skip(line.len() - tail.len()) =~= tail);
    let start = "endpoint["@ + crate::text::decimal(index as nat) + "] "@;
    assert(start.is_prefix_of(head));
    assert(line.subrange(0, start.len() as int) =~= head.subrange(0, start.len() as int));
}

/// The words for a poll that ended early begin with the endpoint that ended it, and name what it
/// answered.
pub proof fn poll_errors_name_their_endpoint(
    error: PollError,
    from: &[u8],
    to: &[u8],
    text: String,
)
    requires
        call_ensures(PollError::message, (&error, from, to), text),
    ensures
        match error {
            PollError::StatusCount { endpoint, returned, requested } => (endpoint@ + " returned "@
                + crate::text::decimal(returned as nat) + " statuses for "@ + crate::text::decimal(
                requested as nat,
            )).is_prefix_of(text@),
            PollError::MismatchedHash { endpoint, tx_hash, sender_index } => (endpoint@
                + " returned mismatched tx hash "@ + tx_hash@ + " for sender "@
                + crate::text::decimal(sender_index as nat)).is_prefix_of(text@),
            PollError::Rejected(failure) => failure.endpoint@.is_prefix_of(text@) && text@.skip(
                text@.len() - failure.reason@.len(),
            ) == failure.reason@,
        },
{
    if let PollError::Rejected(failure) = error {
        assert(text@.skip(text@.len() - failure.reason@.len()) =~= failure.reason@);
    }
}

proof fn requests_are_bounded(
    endpoints: Seq<crate::spammer::scheduler::EndpointView>,
    senders: Seq<SenderState>,
    count: nat,
    at: int,
)
    requires
        count <= endpoints.len() <= usize::MAX,
        0 <= at < requests_for(endpoints, senders, count).len(),
    ensures
        ({
            let (index, asked) = requests_for(endpoints, senders, count)[at];
            &&& index < count
            &&& 0 < asked.len() <= 32_768
            &&& forall|k: int|
                0 <= k < asked.len() ==> endpoints[index as int].sender_indices.contains(
                    #[trigger] asked[k],
                )
        }),
    decreases count,
{
    if count > 0 {
        let less = (count - 1) as nat;
        let earlier = requests_for(endpoints, senders, less);
        let list = unsettled(senders, endpoints[count - 1].sender_indices);
        let own = pieces(list, STATUS_POLL_BATCH_SIZE as nat);
        let added = Seq::new(own.len(), |i: int| ((count - 1) as usize, own[i]));
        let all = requests_for(endpoints, senders, count);
        assert(all == earlier + added);
        if at < earlier.len() {
            assert(all[at] == earlier[at]);
            requests_are_bounded(endpoints, senders, less, at);
        } else {
            let piece = at - earlier.len();
            assert(all[at] == added[piece]);
            pieces_cover(list, STATUS_POLL_BATCH_SIZE as nat);
            assert(0 < own[piece].len() <= STATUS_POLL_BATCH_SIZE);
            unsettled_are_pending(senders, endpoints[count - 1].sender_indices);
            assert forall|k: int| 0 <= k < own[piece].len() implies endpoints[count
                - 1].sender_indices.contains(#[trigger] own[piece][k]) by {
                pieces_come_from_list(list, STATUS_POLL_BATCH_SIZE as nat, piece, k);
                let i = choose|i: int| 0 <= i < list.len() && list[i] == own[piece][k];
                assert(endpoints[count - 1].sender_indices.contains(list[i]));
            }
        }
    }
}

proof fn pieces_come_from_list(list: Seq<usize>, size: nat, piece: int, k: int)
    requires
        size > 0,
        0 <= piece < pieces(list, size).len(),
        0 <= k < pieces(list, size)[piece].len(),
    ensures
        list.contains(pieces(list, size)[piece][k]),
    decreases list.len(),
{
    if list.len() <= size {
        assert(list[k] == pieces(list, size)[piece][k]);
    } else {
        let first = list.take(size as int);
        let back = list.skip(size as int);
        let rest = pieces(back, size);
        let all = seq![first] + rest;
        assert(pieces(list, size) == all);
        if piece == 0 {
            assert(all[0] == first);
            assert(list[k] == first[k]);
        } else {
            assert(all[piece] == rest[piece - 1]);
            pieces_come_from_list(back, size, piece - 1, k);
            let i = choose|i: int| 0 <= i < back.len() && back[i] == rest[piece - 1][k];
            assert(list[size + i] == back[i]);
        }
    }
}

/// A status poll asks an endpoint only for transactions of its own senders that are not settled, with
/// one hash for each, and for no more than 32 768 at once.
pub proof fn polls_ask_only_for_own_transactions(
    scheduler: Scheduler,
    requests: Vec<PollRequest>,
    at: int,
    k: int,
)
    requires
        scheduler.well_formed(),
        call_ensures(Scheduler::plan_poll, (&scheduler,), requests),
        0 <= at < requests@.len(),
        0 <= k < requests@[at].senders@.len(),
    ensures
        ({
            let request = requests@[at];
            let sender = request.senders@[k] as int;
            &&& request.senders@.len() <= 32_768
            &&& request.tx_hashes@.len() == request.senders@.len()
            &&& sender < scheduler.senders@.len()
            &&& scheduler.senders@[sender].account.endpoint_index == request.endpoint_index
            &&& scheduler.senders@[sender].pending_tx_hash == Some(request.tx_hashes@[k])
        }),
{
    let views = crate::spammer::scheduler::endpoint_views(scheduler.endpoints@);
    let senders = scheduler.senders@;
    let asked = requests_for(views, senders, views.len());
    assert(scheduler.senders.len() == senders.len());
    assert(scheduler.endpoints.len() == views.len());
    assert(asks(requests@[at], senders, asked[at]));
    requests_are_bounded(views, senders, views.len(), at);
    let index = asked[at].0 as int;
    assert(views[index] == scheduler.endpoints@[index]@);
    assert(
        crate::spammer::scheduler::endpoint_sound(scheduler.endpoints@[index]@, senders, index)
    );
    let sender = requests@[at].senders@[k];
    assert(views[index].sender_indices.contains(sender));
    crate::spammer::scheduler::senders_of_are_own(senders, index, senders.len(), sender);
    assert(senders[asked[at].1[k] as int].pending_tx_hash == Some(requests@[at].tx_hashes@[k]));
}

} // verus!

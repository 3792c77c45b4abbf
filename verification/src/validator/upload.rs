//! Finalized uploads: the cursor that recovery resumes from, the queue that feeds the uploader, and
//! how many uploads run at once.

use crate::validator::config::IndexerConfig;
use vstd::prelude::*;

verus! {

/// Uploads that run at once, at most.
pub const MAX_FINALIZED_QUEUE_UPLOADS: usize = 64;

/// The next state and transaction locations to upload, captured from one finalized block.
#[derive(Debug, Clone, Copy, PartialEq, Eq, Structural)]
pub struct FinalizedUploadCursor {
    /// Next state location.
    pub state_next: u64,
    /// Next transaction location.
    pub transaction_next: u64,
}

impl Default for FinalizedUploadCursor {
    fn default() -> (cursor: Self)
        ensures
            cursor == FinalizedUploadCursor::origin(),
    {
        FinalizedUploadCursor { state_next: 0, transaction_next: 0 }
    }
}

impl FinalizedUploadCursor {
    /// Nothing has been uploaded.
    pub open spec fn origin() -> FinalizedUploadCursor {
        FinalizedUploadCursor { state_next: 0, transaction_next: 0 }
    }

    /// Whether this frontier is not behind another: state first, then transactions.
    pub open spec fn reaches(self, other: FinalizedUploadCursor) -> bool {
        self.state_next > other.state_next || (self.state_next == other.state_next
            && self.transaction_next >= other.transaction_next)
    }

    /// The later of two frontiers.
    pub open spec fn later(self, other: FinalizedUploadCursor) -> FinalizedUploadCursor {
        if self.reaches(other) {
            self
        } else {
            other
        }
    }

    /// Reads a cursor from its stored halves; a half alone is no cursor.
    pub fn from_parts(state_next: Option<u64>, transaction_next: Option<u64>) -> (cursor: Option<
        Self,
    >)
        ensures
            cursor == match (state_next, transaction_next) {
                (Some(state_next), Some(transaction_next)) => Some(
                    FinalizedUploadCursor { state_next, transaction_next },
                ),
                _ => None,
            },
    {
        match (state_next, transaction_next) {
            (Some(state_next), Some(transaction_next)) => Some(
                FinalizedUploadCursor { state_next, transaction_next },
            ),
            _ => None,
        }
    }

    /// Reads a cursor off the ends of an upload.
    pub fn from_upload(state_end: u64, transaction_end: u64) -> (cursor: Self)
        ensures
            cursor == (FinalizedUploadCursor {
                state_next: state_end,
                transaction_next: transaction_end,
            }),
    {
        FinalizedUploadCursor { state_next: state_end, transaction_next: transaction_end }
    }

    /// Returns the later frontier as a whole cursor pair. Halves are never mixed: a mixed frontier
    /// may never have existed.
    pub fn max(self, other: Self) -> (cursor: Self)
        ensures
            cursor == self.later(other),
    {
        if other.state_next > self.state_next || (other.state_next == self.state_next
            && other.transaction_next > self.transaction_next) {
            other
        } else {
            self
        }
    }
}

/// The later of two frontiers is one of them, whole, and behind neither.
pub proof fn later_is_a_whole_frontier(left: FinalizedUploadCursor, right: FinalizedUploadCursor)
    ensures
        left.later(right) == left || left.later(right) == right,
        left.later(right).reaches(left),
        left.later(right).reaches(right),
{
}

/// Which of two frontiers is later depends neither on their order nor on repetition.
pub proof fn later_is_an_order(
    a: FinalizedUploadCursor,
    b: FinalizedUploadCursor,
    c: FinalizedUploadCursor,
)
    ensures
        a.later(b) == b.later(a),
        a.later(a) == a,
        a.later(b).later(c) == a.later(b.later(c)),
        FinalizedUploadCursor::origin().later(a) == a,
{
}

/// The frontier that recovery resumes from.
pub open spec fn recovered(
    metadata: Option<FinalizedUploadCursor>,
    queue: Option<FinalizedUploadCursor>,
) -> FinalizedUploadCursor {
    let stored = match metadata {
        Some(cursor) => cursor,
        None => FinalizedUploadCursor::origin(),
    };
    let queued = match queue {
        Some(cursor) => cursor,
        None => FinalizedUploadCursor::origin(),
    };
    stored.later(queued)
}

/// Returns the frontier that recovery resumes from: the later of what was stored and what was
/// queued.
pub fn recovered_finalized_upload_cursor(
    metadata: Option<FinalizedUploadCursor>,
    queue: Option<FinalizedUploadCursor>,
) -> (cursor: FinalizedUploadCursor)
    ensures
        cursor == recovered(metadata, queue),
{
    let stored = match metadata {
        Some(cursor) => cursor,
        None => FinalizedUploadCursor { state_next: 0, transaction_next: 0 },
    };
    let queued = match queue {
        Some(cursor) => cursor,
        None => FinalizedUploadCursor { state_next: 0, transaction_next: 0 },
    };
    stored.max(queued)
}

/// Recovery never goes back behind what was stored or queued.
pub proof fn recovery_keeps_progress(
    metadata: Option<FinalizedUploadCursor>,
    queue: Option<FinalizedUploadCursor>,
)
    ensures
        metadata matches Some(cursor) ==> recovered(metadata, queue).reaches(cursor),
        queue matches Some(cursor) ==> recovered(metadata, queue).reaches(cursor),
{
}

/// Returns the frontier that recovery resumes from, and whether it has to be stored first.
pub fn recover_cursor(
    metadata: Option<FinalizedUploadCursor>,
    queue: Option<FinalizedUploadCursor>,
) -> (recovery: (FinalizedUploadCursor, bool))
    ensures
        recovery.0 == recovered(metadata, queue),
        recovery.1 == (metadata != Some(recovery.0)),
{
    let cursor = recovered_finalized_upload_cursor(metadata, queue);
    let stale = match metadata {
        Some(stored) => stored != cursor,
        None => true,
    };
    (cursor, stale)
}

/// Returns the cursor of the last queued upload.
pub fn scan_finalized_queue_cursor(uploads: &Vec<FinalizedUploadCursor>) -> (cursor: Option<
    FinalizedUploadCursor,
>)
    ensures
        cursor == if uploads@.len() == 0 {
            None
        } else {
            Some(uploads@.last())
        },
{
    if uploads.len() == 0 {
        None
    } else {
        Some(uploads[uploads.len() - 1])
    }
}

/// How building an upload ended.
#[derive(Debug, Clone, Copy, PartialEq, Eq, Structural)]
pub enum BuildOutcome {
    /// The upload was built and ends here.
    Built(FinalizedUploadCursor),
    /// The store is empty although the chain is past its genesis.
    StoreEmptyPastGenesis,
    /// The upload could not be built.
    Failed,
}

/// What the producer does after it tried to build an upload.
#[derive(Debug, Clone, Copy, PartialEq, Eq, Structural)]
pub enum ProducerStep {
    /// Queue the upload, which ends here.
    Enqueue(FinalizedUploadCursor),
    /// Ask the remote store where it stands.
    AskRemote,
    /// Wait, then build again.
    RetryLater,
}

/// The producer of finalized uploads.
#[derive(Debug, Clone, Copy, PartialEq, Eq, Structural)]
pub struct FinalizedUploadProducer {
    /// Where the next upload starts.
    pub cursor: FinalizedUploadCursor,
}

impl FinalizedUploadProducer {
    /// Decides what follows a build. The remote store is asked only while nothing is known locally.
    pub fn after_build(&self, outcome: BuildOutcome) -> (step: ProducerStep)
        ensures
            step == match outcome {
                BuildOutcome::Built(next) => ProducerStep::Enqueue(next),
                BuildOutcome::StoreEmptyPastGenesis => if self.cursor.state_next == 0 {
                    ProducerStep::AskRemote
                } else {
                    ProducerStep::RetryLater
                },
                BuildOutcome::Failed => ProducerStep::RetryLater,
            },
    {
        match outcome {
            BuildOutcome::Built(next) => ProducerStep::Enqueue(next),
            BuildOutcome::StoreEmptyPastGenesis => if self.cursor.state_next == 0 {
                ProducerStep::AskRemote
            } else {
                ProducerStep::RetryLater
            },
            BuildOutcome::Failed => ProducerStep::RetryLater,
        }
    }

    /// Takes in where the remote store stands. Returns whether to build again at once; a store that
    /// stands at the origin tells nothing.
    pub fn after_remote(&mut self, state_next: u64, transaction_next: u64) -> (rebuild: bool)
        ensures
            rebuild == !(state_next == 0 && transaction_next == 0),
            final(self).cursor == if rebuild {
                FinalizedUploadCursor { state_next, transaction_next }
            } else {
                old(self).cursor
            },
    {
        if state_next == 0 && transaction_next == 0 {
            return false;
        }
        self.cursor = FinalizedUploadCursor { state_next, transaction_next };
        true
    }

    /// Takes in whether the upload that ends at `next` was queued. Returns whether the block is
    /// done; the cursor moves only with a queued upload.
    pub fn after_enqueue(&mut self, next: FinalizedUploadCursor, queued: bool) -> (done: bool)
        ensures
            done == queued,
            final(self).cursor == if queued {
                next
            } else {
                old(self).cursor
            },
    {
        if queued {
            self.cursor = next;
        }
        queued
    }
}

/// The consumer of finalized uploads: how many run, and whether more can come.
#[derive(Debug, Clone, Copy, PartialEq, Eq, Structural)]
pub struct UploadConsumer {
    /// Uploads that run.
    pub active: usize,
    /// Whether the queue has ended.
    pub reader_closed: bool,
    /// Uploads that may run at once.
    pub max_active: usize,
}

impl UploadConsumer {
    /// Whether no more run than may.
    pub open spec fn well_formed(self) -> bool {
        1 <= self.max_active && self.active <= self.max_active
    }

    /// Whether another upload may start.
    pub open spec fn has_room(self) -> bool {
        self.active < self.max_active
    }

    /// Whether the queue may be waited on.
    pub open spec fn receives(self) -> bool {
        !self.reader_closed && self.has_room()
    }

    /// Whether a running upload may be waited on.
    pub open spec fn joins(self) -> bool {
        self.active > 0
    }

    /// Whether everything is uploaded and nothing can come.
    pub open spec fn done(self) -> bool {
        self.reader_closed && self.active == 0
    }

    /// Nothing runs yet; one upload may always run.
    pub fn new(max_active: usize) -> (consumer: Self)
        ensures
            consumer.well_formed(),
            consumer.active == 0,
            !consumer.reader_closed,
            consumer.max_active == if max_active < 1 {
                1
            } else {
                max_active
            },
    {
        UploadConsumer {
            active: 0,
            reader_closed: false,
            max_active: if max_active < 1 { 1 } else { max_active },
        }
    }

    /// Returns whether another upload may start.
    pub fn wants_more(&self) -> (room: bool)
        ensures
            room == self.has_room(),
    {
        self.active < self.max_active
    }

    /// Returns whether the queue may be waited on.
    pub fn may_receive(&self) -> (receives: bool)
        ensures
            receives == self.receives(),
    {
        !self.reader_closed && self.active < self.max_active
    }

    /// Returns whether a running upload may be waited on.
    pub fn may_join(&self) -> (joins: bool)
        ensures
            joins == self.joins(),
    {
        self.active > 0
    }

    /// Returns whether the consumer can stop.
    pub fn is_done(&self) -> (done: bool)
        ensures
            done == self.done(),
    {
        self.reader_closed && self.active == 0
    }

    /// Notes that an upload started.
    pub fn on_started(&mut self)
        requires
            old(self).well_formed(),
            old(self).has_room(),
        ensures
            final(self).well_formed(),
            *final(self) == (UploadConsumer { active: (old(self).active + 1) as usize, ..*old(self) }),
    {
        self.active = self.active + 1;
    }

    /// Notes that an upload was acknowledged.
    pub fn on_completed(&mut self)
        requires
            old(self).well_formed(),
            old(self).joins(),
        ensures
            final(self).well_formed(),
            *final(self) == (UploadConsumer { active: (old(self).active - 1) as usize, ..*old(self) }),
    {
        self.active = self.active - 1;
    }

    /// Notes that the queue has ended.
    pub fn on_closed(&mut self)
        requires
            old(self).well_formed(),
        ensures
            final(self).well_formed(),
            *final(self) == (UploadConsumer { reader_closed: true, ..*old(self) }),
    {
        self.reader_closed = true;
    }
}

/// How far the acknowledgement of an upload has come.
#[derive(Debug, Clone, Copy, PartialEq, Eq, Structural)]
pub enum AckPhase {
    /// The queue entry is to be acknowledged.
    Acknowledge,
    /// The acknowledgement is to be made durable.
    Sync,
    /// The upload is settled.
    Settled,
}

impl AckPhase {
    /// Returns what follows an attempt: a failed one is repeated.
    pub fn after_attempt(self, succeeded: bool) -> (next: AckPhase)
        ensures
            next == match self {
                AckPhase::Acknowledge => if succeeded {
                    AckPhase::Sync
                } else {
                    AckPhase::Acknowledge
                },
                AckPhase::Sync => if succeeded {
                    AckPhase::Settled
                } else {
                    AckPhase::Sync
                },
                AckPhase::Settled => AckPhase::Settled,
            },
    {
        if !succeeded {
            return self;
        }
        match self {
            AckPhase::Acknowledge => AckPhase::Sync,
            AckPhase::Sync => AckPhase::Settled,
            AckPhase::Settled => AckPhase::Settled,
        }
    }
}

/// A consumer that cannot stop always has something to wait for.
pub proof fn consumer_never_stalls(consumer: UploadConsumer)
    requires
        consumer.well_formed(),
        !consumer.done(),
    ensures
        consumer.receives() || consumer.joins(),
{
}

/// What an indexing secondary sets up.
#[derive(Debug, Clone)]
pub struct IndexerPlan {
    /// URL of the shared store.
    pub chain_indexer_url: String,
    /// Blocks buffered before upload.
    pub upload_buffer: usize,
    /// Partition of the upload queue.
    pub queue_partition: String,
    /// Partition of the cursor.
    pub cursor_partition: String,
    /// Uploads that may run at once.
    pub max_active_uploads: usize,
}

/// Whether a plan indexes what `config` asks for.
pub open spec fn plans_indexer(
    plan: IndexerPlan,
    config: IndexerConfig,
    partition_prefix: Seq<char>,
) -> bool {
    &&& plan.chain_indexer_url == config.chain_indexer_url
    &&& plan.upload_buffer == config.upload_buffer
    &&& plan.queue_partition@ == partition_prefix + "-finalized-index-queue"@
    &&& plan.cursor_partition@ == partition_prefix + "-finalized-index-cursor"@
    &&& plan.max_active_uploads == if config.upload_buffer < 1 {
        1
    } else if config.upload_buffer > MAX_FINALIZED_QUEUE_UPLOADS {
        MAX_FINALIZED_QUEUE_UPLOADS
    } else {
        config.upload_buffer
    }
}

/// Plans the indexer, if the node is a secondary that opted in.
pub fn maybe_build_indexer(
    is_primary: bool,
    indexer: Option<IndexerConfig>,
    partition_prefix: &str,
) -> (plan: Option<IndexerPlan>)
    ensures
        match plan {
            Some(plan) => !is_primary && (indexer matches Some(config) && plans_indexer(
                plan,
                config,
                partition_prefix@,
            )),
            None => is_primary || indexer is None,
        },
{
    let config = match indexer {
        Some(config) => config,
        None => return None,
    };
    if is_primary {
        return None;
    }
    let mut queue_partition = partition_prefix.to_string();
    queue_partition.append("-finalized-index-queue");
    let mut cursor_partition = partition_prefix.to_string();
    cursor_partition.append("-finalized-index-cursor");
    let max_active_uploads: usize = if config.upload_buffer < 1 {
        1
    } else if config.upload_buffer > MAX_FINALIZED_QUEUE_UPLOADS {
        MAX_FINALIZED_QUEUE_UPLOADS
    } else {
        config.upload_buffer
    };
    Some(
        IndexerPlan {
            chain_indexer_url: config.chain_indexer_url,
            upload_buffer: config.upload_buffer,
            queue_partition,
            cursor_partition,
            max_active_uploads,
        },
    )
}

/// Of two frontiers the one with the further state is the later, and of two with the same state the
/// one with the further transactions.
pub proof fn state_decides_before_transactions(
    left: FinalizedUploadCursor,
    right: FinalizedUploadCursor,
)
    ensures
        left.state_next > right.state_next ==> left.later(right) == left && right.later(left)
            == left,
        left.state_next == right.state_next && left.transaction_next > right.transaction_next
            ==> left.later(right) == left && right.later(left) == left,
{
}

/// Recovery resumes from the one frontier that is known, from the later of two, or from the start,
/// and stores it first unless just that is stored.
pub proof fn recovery_resumes_from_known_frontier(
    metadata: Option<FinalizedUploadCursor>,
    queue: Option<FinalizedUploadCursor>,
    recovery: (FinalizedUploadCursor, bool),
)
    requires
        call_ensures(recover_cursor, (metadata, queue), recovery),
    ensures
        metadata is None && queue is None ==> recovery.0.state_next == 0
            && recovery.0.transaction_next == 0,
        metadata is None && queue is Some ==> Some(recovery.0) == queue,
        metadata is Some && queue is None ==> Some(recovery.0) == metadata,
        (metadata, queue) matches (Some(stored), Some(queued)) ==> recovery.0 == stored.later(
            queued,
        ),
        recovery.1 <==> metadata != Some(recovery.0),
{
}

/// Only a secondary that opted in indexes. It runs as many uploads at once as it buffers blocks, but
/// at least one and at most 64, and keeps its queue and its cursor apart.
pub proof fn indexer_runs_bounded_uploads(
    is_primary: bool,
    indexer: Option<IndexerConfig>,
    partition_prefix: &str,
    plan: Option<IndexerPlan>,
)
    requires
        call_ensures(maybe_build_indexer, (is_primary, indexer, partition_prefix), plan),
    ensures
        plan is Some <==> !is_primary && indexer is Some,
        plan matches Some(plan) ==> {
            &&& 1 <= plan.max_active_uploads <= 64
            &&& indexer matches Some(config) ==> {
                &&& plan.chain_indexer_url == config.chain_indexer_url
                &&& plan.upload_buffer == config.upload_buffer
                &&& 1 <= config.upload_buffer <= 64 ==> plan.max_active_uploads
                    == config.upload_buffer
                &&& config.upload_buffer > 64 ==> plan.max_active_uploads == 64
            }
            &&& partition_prefix@.is_prefix_of(plan.queue_partition@)
            &&& partition_prefix@.is_prefix_of(plan.cursor_partition@)
            &&& plan.queue_partition@ != plan.cursor_partition@
        },
{
    if let Some(plan) = plan {
        let prefix = partition_prefix@;
        let queue = "-finalized-index-queue"@;
        let cursor = "-finalized-index-cursor"@;
        reveal_strlit("-finalized-index-queue");
        reveal_strlit("-finalized-index-cursor");
        assert((prefix + queue).len() != (prefix + cursor).len());
    }
}

/// The producer's cursor moves only with an upload that was queued, and then to where that upload
/// ends.
pub proof fn cursor_moves_with_queued_uploads(
    producer: &mut FinalizedUploadProducer,
    next: FinalizedUploadCursor,
    queued: bool,
    done: bool,
)
    requires
        call_ensures(FinalizedUploadProducer::after_enqueue, (producer, next, queued), done),
    ensures
        done <==> queued,
        queued ==> final(producer).cursor == next,
        !queued ==> final(producer).cursor == old(producer).cursor,
{
}

/// The remote store is asked only by a producer that has nothing yet, and its answer counts unless it
/// has nothing either.
pub proof fn remote_store_helps_out(
    producer: &mut FinalizedUploadProducer,
    outcome: BuildOutcome,
    step: ProducerStep,
    state_next: u64,
    transaction_next: u64,
    rebuild: bool,
)
    requires
        call_ensures(FinalizedUploadProducer::after_build, (old(producer), outcome), step),
        call_ensures(
            FinalizedUploadProducer::after_remote,
            (producer, state_next, transaction_next),
            rebuild,
        ),
    ensures
        step is AskRemote <==> outcome is StoreEmptyPastGenesis && old(producer).cursor.state_next
            == 0,
        outcome matches BuildOutcome::Built(next) ==> step == ProducerStep::Enqueue(next),
        outcome is Failed ==> step is RetryLater,
        rebuild <==> state_next > 0 || transaction_next > 0,
        rebuild ==> final(producer).cursor.state_next == state_next
            && final(producer).cursor.transaction_next == transaction_next,
        !rebuild ==> final(producer).cursor == old(producer).cursor,
{
}

/// A consumer never runs more uploads than it may: it takes a new one only while there is room, and
/// is done only when the queue has ended and nothing runs.
pub proof fn consumer_keeps_its_limit(
    starting: &mut UploadConsumer,
    completing: &mut UploadConsumer,
    receives: bool,
    done: bool,
)
    requires
        old(starting).well_formed(),
        call_ensures(UploadConsumer::may_receive, (old(starting),), receives),
        receives,
        call_ensures(UploadConsumer::on_started, (starting,), ()),
        *old(completing) == *final(starting),
        call_ensures(UploadConsumer::on_completed, (completing,), ()),
        call_ensures(UploadConsumer::is_done, (final(starting),), done),
    ensures
        old(starting).active < old(starting).max_active,
        final(starting).active == old(starting).active + 1,
        final(starting).active <= final(starting).max_active,
        !done,
        *final(completing) == *old(starting),
{
}

/// The queue's cursor is that of its last upload, and of two frontiers [`FinalizedUploadCursor::max`]
/// gives the later one whole, whichever comes first.
pub proof fn frontiers_are_kept_whole(
    left: FinalizedUploadCursor,
    right: FinalizedUploadCursor,
    forth: FinalizedUploadCursor,
    back: FinalizedUploadCursor,
    uploads: Vec<FinalizedUploadCursor>,
    scanned: Option<FinalizedUploadCursor>,
)
    requires
        call_ensures(FinalizedUploadCursor::max, (left, right), forth),
        call_ensures(FinalizedUploadCursor::max, (right, left), back),
        call_ensures(scan_finalized_queue_cursor, (&uploads,), scanned),
    ensures
        forth == back,
        forth == left || forth == right,
        forth.state_next >= left.state_next && forth.state_next >= right.state_next,
        left.state_next == right.state_next ==> forth.transaction_next >= left.transaction_next
            && forth.transaction_next >= right.transaction_next,
        scanned is None <==> uploads@.len() == 0,
        uploads@.len() > 0 ==> scanned == Some(uploads@[uploads@.len() - 1]),
{
}

/// An upload is settled after its entry was acknowledged and the acknowledgement was made durable; a
/// failed attempt is repeated.
pub proof fn uploads_settle_in_two_steps(
    start: AckPhase,
    succeeded: bool,
    middle: AckPhase,
    again: bool,
    end: AckPhase,
)
    requires
        start is Acknowledge,
        call_ensures(AckPhase::after_attempt, (start, succeeded), middle),
        call_ensures(AckPhase::after_attempt, (middle, again), end),
    ensures
        end is Settled <==> succeeded && again,
        !succeeded ==> middle == start,
        succeeded ==> middle is Sync,
        succeeded && !again ==> end == middle,
{
}

} // verus!

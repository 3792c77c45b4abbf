//! Submission outcomes.
//!
//! Each relayer stream submits one batch at a time and advances to the next pre-signed batch after
//! finalization, drop, or submit failure.

use std::collections::HashSet;
use vstd::prelude::*;

verus! {

broadcast use vstd::std_specs::hash::group_hash_axioms;

/// Pause after a failed submission.
pub const SUBMIT_ERROR_BACKOFF_MS: u64 = 100;

/// What the relayer reports of a batch.
#[derive(Debug, Clone)]
pub enum RelayerBatchStatus {
    Finalized { height: u64 },
    PartiallyFinalized { height: u64, included: Vec<u64>, filtered: u64 },
    Dropped,
}

/// Why a submission failed.
#[derive(Debug, Clone, Copy, PartialEq, Eq, Structural)]
pub enum SubmitError {
    /// The relayer was not reached.
    Transport,
    /// The answer could not be read.
    InvalidResponse,
    BadRequest,
    PayloadTooLarge,
    InternalServerError,
    ServiceUnavailable,
    Unexpected(u16),
}

/// The error that an HTTP status stands for, if it is one.
pub open spec fn error_for(status: u16) -> Option<SubmitError> {
    if status == 200 {
        None
    } else if status == 400 {
        Some(SubmitError::BadRequest)
    } else if status == 413 {
        Some(SubmitError::PayloadTooLarge)
    } else if status == 500 {
        Some(SubmitError::InternalServerError)
    } else if status == 503 {
        Some(SubmitError::ServiceUnavailable)
    } else {
        Some(SubmitError::Unexpected(status))
    }
}

/// Returns the error that an HTTP status stands for; without one the body holds the batch status.
pub fn status_error(status: u16) -> (error: Option<SubmitError>)
    ensures
        error == error_for(status),
{
    match status {
        200 => None,
        400 => Some(SubmitError::BadRequest),
        413 => Some(SubmitError::PayloadTooLarge),
        500 => Some(SubmitError::InternalServerError),
        503 => Some(SubmitError::ServiceUnavailable),
        other => Some(SubmitError::Unexpected(other)),
    }
}

/// Counters read back for the periodic progress log.
#[derive(Debug, Clone, Copy, PartialEq, Eq, Structural)]
pub struct Totals {
    pub finalized: u64,
    pub filtered: u64,
    pub dropped: u64,
    pub errors: u64,
}

/// Counters shared across submitters.
#[derive(Debug, Clone, Copy, PartialEq, Eq, Structural)]
pub struct Stats {
    pub submitted_batches: u64,
    pub submitted_transactions: u64,
    pub finalized_transactions: u64,
    pub filtered_transactions: u64,
    pub dropped_transactions: u64,
    pub submit_errors: u64,
}

/// A counter after an increment; counters wrap around.
pub open spec fn counted(counter: u64, count: u64) -> u64 {
    if counter + count > u64::MAX {
        (counter + count - 0x1_0000_0000_0000_0000) as u64
    } else {
        (counter + count) as u64
    }
}

fn bump(counter: u64, count: u64) -> (next: u64)
    ensures
        next == counted(counter, count),
{
    if count > u64::MAX - counter {
        count - (u64::MAX - counter) - 1
    } else {
        counter + count
    }
}

impl Stats {
    /// The counters after a submission of `count` transactions.
    pub open spec fn after_reply(
        self,
        count: u64,
        reply: Result<RelayerBatchStatus, SubmitError>,
    ) -> Stats {
        let sent = Stats {
            submitted_batches: counted(self.submitted_batches, 1),
            submitted_transactions: counted(self.submitted_transactions, count),
            ..self
        };
        match reply {
            Ok(RelayerBatchStatus::Finalized { .. }) => Stats {
                finalized_transactions: counted(sent.finalized_transactions, count),
                ..sent
            },
            Ok(RelayerBatchStatus::PartiallyFinalized { included, filtered, .. }) => Stats {
                finalized_transactions: counted(
                    sent.finalized_transactions,
                    included@.len() as u64,
                ),
                filtered_transactions: counted(sent.filtered_transactions, filtered),
                ..sent
            },
            Ok(RelayerBatchStatus::Dropped) => Stats {
                dropped_transactions: counted(sent.dropped_transactions, count),
                ..sent
            },
            Err(_) => Stats { submit_errors: counted(sent.submit_errors, 1), ..sent },
        }
    }

    /// Nothing has been counted.
    pub fn new() -> (stats: Self)
        ensures
            stats == (Stats {
                submitted_batches: 0,
                submitted_transactions: 0,
                finalized_transactions: 0,
                filtered_transactions: 0,
                dropped_transactions: 0,
                submit_errors: 0,
            }),
    {
        Stats {
            submitted_batches: 0,
            submitted_transactions: 0,
            finalized_transactions: 0,
            filtered_transactions: 0,
            dropped_transactions: 0,
            submit_errors: 0,
        }
    }

    /// Returns the counters of the progress log.
    pub fn totals(&self) -> (totals: Totals)
        ensures
            totals == (Totals {
                finalized: self.finalized_transactions,
                filtered: self.filtered_transactions,
                dropped: self.dropped_transactions,
                errors: self.submit_errors,
            }),
    {
        Totals {
            finalized: self.finalized_transactions,
            filtered: self.filtered_transactions,
            dropped: self.dropped_transactions,
            errors: self.submit_errors,
        }
    }

    /// Counts a submission of `count` transactions and what the relayer replied.
    fn record(&mut self, count: u64, reply: &Result<RelayerBatchStatus, SubmitError>)
        ensures
            *final(self) == old(self).after_reply(count, *reply),
    {
        self.submitted_batches = bump(self.submitted_batches, 1);
        self.submitted_transactions = bump(self.submitted_transactions, count);
        match reply {
            Ok(RelayerBatchStatus::Finalized { .. }) => {
                self.finalized_transactions = bump(self.finalized_transactions, count);
            },
            Ok(RelayerBatchStatus::PartiallyFinalized { included, filtered, .. }) => {
                self.finalized_transactions =
                bump(self.finalized_transactions, included.len() as u64);
                self.filtered_transactions = bump(self.filtered_transactions, *filtered);
            },
            Ok(RelayerBatchStatus::Dropped) => {
                self.dropped_transactions = bump(self.dropped_transactions, count);
            },
            Err(_) => {
                self.submit_errors = bump(self.submit_errors, 1);
            },
        }
    }
}

/// Which transactions in a submitted private batch finalized.
pub enum SubmitOutcome {
    /// Every transaction in the batch finalized.
    AllFinalized,
    /// Only the transactions at these batch indices finalized.
    Partial(HashSet<u64>),
    /// Nothing finalized (dropped or submit error): retry with fresh proofs.
    NoneFinalized,
}

impl SubmitOutcome {
    /// Whether the transaction at `index` finalized.
    pub open spec fn has(self, index: u64) -> bool {
        match self {
            SubmitOutcome::AllFinalized => true,
            SubmitOutcome::Partial(included) => included@.contains(index),
            SubmitOutcome::NoneFinalized => false,
        }
    }

    /// Returns whether the transaction at `index` in the submitted batch finalized.
    pub fn finalized(&self, index: u64) -> (finalized: bool)
        ensures
            finalized == self.has(index),
    {
        match self {
            SubmitOutcome::AllFinalized => true,
            SubmitOutcome::Partial(included) => included.contains(&index),
            SubmitOutcome::NoneFinalized => false,
        }
    }
}

/// Whether a reply says that the transaction at `index` finalized.
pub open spec fn reports(reply: Result<RelayerBatchStatus, SubmitError>, index: u64) -> bool {
    match reply {
        Ok(RelayerBatchStatus::Finalized { .. }) => true,
        Ok(RelayerBatchStatus::PartiallyFinalized { included, .. }) => included@.contains(index),
        _ => false,
    }
}

/// Returns how long to pause before the next batch: after a reply not at all, and after a failure for
/// a while.
pub fn submit_pause(reply: &Result<RelayerBatchStatus, SubmitError>) -> (pause_ms: u64)
    ensures
        pause_ms == if reply is Err {
            SUBMIT_ERROR_BACKOFF_MS
        } else {
            0
        },
{
    match reply {
        Ok(_) => 0,
        Err(_) => SUBMIT_ERROR_BACKOFF_MS,
    }
}

/// Counts a submission and returns how long to pause before the next batch. Failed or dropped
/// batches are abandoned, so that the next batch uses a fresh nonce set.
pub fn submit(
    stats: &mut Stats,
    count: u64,
    reply: &Result<RelayerBatchStatus, SubmitError>,
) -> (pause_ms: u64)
    ensures
        *final(stats) == old(stats).after_reply(count, *reply),
        pause_ms == if reply is Err {
            SUBMIT_ERROR_BACKOFF_MS
        } else {
            0
        },
{
    stats.record(count, reply);
    submit_pause(reply)
}

/// Counts a private submission and returns which transactions finalized. The reply is definitive,
/// so only the finalized accounts advance and the rest are retried with fresh proofs.
pub fn submit_private(
    stats: &mut Stats,
    count: u64,
    reply: &Result<RelayerBatchStatus, SubmitError>,
) -> (outcome: SubmitOutcome)
    ensures
        *final(stats) == old(stats).after_reply(count, *reply),
        match *reply {
            Ok(RelayerBatchStatus::Finalized { .. }) => outcome is AllFinalized,
            Ok(RelayerBatchStatus::PartiallyFinalized { included, .. }) => {
                outcome matches SubmitOutcome::Partial(indices) && indices@ == included@.to_set()
            },
            Ok(RelayerBatchStatus::Dropped) => outcome is NoneFinalized,
            Err(_) => outcome is NoneFinalized,
        },
        forall|index: u64| #[trigger] outcome.has(index) == reports(*reply, index),
{
    stats.record(count, reply);
    match reply {
        Ok(RelayerBatchStatus::Finalized { .. }) => SubmitOutcome::AllFinalized,
        Ok(RelayerBatchStatus::PartiallyFinalized { included, .. }) => {
            let mut indices: HashSet<u64> = HashSet::new();
            let mut i: usize = 0;
            while i < included.len()
                invariant
                    i <= included@.len(),
                    forall|index: u64| #[trigger]
                        indices@.contains(index) == included@.take(i as int).contains(index),
                decreases included@.len() - i,
            {
                let index: u64 = included[i];
                indices.insert(index);
                proof {
                    let seen = included@.take(i as int);
                    let next = included@.take(i + 1);
                    assert(next =~= seen.push(index));
                    assert forall|other: u64| #[trigger] indices@.contains(other)
                        == next.contains(other) by {
                        if seen.contains(other) {
                            let at = choose|at: int| 0 <= at < seen.len() && seen[at] == other;
                            assert(next[at] == other);
                        }
                        if next.contains(other) && other != index {
                            let at = choose|at: int| 0 <= at < next.len() && next[at] == other;
                            assert(seen[at] == other);
                        }
                        assert(next[i as int] == index);
                    }
                }
                i += 1;
            }
            proof {
                assert(included@.take(i as int) =~= included@);
                assert(indices@ =~= included@.to_set());
            }
            SubmitOutcome::Partial(indices)
        },
        Ok(RelayerBatchStatus::Dropped) => SubmitOutcome::NoneFinalized,
        Err(_) => SubmitOutcome::NoneFinalized,
    }
}

/// The URL that batches are posted to.
pub open spec fn batch_url(relayer_url: Seq<char>) -> Seq<char> {
    crate::text::without_trailing_slashes(relayer_url) + "/transactions"@
}

/// Returns the URL that batches are posted to.
pub fn transactions_url(relayer_url: &str) -> (url: String)
    ensures
        url@ == batch_url(relayer_url@),
{
    let mut url = crate::text::trim_trailing_slashes(relayer_url);
    url.append("/transactions");
    url
}

/// Different statuses stand for different errors, and only one that the request is fine for none.
pub proof fn errors_tell_statuses_apart(
    left: u16,
    right: u16,
    first: Option<SubmitError>,
    second: Option<SubmitError>,
)
    requires
        call_ensures(status_error, (left,), first),
        call_ensures(status_error, (right,), second),
    ensures
        first == second <==> left == right,
        first is None <==> left == 200,
        first == Some(SubmitError::BadRequest) <==> left == 400,
        first == Some(SubmitError::PayloadTooLarge) <==> left == 413,
        first == Some(SubmitError::InternalServerError) <==> left == 500,
        first == Some(SubmitError::ServiceUnavailable) <==> left == 503,
{
}

/// While no counter wraps around, a submission counts as one batch of all its transactions, and each
/// transaction that the relayer speaks of counts once: as finalized, as filtered, or as dropped. A
/// submission that failed counts as one error and nothing else.
pub proof fn replies_count_once(
    stats: Stats,
    count: u64,
    reply: Result<RelayerBatchStatus, SubmitError>,
)
    requires
        stats.submitted_batches < u64::MAX,
        stats.submitted_transactions + count <= u64::MAX,
        stats.finalized_transactions + count <= u64::MAX,
        stats.dropped_transactions + count <= u64::MAX,
        stats.submit_errors < u64::MAX,
        reply matches Ok(RelayerBatchStatus::PartiallyFinalized { included, filtered, .. })
            ==> stats.finalized_transactions + included@.len() <= u64::MAX
            && stats.filtered_transactions + filtered <= u64::MAX,
    ensures
        ({
            let after = stats.after_reply(count, reply);
            let finalized = after.finalized_transactions - stats.finalized_transactions;
            let filtered = after.filtered_transactions - stats.filtered_transactions;
            let dropped = after.dropped_transactions - stats.dropped_transactions;
            let errors = after.submit_errors - stats.submit_errors;
            &&& after.submitted_batches == stats.submitted_batches + 1
            &&& after.submitted_transactions == stats.submitted_transactions + count
            &&& match reply {
                Ok(RelayerBatchStatus::Finalized { .. }) => finalized == count && filtered == 0
                    && dropped == 0 && errors == 0,
                Ok(RelayerBatchStatus::PartiallyFinalized { included, filtered: out, .. }) =>
                    finalized == included@.len() && filtered == out && dropped == 0 && errors == 0,
                Ok(RelayerBatchStatus::Dropped) => finalized == 0 && filtered == 0 && dropped
                    == count && errors == 0,
                Err(_) => finalized == 0 && filtered == 0 && dropped == 0 && errors == 1,
            }
        }),
{
}

/// Which transactions of a private batch finalized is what the relayer's reply says: all of them,
/// just those that it lists, or none; and a failed submission finalized none.
pub proof fn outcomes_follow_replies(
    stats: &mut Stats,
    count: u64,
    reply: Result<RelayerBatchStatus, SubmitError>,
    outcome: SubmitOutcome,
    index: u64,
    finalized: bool,
    pause_ms: u64,
)
    requires
        call_ensures(submit_private, (stats, count, &reply), outcome),
        call_ensures(SubmitOutcome::finalized, (&outcome, index), finalized),
        call_ensures(submit_pause, (&reply,), pause_ms),
    ensures
        match reply {
            Ok(RelayerBatchStatus::Finalized { .. }) => finalized,
            Ok(RelayerBatchStatus::PartiallyFinalized { included, .. }) => finalized
                <==> included@.contains(index),
            Ok(RelayerBatchStatus::Dropped) => !finalized,
            Err(_) => !finalized,
        },
        reply is Ok ==> pause_ms == 0,
        reply is Err ==> pause_ms == 100,
        old(stats).submitted_batches < u64::MAX ==> final(stats).submitted_batches
            == old(stats).submitted_batches + 1,
{
}

/// Batches are posted to the relayer's URL, where a slash at its end makes no difference, and the
/// progress log shows the counters as they are.
pub proof fn submissions_are_posted_and_logged(
    relayer_url: &str,
    slashed: &str,
    url: String,
    url_slashed: String,
    stats: Stats,
    totals: Totals,
)
    requires
        slashed@ == relayer_url@.push('/'),
        call_ensures(transactions_url, (relayer_url,), url),
        call_ensures(transactions_url, (slashed,), url_slashed),
        call_ensures(Stats::totals, (&stats,), totals),
    ensures
        url@ == url_slashed@,
        relayer_url@.len() > 0 && relayer_url@.last() != '/' ==> url@ == relayer_url@
            + "/transactions"@,
        totals.finalized == stats.finalized_transactions,
        totals.filtered == stats.filtered_transactions,
        totals.dropped == stats.dropped_transactions,
        totals.errors == stats.submit_errors,
{
    assert(slashed@.drop_last() =~= relayer_url@);
}

/// What a call of [`submit`] counts while no counter wraps around: one batch, all its transactions as
/// submitted, and each transaction that the relayer speaks of once, as finalized, filtered or dropped;
/// a submission that failed counts as one error.
pub proof fn submissions_are_counted(
    stats: &mut Stats,
    count: u64,
    reply: Result<RelayerBatchStatus, SubmitError>,
    pause_ms: u64,
)
    requires
        call_ensures(submit, (stats, count, &reply), pause_ms),
        old(stats).submitted_batches < u64::MAX,
        old(stats).submitted_transactions + count <= u64::MAX,
        old(stats).finalized_transactions + count <= u64::MAX,
        old(stats).dropped_transactions + count <= u64::MAX,
        old(stats).submit_errors < u64::MAX,
        reply matches Ok(RelayerBatchStatus::PartiallyFinalized { included, filtered, .. })
            ==> old(stats).finalized_transactions + included@.len() <= u64::MAX
            && old(stats).filtered_transactions + filtered <= u64::MAX,
    ensures
        final(stats).submitted_batches == old(stats).submitted_batches + 1,
        final(stats).submitted_transactions == old(stats).submitted_transactions + count,
        final(stats).finalized_transactions - old(stats).finalized_transactions == match reply {
            Ok(RelayerBatchStatus::Finalized { .. }) => count as int,
            Ok(RelayerBatchStatus::PartiallyFinalized { included, .. }) => included@.len() as int,
            _ => 0,
        },
        final(stats).filtered_transactions - old(stats).filtered_transactions == match reply {
            Ok(RelayerBatchStatus::PartiallyFinalized { filtered, .. }) => filtered as int,
            _ => 0,
        },
        final(stats).dropped_transactions - old(stats).dropped_transactions == match reply {
            Ok(RelayerBatchStatus::Dropped) => count as int,
            _ => 0,
        },
        final(stats).submit_errors - old(stats).submit_errors == (if reply is Err {
            1int
        } else {
            0
        }),
        pause_ms == (if reply is Err {
            100
        } else {
            0u64
        }),
{
    replies_count_once(*old(stats), count, reply);
}

} // verus!

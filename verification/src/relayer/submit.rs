//! Submissions: who a batch is forwarded to, how long a leader is tried, and what is answered.

use crate::formatting::{from_hex, hex};
use crate::keys::sha256;
use crate::relayer::batches::{BatchRecord, TrackedBatches};
use crate::relayer::health::HealthMap;
use crate::relayer::status::BatchStatus;
use crate::relayer::targets::{leader_targets, Leader};
use vstd::prelude::*;

verus! {

/// Bytes a batch may have in front of it for its length.
pub const MAX_BATCH_LENGTH_PREFIX_BYTES: usize = 5;

/// Times a leader is tried.
pub const FORWARD_ATTEMPTS: u32 = 3;

/// Answer: the request is fine.
pub const STATUS_OK: u16 = 200;

/// Answer: the batch was taken in.
pub const STATUS_ACCEPTED: u16 = 202;

/// Answer: the request makes no sense.
pub const STATUS_BAD_REQUEST: u16 = 400;

/// Answer: there is no such thing.
pub const STATUS_NOT_FOUND: u16 = 404;

/// Answer: the request is too large.
pub const STATUS_PAYLOAD_TOO_LARGE: u16 = 413;

/// Answer: try again later.
pub const STATUS_SERVICE_UNAVAILABLE: u16 = 503;

/// The largest request that is read.
pub open spec fn request_limit(max_batch_bytes: usize) -> int {
    if max_batch_bytes + MAX_BATCH_LENGTH_PREFIX_BYTES > usize::MAX {
        usize::MAX as int
    } else {
        max_batch_bytes + MAX_BATCH_LENGTH_PREFIX_BYTES
    }
}

/// Returns the largest request that is read: a batch and its length prefix.
pub fn max_request_bytes(max_batch_bytes: usize) -> (bytes: usize)
    ensures
        bytes == request_limit(max_batch_bytes),
{
    max_batch_bytes.saturating_add(MAX_BATCH_LENGTH_PREFIX_BYTES)
}

/// Returns the name of a batch: the hex rendering of its digest.
pub fn batch_id(body: &[u8]) -> (id: String)
    ensures
        id@ == crate::formatting::hex_text(crate::keys::sha256_digest(body@)),
{
    hex(sha256(body).as_slice())
}

/// Picks the leaders that a submission is forwarded to, or the status that it is refused with.
pub fn begin_submission(
    body_bytes: usize,
    max_batch_bytes: usize,
    leaders: &Vec<Leader>,
    health: &HealthMap,
    leader_fanout: usize,
    round: u64,
) -> (chosen: Result<Vec<Leader>, u16>)
    ensures
        ({
            let targets = crate::relayer::targets::targets(
                crate::relayer::targets::leader_views(leaders@),
                health@,
                leader_fanout as int,
                round as int,
            );
            match chosen {
                Ok(chosen) => {
                    &&& body_bytes <= request_limit(max_batch_bytes)
                    &&& targets.len() > 0
                    &&& crate::relayer::targets::leader_views(chosen@) == targets
                },
                Err(status) => {
                    ||| body_bytes > request_limit(max_batch_bytes) && status
                        == STATUS_PAYLOAD_TOO_LARGE
                    ||| body_bytes <= request_limit(max_batch_bytes) && targets.len() == 0
                        && status == STATUS_SERVICE_UNAVAILABLE
                },
            }
        }),
{
    if body_bytes > max_request_bytes(max_batch_bytes) {
        return Err(STATUS_PAYLOAD_TOO_LARGE);
    }
    let chosen = leader_targets(leaders, health, leader_fanout, round);
    proof {
        assert(crate::relayer::targets::leader_views(chosen@).len() == chosen@.len());
    }
    if chosen.len() == 0 {
        return Err(STATUS_SERVICE_UNAVAILABLE);
    }
    Ok(chosen)
}

/// How forwarding a batch to one leader ended.
#[derive(Debug, Clone)]
pub enum ForwardResult {
    /// The leader took the batch in.
    Accepted { leader: String, digests: Vec<String> },
    /// The leader refused the batch for good.
    Deterministic(u16),
    /// The leader could not be brought to answer.
    Transient { leader: String },
}

/// What to do after one attempt.
#[derive(Debug, Clone)]
pub enum ForwardStep {
    /// The leader took the batch in.
    Accepted { digests: Vec<String> },
    /// The leader refused the batch for good.
    Deterministic(u16),
    /// Wait, then try again.
    Retry { wait_ms: u64 },
    /// Wait, then give up.
    GiveUp { wait_ms: u64 },
}

/// Milliseconds to wait after an attempt: 50, doubling each time.
pub open spec fn backoff_ms(attempt: int) -> int
    decreases attempt,
{
    if attempt <= 0 {
        50
    } else {
        2 * backoff_ms(attempt - 1)
    }
}

/// Decides what follows one attempt to forward a batch.
///
/// `status` is the leader's answer, or `None` if the request failed. `digests` are those of a
/// readable acknowledgement.
pub fn forward_step(attempt: u32, status: Option<u16>, digests: Option<Vec<String>>) -> (step:
    ForwardStep)
    requires
        attempt < FORWARD_ATTEMPTS,
    ensures
        match step {
            ForwardStep::Accepted { digests: taken } => status == Some(STATUS_ACCEPTED) && digests
                == Some(taken),
            ForwardStep::Deterministic(code) => {
                &&& status == Some(code)
                &&& code == STATUS_BAD_REQUEST || code == STATUS_PAYLOAD_TOO_LARGE
            },
            ForwardStep::Retry { wait_ms } => attempt + 1 < FORWARD_ATTEMPTS && wait_ms
                == backoff_ms(attempt as int),
            ForwardStep::GiveUp { wait_ms } => attempt + 1 == FORWARD_ATTEMPTS && wait_ms
                == backoff_ms(attempt as int),
        },
        step is Accepted <==> status == Some(STATUS_ACCEPTED) && digests is Some,
        step is Deterministic <==> status == Some(STATUS_BAD_REQUEST) || status == Some(
            STATUS_PAYLOAD_TOO_LARGE,
        ),
{
    if let Some(code) = status {
        if code == STATUS_ACCEPTED {
            if let Some(digests) = digests {
                return ForwardStep::Accepted { digests };
            }
        } else if code == STATUS_BAD_REQUEST || code == STATUS_PAYLOAD_TOO_LARGE {
            return ForwardStep::Deterministic(code);
        }
    }
    proof {
        reveal_with_fuel(backoff_ms, 3);
    }
    let wait_ms: u64 = if attempt == 0 {
        50
    } else if attempt == 1 {
        100
    } else {
        200
    };
    if attempt + 1 < FORWARD_ATTEMPTS {
        ForwardStep::Retry { wait_ms }
    } else {
        ForwardStep::GiveUp { wait_ms }
    }
}

/// The last refusal for good among results.
pub open spec fn last_refusal(results: Seq<ForwardResult>) -> Option<u16>
    decreases results.len(),
{
    if results.len() == 0 {
        None
    } else {
        match results.last() {
            ForwardResult::Deterministic(status) => Some(status),
            _ => last_refusal(results.drop_last()),
        }
    }
}

/// How many results were failures to answer.
pub open spec fn transient_count(results: Seq<ForwardResult>) -> nat
    decreases results.len(),
{
    if results.len() == 0 {
        0
    } else {
        transient_count(results.drop_last()) + (if results.last() is Transient {
            1nat
        } else {
            0nat
        })
    }
}

/// A submission that waits for its first acknowledgement.
pub struct Submission {
    deterministic: Option<u16>,
    transient_failures: u64,
    accepted: Option<(String, Vec<String>)>,
    results: Ghost<Seq<ForwardResult>>,
}

/// What a submission is answered with.
pub enum SubmitAnswer {
    /// No leader acknowledged the batch.
    Failed { status: u16, transient_failures: u64 },
    /// A leader acknowledged the batch.
    Accepted { response: SubmitResponse, record: BatchRecord },
}

/// The body of an accepted submission's answer.
pub struct SubmitResponse {
    pub batch_id: String,
    pub digests: Vec<String>,
    pub acknowledged_leaders: Vec<String>,
    pub targeted_leaders: Vec<String>,
}

impl Submission {
    /// The results that have come so far.
    pub closed spec fn results(self) -> Seq<ForwardResult> {
        self.results@
    }

    /// The acknowledgement that ended the wait, if one has come.
    pub closed spec fn acknowledgement(self) -> Option<(String, Vec<String>)> {
        self.accepted
    }

    /// Whether the submission stands for the results that have come.
    pub closed spec fn well_formed(self) -> bool {
        &&& self.deterministic == last_refusal(self.results@)
        &&& self.transient_failures == if transient_count(self.results@) < u64::MAX {
            transient_count(self.results@)
        } else {
            u64::MAX as nat
        }
    }

    /// Nothing has come back yet.
    pub fn new() -> (submission: Self)
        ensures
            submission.well_formed(),
            submission.results() == Seq::<ForwardResult>::empty(),
            submission.acknowledgement() is None,
    {
        Submission {
            deterministic: None,
            transient_failures: 0,
            accepted: None,
            results: Ghost(Seq::empty()),
        }
    }

    /// Takes one leader's result in. Returns whether the wait is over: the first acknowledgement
    /// ends it.
    pub fn observe(&mut self, result: ForwardResult, health: &mut HealthMap) -> (done: bool)
        requires
            old(self).well_formed(),
        ensures
            final(self).well_formed(),
            final(self).results() == old(self).results().push(result),
            done == result is Accepted,
            final(self).acknowledgement() == match result {
                ForwardResult::Accepted { leader, digests } => Some((leader, digests)),
                _ => old(self).acknowledgement(),
            },
            final(health)@ == health_after_result(old(health)@, result),
    {
        let ghost grown = self.results@.push(result);
        proof {
            assert(grown.drop_last() =~= self.results@);
        }
        self.results = Ghost(grown);
        match result {
            ForwardResult::Accepted { leader, digests } => {
                health.record_success(leader.as_str());
                self.accepted = Some((leader, digests));
                true
            },
            ForwardResult::Deterministic(status) => {
                self.deterministic = Some(status);
                false
            },
            ForwardResult::Transient { leader } => {
                health.record_failure(leader.as_str());
                self.transient_failures = self.transient_failures.saturating_add(1);
                false
            },
        }
    }

    /// Returns the answer once the wait is over, was timed out, or no result is left to come.
    pub fn finish(self, batch_id: String, targeted_leaders: Vec<String>) -> (answer: SubmitAnswer)
        requires
            self.well_formed(),
        ensures
            match (answer, self.acknowledgement()) {
                (SubmitAnswer::Failed { status, .. }, None) => status == match last_refusal(
                    self.results(),
                ) {
                    Some(status) => status,
                    None => STATUS_SERVICE_UNAVAILABLE,
                },
                (SubmitAnswer::Accepted { response, record }, Some((leader, digests))) => {
                    &&& response.batch_id == batch_id
                    &&& response.digests == digests
                    &&& response.acknowledged_leaders@ == seq![leader]
                    &&& response.targeted_leaders@ == targeted_leaders@
                    &&& record.acknowledged_leaders@ == seq![leader]
                    &&& record.targeted_leaders@ == targeted_leaders@
                },
                _ => false,
            },
            answer matches SubmitAnswer::Failed { transient_failures, .. } ==> transient_failures
                == if transient_count(self.results()) < u64::MAX {
                transient_count(self.results())
            } else {
                u64::MAX as nat
            },
    {
        match self.accepted {
            None => {
                let status: u16 = match self.deterministic {
                    Some(status) => status,
                    None => STATUS_SERVICE_UNAVAILABLE,
                };
                SubmitAnswer::Failed { status, transient_failures: self.transient_failures }
            },
            Some((leader, digests)) => {
                let mut acknowledged_leaders: Vec<String> = Vec::new();
                acknowledged_leaders.push(leader);
                proof {
                    assert(acknowledged_leaders@ =~= seq![leader]);
                }
                let record = BatchRecord {
                    acknowledged_leaders: crate::text::copy_texts(&acknowledged_leaders),
                    targeted_leaders: crate::text::copy_texts(&targeted_leaders),
                };
                SubmitAnswer::Accepted {
                    response: SubmitResponse {
                        batch_id,
                        digests,
                        acknowledged_leaders,
                        targeted_leaders,
                    },
                    record,
                }
            },
        }
    }
}

/// What is known of the leaders after one more result.
pub open spec fn health_after_result(
    health: Map<Seq<char>, crate::relayer::health::LeaderHealth>,
    result: ForwardResult,
) -> Map<Seq<char>, crate::relayer::health::LeaderHealth> {
    match result {
        ForwardResult::Accepted { leader, .. } => health.insert(
            leader@,
            crate::relayer::health::known_health(health, leader@).after(true),
        ),
        ForwardResult::Deterministic(_) => health,
        ForwardResult::Transient { leader } => health.insert(
            leader@,
            crate::relayer::health::known_health(health, leader@).after(false),
        ),
    }
}

/// Takes in a result that came after the submission was answered. Returns whether there is still
/// something to listen for: a forgotten batch ends it.
pub fn observe_late(
    result: ForwardResult,
    batch_id: &str,
    health: &mut HealthMap,
    batches: &mut TrackedBatches,
) -> (listening: bool)
    requires
        old(batches)@.well_formed(),
    ensures
        final(batches)@.well_formed(),
        final(health)@ == health_after_result(old(health)@, result),
        match result {
            ForwardResult::Accepted { leader, .. } => {
                &&& listening == old(batches)@.records.dom().contains(batch_id@)
                &&& !listening ==> final(batches)@ == old(batches)@
                &&& listening ==> {
                    let before = old(batches)@.records[batch_id@];
                    let after = final(batches)@.records[batch_id@];
                    &&& final(batches)@.order == old(batches)@.order
                    &&& final(batches)@.max_records == old(batches)@.max_records
                    &&& final(batches)@.records == old(batches)@.records.insert(batch_id@, after)
                    &&& after.targeted_leaders@ == before.targeted_leaders@
                    &&& crate::text::texts(after.acknowledged_leaders@)
                        == crate::relayer::batches::acknowledging(
                        crate::text::texts(before.acknowledged_leaders@),
                        leader@,
                    )
                }
            },
            _ => listening && final(batches)@ == old(batches)@,
        },
{
    match result {
        ForwardResult::Accepted { leader, .. } => {
            health.record_success(leader.as_str());
            batches.acknowledge(batch_id, leader)
        },
        ForwardResult::Deterministic(_) => true,
        ForwardResult::Transient { leader } => {
            health.record_failure(leader.as_str());
            true
        },
    }
}

/// Returns what a status request is answered with: the status, if any leader knows it.
pub fn status_answer(known: bool, status: Option<BatchStatus>) -> (answer: (u16, Option<
    BatchStatus,
>))
    ensures
        !known ==> answer.0 == STATUS_NOT_FOUND && answer.1 is None,
        known && status is None ==> answer.0 == STATUS_SERVICE_UNAVAILABLE && answer.1 is None,
        known && status is Some ==> answer.0 == STATUS_OK && answer.1 == status,
{
    if !known {
        return (STATUS_NOT_FOUND, None);
    }
    match status {
        Some(status) => (STATUS_OK, Some(status)),
        None => (STATUS_SERVICE_UNAVAILABLE, None),
    }
}

/// Returns the URL that an account request is passed on to, or the status that it is refused with.
pub fn account_route(leaders: &Vec<Leader>, public_key: &str) -> (route: Result<String, u16>)
    ensures
        match route {
            Ok(url) => {
                &&& leaders@.len() > 0
                &&& crate::formatting::hex_bytes(public_key@) is Some
                &&& url@ == leaders@[0].url@ + "/account/"@ + public_key@
            },
            Err(status) => {
                ||| leaders@.len() == 0 && status == STATUS_SERVICE_UNAVAILABLE
                ||| leaders@.len() > 0 && crate::formatting::hex_bytes(public_key@) is None
                    && status == STATUS_BAD_REQUEST
            },
        },
{
    if leaders.len() == 0 {
        return Err(STATUS_SERVICE_UNAVAILABLE);
    }
    if from_hex(public_key).is_none() {
        return Err(STATUS_BAD_REQUEST);
    }
    let mut url = leaders[0].url.clone();
    url.append("/account/");
    url.append(public_key);
    Ok(url)
}

/// Returns whether the relayer can serve: it knows a leader.
pub fn ready(leaders: &Vec<Leader>) -> (status: u16)
    ensures
        status == if leaders@.len() == 0 {
            STATUS_SERVICE_UNAVAILABLE
        } else {
            STATUS_OK
        },
{
    if leaders.len() == 0 {
        STATUS_SERVICE_UNAVAILABLE
    } else {
        STATUS_OK
    }
}

/// Returns the URL that batches are forwarded to.
pub fn ingest_url(leader: &Leader) -> (url: String)
    ensures
        url@ == leader.url@ + "/transactions/ingest"@,
{
    let mut url = leader.url.clone();
    url.append("/transactions/ingest");
    url
}

/// Returns the URL that a batch's status is read from.
pub fn batch_status_url(leader: &Leader, batch_id: &str) -> (url: String)
    ensures
        url@ == leader.url@ + "/transactions/"@ + batch_id@,
{
    let mut url = leader.url.clone();
    url.append("/transactions/");
    url.append(batch_id);
    url
}

/// Returns the URL that the consensus round is read from.
pub fn consensus_round_url(leader: &Leader) -> (url: String)
    ensures
        url@ == leader.url@ + "/consensus/round"@,
{
    let mut url = leader.url.clone();
    url.append("/consensus/round");
    url
}

/// Returns the round after a leader reported one: rounds only go up.
pub fn observe_round(current: u64, reported: u64) -> (round: u64)
    ensures
        round == if reported > current {
            reported
        } else {
            current
        },
{
    if reported > current {
        reported
    } else {
        current
    }
}

/// The round after a series of reports.
pub open spec fn round_after(reports: Seq<u64>) -> u64
    decreases reports.len(),
{
    if reports.len() == 0 {
        0
    } else {
        let before = round_after(reports.drop_last());
        if reports.last() > before {
            reports.last()
        } else {
            before
        }
    }
}

/// The observed round is never behind any report.
pub proof fn observed_round_covers_reports(reports: Seq<u64>, at: int)
    requires
        0 <= at < reports.len(),
    ensures
        round_after(reports) >= reports[at],
    decreases reports.len(),
{
    if at < reports.len() - 1 {
        observed_round_covers_reports(reports.drop_last(), at);
    }
}


/// The observed round is zero, or some report.
pub proof fn observed_round_was_reported(reports: Seq<u64>)
    ensures
        round_after(reports) == 0 || reports.contains(round_after(reports)),
    decreases reports.len(),
{
    if reports.len() > 0 {
        let front = reports.drop_last();
        observed_round_was_reported(front);
        assert(reports[reports.len() - 1] == reports.last());
        if front.contains(round_after(front)) {
            let at = choose|at: int| 0 <= at < front.len() && front[at] == round_after(front);
            assert(reports[at] == round_after(front));
        }
    }
}

/// What [`observe_round`] makes of two rounds does not depend on which was there first, and is the
/// larger of them.
pub proof fn rounds_only_go_up(current: u64, reported: u64, round: u64, swapped: u64)
    requires
        call_ensures(observe_round, (current, reported), round),
        call_ensures(observe_round, (reported, current), swapped),
    ensures
        round == swapped,
        round >= current,
        round >= reported,
        round == current || round == reported,
{
}

/// A leader that does not answer is tried three times, with 50, 100 and 200 milliseconds of
/// waiting: [`forward_step`] retries after the first two attempts and gives up after the third.
/// An answer that is neither an acknowledgement nor a refusal for good counts as none.
pub proof fn silent_leader_is_tried_three_times(
    attempt: u32,
    status: Option<u16>,
    digests: Option<Vec<String>>,
    step: ForwardStep,
)
    requires
        call_ensures(forward_step, (attempt, status, digests), step),
        attempt < 3,
        status != Some(400u16),
        status != Some(413u16),
        status == Some(202u16) ==> digests is None,
    ensures
        attempt == 0 ==> (step matches ForwardStep::Retry { wait_ms } && wait_ms == 50),
        attempt == 1 ==> (step matches ForwardStep::Retry { wait_ms } && wait_ms == 100),
        attempt == 2 ==> (step matches ForwardStep::GiveUp { wait_ms } && wait_ms == 200),
{
    assert(backoff_ms(0) == 50);
    assert(backoff_ms(1) == 100) by {
        reveal_with_fuel(backoff_ms, 2);
    }
    assert(backoff_ms(2) == 200) by {
        reveal_with_fuel(backoff_ms, 3);
    }
}

/// Only a readable acknowledgement is an acceptance, and only a bad request or too large a payload
/// is a refusal for good, whatever attempt it is.
pub proof fn answers_for_good_end_forwarding(
    attempt: u32,
    status: Option<u16>,
    digests: Option<Vec<String>>,
    step: ForwardStep,
)
    requires
        call_ensures(forward_step, (attempt, status, digests), step),
        attempt < 3,
    ensures
        status == Some(202u16) && digests is Some ==> (step matches ForwardStep::Accepted {
            digests: taken,
        } && digests == Some(taken)),
        status == Some(400u16) ==> step == ForwardStep::Deterministic(400),
        status == Some(413u16) ==> step == ForwardStep::Deterministic(413),
{
}

/// Of several refusals for good the last counts, and without one there is none.
pub proof fn last_refusal_counts(results: Seq<ForwardResult>, at: int)
    ensures
        0 <= at < results.len() && results[at] is Deterministic && (forall|i: int|
            at < i < results.len() ==> !(#[trigger] results[i] is Deterministic)) ==> (
        results[at] matches ForwardResult::Deterministic(status) && last_refusal(results) == Some(
            status,
        )),
        (forall|i: int| 0 <= i < results.len() ==> !(#[trigger] results[i] is Deterministic))
            ==> last_refusal(results) is None,
    decreases results.len(),
{
    if results.len() > 0 {
        let front = results.drop_last();
        assert(results[results.len() - 1] == results.last());
        if !(results.last() is Deterministic) {
            last_refusal_counts(front, at);
            assert forall|i: int| 0 <= i < front.len() implies front[i] == results[i] by {}
        }
    }
}

/// Every failure to answer counts once, in whatever order the results come.
pub proof fn failures_to_answer_add_up(front: Seq<ForwardResult>, back: Seq<ForwardResult>)
    ensures
        transient_count(front + back) == transient_count(front) + transient_count(back),
        transient_count(front) <= front.len(),
        (forall|i: int| 0 <= i < front.len() ==> #[trigger] front[i] is Transient)
            ==> transient_count(front) == front.len(),
        (forall|i: int| 0 <= i < front.len() ==> !(#[trigger] front[i] is Transient))
            ==> transient_count(front) == 0,
    decreases back.len(), front.len(),
{
    if back.len() > 0 {
        failures_to_answer_add_up(front, back.drop_last());
        assert((front + back).drop_last() =~= front + back.drop_last());
        assert((front + back).last() == back.last());
    } else {
        assert(front + back =~= front);
        if front.len() > 0 {
            let less = front.drop_last();
            failures_to_answer_add_up(less, back);
            assert(front[front.len() - 1] == front.last());
            assert forall|i: int| 0 <= i < less.len() implies less[i] == front[i] by {}
        }
    }
}

/// A result touches what is known of the leader it came from, and of nobody else: an
/// acknowledgement makes the leader healthy, and a third failure in a row makes it unhealthy.
pub proof fn results_touch_only_their_leader(
    health: Map<Seq<char>, crate::relayer::health::LeaderHealth>,
    result: ForwardResult,
    other: Seq<char>,
)
    requires
        match result {
            ForwardResult::Accepted { leader, .. } => leader@ != other,
            ForwardResult::Transient { leader } => leader@ != other,
            ForwardResult::Deterministic(_) => true,
        },
    ensures
        crate::relayer::health::known_health(health_after_result(health, result), other)
            == crate::relayer::health::known_health(health, other),
        match result {
            ForwardResult::Accepted { leader, .. } => {
                let after = health_after_result(health, result);
                &&& after.dom().contains(leader@)
                &&& after[leader@].healthy
                &&& after[leader@].consecutive_failures == 0
            },
            ForwardResult::Transient { leader } => {
                let before = crate::relayer::health::known_health(health, leader@);
                let after = health_after_result(health, result);
                &&& after.dom().contains(leader@)
                &&& before.consecutive_failures < u32::MAX ==> after[leader@].consecutive_failures
                    == before.consecutive_failures + 1
                &&& after[leader@].healthy <==> before.healthy && before.consecutive_failures < 2
            },
            ForwardResult::Deterministic(_) => true,
        },
{
}

/// A request may be five bytes longer than a batch, as far as lengths go.
pub proof fn request_leaves_room_for_prefix(max_batch_bytes: usize, bytes: usize)
    requires
        call_ensures(max_request_bytes, (max_batch_bytes,), bytes),
    ensures
        bytes >= max_batch_bytes,
        max_batch_bytes <= usize::MAX - 5 ==> bytes == max_batch_bytes + 5,
        max_batch_bytes > usize::MAX - 5 ==> bytes == usize::MAX,
{
}

/// What a call of [`begin_submission`] answers: a body more than five bytes above the limit is
/// refused with 413, a body within it goes to the leaders that [`leader_targets`] names, and is
/// refused with 503 if that names nobody.
pub proof fn submission_goes_to_targets(
    body_bytes: usize,
    max_batch_bytes: usize,
    leaders: Vec<Leader>,
    health: HealthMap,
    leader_fanout: usize,
    round: u64,
    chosen: Result<Vec<Leader>, u16>,
    named: Vec<Leader>,
)
    requires
        call_ensures(
            begin_submission,
            (body_bytes, max_batch_bytes, &leaders, &health, leader_fanout, round),
            chosen,
        ),
        call_ensures(leader_targets, (&leaders, &health, leader_fanout, round), named),
    ensures
        body_bytes > max_batch_bytes + 5 ==> chosen == Err::<Vec<Leader>, u16>(413),
        body_bytes <= max_batch_bytes + 5 && named@.len() == 0 ==> chosen == Err::<
            Vec<Leader>,
            u16,
        >(503),
        body_bytes <= max_batch_bytes + 5 && named@.len() > 0 ==> {
            &&& chosen matches Ok(chosen)
            &&& crate::relayer::targets::leader_views(chosen@)
                == crate::relayer::targets::leader_views(named@)
        },
{
    assert(crate::relayer::targets::leader_views(named@).len() == named@.len());
}

/// The first acknowledgement ends a submission and is what it is answered with: the leader that gave
/// it, the digests that it named, and the leaders that the batch was sent to.
pub proof fn acknowledgement_is_answered(
    submission: &mut Submission,
    health: &mut HealthMap,
    leader: String,
    digests: Vec<String>,
    done: bool,
    batch_id: String,
    targeted_leaders: Vec<String>,
    answer: SubmitAnswer,
)
    requires
        old(submission).well_formed(),
        call_ensures(
            Submission::observe,
            (submission, ForwardResult::Accepted { leader, digests }, health),
            done,
        ),
        call_ensures(
            Submission::finish,
            (*final(submission), batch_id, targeted_leaders),
            answer,
        ),
    ensures
        done,
        answer matches SubmitAnswer::Accepted { response, record } && {
            &&& response.batch_id == batch_id
            &&& response.digests == digests
            &&& response.acknowledged_leaders@ == seq![leader]
            &&& response.targeted_leaders@ == targeted_leaders@
            &&& record.acknowledged_leaders@ == seq![leader]
            &&& record.targeted_leaders@ == targeted_leaders@
        },
        final(health)@.dom().contains(leader@),
        final(health)@[leader@].healthy,
{
}

/// A submission that nobody acknowledged is refused as the last leader that refused it for good
/// refused it, and with 503 if all merely failed to answer.
pub proof fn refusals_are_answered(
    submission: Submission,
    batch_id: String,
    targeted_leaders: Vec<String>,
    answer: SubmitAnswer,
    at: int,
)
    requires
        submission.well_formed(),
        submission.acknowledgement() is None,
        call_ensures(Submission::finish, (submission, batch_id, targeted_leaders), answer),
    ensures
        answer is Failed,
        (forall|i: int|
            0 <= i < submission.results().len() ==> !(#[trigger] submission.results()[i] is Deterministic))
            ==> (answer matches SubmitAnswer::Failed { status, .. } && status == 503),
        0 <= at < submission.results().len() && (forall|i: int|
            at < i < submission.results().len() ==> !(#[trigger] submission.results()[i] is Deterministic))
            ==> (submission.results()[at] matches ForwardResult::Deterministic(refusal) ==> (
        answer matches SubmitAnswer::Failed { status, .. } && status == refusal)),
{
    last_refusal_counts(submission.results(), at);
}

/// What a status request is answered with: 404 for a batch that nobody remembers, 503 while no leader
/// can say, and otherwise 200 and what the leaders say.
pub proof fn status_requests_are_answered(
    known: bool,
    status: Option<BatchStatus>,
    answer: (u16, Option<BatchStatus>),
)
    requires
        call_ensures(status_answer, (known, status), answer),
    ensures
        answer.0 == 404 <==> !known,
        answer.0 == 503 <==> known && status is None,
        answer.0 == 200 <==> known && status is Some,
        answer.1 is Some <==> answer.0 == 200,
        answer.0 == 200 ==> answer.1 == status,
{
}

/// An account request goes to the first leader, under the key that it names; it is refused with 503
/// without a leader and with 400 if the key is no hexadecimal text.
pub proof fn account_requests_go_to_first_leader(
    leaders: Vec<Leader>,
    public_key: &str,
    route: Result<String, u16>,
    status: u16,
)
    requires
        call_ensures(account_route, (&leaders, public_key), route),
        call_ensures(ready, (&leaders,), status),
    ensures
        leaders@.len() == 0 <==> status == 503,
        leaders@.len() > 0 <==> status == 200,
        leaders@.len() == 0 ==> route == Err::<String, u16>(503),
        leaders@.len() > 0 && crate::formatting::hex_bytes(public_key@) is None ==> route == Err::<
            String,
            u16,
        >(400),
        leaders@.len() > 0 && crate::formatting::hex_bytes(public_key@) is Some ==> (route matches Ok(
            url,
        ) && leaders@[0].url@.is_prefix_of(url@) && url@.skip(leaders@[0].url@.len() as int)
            == "/account/"@ + public_key@),
{
    if let Ok(url) = route {
        let base = leaders@[0].url@;
        assert(url@ =~= base + ("/account/"@ + public_key@));
        assert(url@.skip(base.len() as int) =~= "/account/"@ + public_key@);
    }
}

/// Equal batches have equal names, and the name of a batch decodes to its digest.
pub proof fn batches_are_named_by_digest(body: &[u8], id: String)
    requires
        call_ensures(batch_id, (body,), id),
    ensures
        crate::formatting::hex_bytes(id@) == Some(crate::keys::sha256_digest(body@)),
{
    crate::formatting::hex_round_trip(crate::keys::sha256_digest(body@));
}

/// A leader that acknowledges a batch late is listed with it, behind those who were before, as long as
/// the batch is remembered. Any other late result changes no batch.
pub proof fn late_acknowledgements_are_listed(
    result: ForwardResult,
    batch_id: &str,
    health: &mut HealthMap,
    batches: &mut TrackedBatches,
    listening: bool,
    other: Seq<char>,
)
    requires
        old(batches)@.well_formed(),
        call_ensures(observe_late, (result, batch_id, health, batches), listening),
        other != batch_id@,
    ensures
        final(batches)@.records.dom() == old(batches)@.records.dom(),
        old(batches)@.records.dom().contains(other) ==> final(batches)@.records[other]
            == old(batches)@.records[other],
        !(result is Accepted) ==> listening && final(batches)@ == old(batches)@,
        result matches ForwardResult::Accepted { leader, .. } ==> {
            &&& listening <==> old(batches)@.records.dom().contains(batch_id@)
            &&& listening ==> {
                let before = crate::text::texts(
                    old(batches)@.records[batch_id@].acknowledged_leaders@,
                );
                let after = crate::text::texts(
                    final(batches)@.records[batch_id@].acknowledged_leaders@,
                );
                &&& after.contains(leader@)
                &&& before.is_prefix_of(after)
                &&& before.no_duplicates() ==> after.no_duplicates()
            }
        },
{
    if let ForwardResult::Accepted { leader, .. } = result {
        if listening {
            crate::relayer::batches::acknowledging_lists_once(
                crate::text::texts(old(batches)@.records[batch_id@].acknowledged_leaders@),
                leader@,
            );
            assert(final(batches)@.records.dom() =~= old(batches)@.records.dom());
        }
    }
}

/// Everything that a leader is asked goes to its own URL, each question to a path of its own.
pub proof fn leaders_are_asked_at_their_url(
    leader: Leader,
    id: &str,
    ingest: String,
    status: String,
    round: String,
)
    requires
        call_ensures(ingest_url, (&leader,), ingest),
        call_ensures(batch_status_url, (&leader, id), status),
        call_ensures(consensus_round_url, (&leader,), round),
    ensures
        ingest@ == leader.url@ + "/transactions/ingest"@,
        status@.len() == leader.url@.len() + "/transactions/"@.len() + id@.len(),
        (leader.url@ + "/transactions/"@).is_prefix_of(status@),
        status@.skip(status@.len() - id@.len()) == id@,
        round@ == leader.url@ + "/consensus/round"@,
{
    assert(status@.skip(status@.len() - id@.len()) =~= id@);
}

/// A leader that fails to answer a submission is noted for it and for nothing else, and the submission
/// goes on waiting; one that refuses for good is not held against it.
pub proof fn failures_are_held_against_their_leader(
    submission: &mut Submission,
    health: &mut HealthMap,
    result: ForwardResult,
    done: bool,
    other: Seq<char>,
)
    requires
        old(submission).well_formed(),
        call_ensures(Submission::observe, (submission, result, health), done),
        !(result is Accepted),
        result matches ForwardResult::Transient { leader } ==> leader@ != other,
    ensures
        !done,
        final(submission).acknowledgement() == old(submission).acknowledgement(),
        final(submission).results() == old(submission).results().push(result),
        crate::relayer::health::known_health(final(health)@, other)
            == crate::relayer::health::known_health(old(health)@, other),
        result is Deterministic ==> final(health)@ == old(health)@,
        result matches ForwardResult::Transient { leader } ==> {
            let before = crate::relayer::health::known_health(old(health)@, leader@);
            let after = crate::relayer::health::known_health(final(health)@, leader@);
            &&& after.healthy <==> before.healthy && before.consecutive_failures < 2
            &&& before.consecutive_failures < u32::MAX ==> after.consecutive_failures
                == before.consecutive_failures + 1
        },
{
    results_touch_only_their_leader(old(health)@, result, other);
}

} // verus!

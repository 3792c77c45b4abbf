//! Ring spammer: accounts, senders, and the errors that submissions end in.

use crate::keys::{private_key_from_seed, public_key_of};
use crate::text::{contains, push_decimal, starts_with};
use vstd::prelude::*;

verus! {

/// First pause before a retry.
pub const INITIAL_RETRY_BACKOFF_MS: u64 = 100;

/// Least pause after a full mempool.
pub const MEMPOOL_FULL_RETRY_BACKOFF_MS: u64 = 1_000;

/// Longest pause before a retry.
pub const MAX_RETRY_BACKOFF_MS: u64 = 5_000;

/// Pause between status polls.
pub const STATUS_POLL_INTERVAL_MS: u64 = 1_000;

/// Statuses per request.
pub const STATUS_POLL_BATCH_SIZE: usize = 32_768;

/// Submissions that run at once per endpoint.
pub const MAX_SUBMISSION_TASKS_PER_ENDPOINT: usize = 256;

/// What the spammer runs with.
#[derive(Debug)]
pub struct Args {
    pub count: usize,
    pub endpoints: Vec<String>,
    pub seed_start: u64,
    pub nonce: u64,
}

/// Why the spammer cannot run with `count` accounts and `endpoints` endpoints.
pub open spec fn args_rejection(count: usize, endpoints: nat) -> Option<Seq<char>> {
    if count == 0 {
        Some("count must be non-zero"@)
    } else if endpoints == 0 {
        Some("at least one endpoint is required"@)
    } else {
        None
    }
}

impl Args {
    /// Whether there is an account and an endpoint.
    pub open spec fn well_formed(self) -> bool {
        self.count > 0 && self.endpoints@.len() > 0
    }

    /// Checks what the spammer is to run with.
    pub fn new(count: usize, endpoints: Vec<String>, seed_start: u64, nonce: u64) -> (args: Result<
        Self,
        String,
    >)
        ensures
            match args {
                Ok(args) => {
                    &&& args_rejection(count, endpoints@.len()) is None
                    &&& args.well_formed()
                    &&& args == (Args { count, endpoints, seed_start, nonce })
                },
                Err(reason) => args_rejection(count, endpoints@.len()) == Some(reason@),
            },
    {
        if count == 0 {
            return Err("count must be non-zero".to_string());
        }
        if endpoints.len() == 0 {
            return Err("at least one endpoint is required".to_string());
        }
        Ok(Args { count, endpoints, seed_start, nonce })
    }

    /// Returns the endpoints.
    pub fn endpoints(&self) -> (endpoints: &[String])
        ensures
            endpoints@ == self.endpoints@,
    {
        self.endpoints.as_slice()
    }

    /// Returns the number of accounts.
    pub fn count(&self) -> (count: usize)
        ensures
            count == self.count,
    {
        self.count
    }

    /// Returns the seed of the first account.
    pub fn seed_start(&self) -> (seed_start: u64)
        ensures
            seed_start == self.seed_start,
    {
        self.seed_start
    }

    /// Returns the nonce that every sender starts with.
    pub fn nonce(&self) -> (nonce: u64)
        ensures
            nonce == self.nonce,
    {
        self.nonce
    }
}

/// An account of the ring. Accounts are named by their encoded public keys.
#[derive(Debug, Clone)]
pub struct RingAccount {
    /// Seed of the account's key.
    pub seed: u64,
    /// The account.
    pub from: Vec<u8>,
    /// The next account of the ring.
    pub to: Vec<u8>,
    /// The endpoint that the account submits to.
    pub endpoint_index: usize,
}

/// The public key of a seed.
pub open spec fn ring_key(seed: u64) -> Seq<u8> {
    crate::keys::derived_public_key(crate::keys::seeded_private_key(seed))
}

/// Whether an account is the one at `index` of a ring.
pub open spec fn in_ring(
    account: RingAccount,
    count: int,
    seed_start: u64,
    endpoint_count: int,
    index: int,
) -> bool {
    &&& account.seed == seed_start + index
    &&& account.from@ == ring_key((seed_start + index) as u64)
    &&& account.to@ == ring_key((seed_start + crate::ring::successor(index, count)) as u64)
    &&& account.endpoint_index == index % endpoint_count
}

/// Returns the public keys of `count` seeds from `seed_start` on.
pub fn ring_keys(count: usize, seed_start: u64) -> (keys: Vec<Vec<u8>>)
    requires
        seed_start + count - 1 <= u64::MAX,
    ensures
        keys@.len() == count,
        forall|i: int| 0 <= i < count ==> (#[trigger] keys@[i])@ == ring_key((seed_start + i) as u64),
{
    let mut keys: Vec<Vec<u8>> = Vec::new();
    let mut i: usize = 0;
    while i < count
        invariant
            i <= count,
            seed_start + count - 1 <= u64::MAX,
            keys@.len() == i,
            forall|k: int| 0 <= k < i ==> (#[trigger] keys@[k])@ == ring_key((seed_start + k) as u64),
        decreases count - i,
    {
        let private_key = private_key_from_seed(seed_start + i as u64);
        keys.push(public_key_of(&private_key));
        i += 1;
    }
    keys
}

/// Builds a ring of accounts, spread over the endpoints.
pub fn build_ring_accounts(count: usize, seed_start: u64, endpoint_count: usize) -> (accounts: Vec<
    RingAccount,
>)
    requires
        count > 0,
        endpoint_count > 0,
        seed_start + count - 1 <= u64::MAX,
    ensures
        accounts@.len() == count,
        forall|i: int|
            0 <= i < count ==> in_ring(
                #[trigger] accounts@[i],
                count as int,
                seed_start,
                endpoint_count as int,
                i,
            ),
{
    let keys = ring_keys(count, seed_start);
    let mut accounts: Vec<RingAccount> = Vec::new();
    let mut i: usize = 0;
    while i < count
        invariant
            i <= count,
            endpoint_count > 0,
            seed_start + count - 1 <= u64::MAX,
            keys@.len() == count,
            forall|k: int|
                0 <= k < count ==> (#[trigger] keys@[k])@ == ring_key((seed_start + k) as u64),
            accounts@.len() == i,
            forall|k: int|
                0 <= k < i ==> in_ring(
                    #[trigger] accounts@[k],
                    count as int,
                    seed_start,
                    endpoint_count as int,
                    k,
                ),
        decreases count - i,
    {
        let next: usize = crate::ring::next_index(i, count);
        let from = keys[i].clone();
        let to = keys[next].clone();
        proof {
            assert(from@ =~= keys@[i as int]@);
            assert(to@ =~= keys@[next as int]@);
        }
        accounts.push(
            RingAccount {
                seed: seed_start + i as u64,
                from,
                to,
                endpoint_index: i % endpoint_count,
            },
        );
        i += 1;
    }
    accounts
}

/// Every account pays the next one of the ring, and the last pays the first.
pub proof fn ring_closes(
    accounts: Seq<RingAccount>,
    seed_start: u64,
    endpoint_count: int,
    index: int,
)
    requires
        0 <= index < accounts.len(),
        forall|i: int|
            0 <= i < accounts.len() ==> in_ring(
                #[trigger] accounts[i],
                accounts.len() as int,
                seed_start,
                endpoint_count,
                i,
            ),
    ensures
        accounts[index].to@ == accounts[crate::ring::successor(
            index,
            accounts.len() as int,
        )].from@,
{
    let next = crate::ring::successor(index, accounts.len() as int);
    assert(in_ring(accounts[next], accounts.len() as int, seed_start, endpoint_count, next));
}

/// A sender.
#[derive(Debug, Clone)]
pub struct SenderState {
    /// The account that signs.
    pub account: RingAccount,
    /// Nonce of the next transaction.
    pub next_nonce: u64,
    /// Hash of the transaction that is not settled yet.
    pub pending_tx_hash: Option<String>,
    /// Pause before the next retry.
    pub retry_backoff_ms: u64,
    /// Whether the sender waits for its turn.
    pub queued_ready: bool,
}

/// Whether a sender is as it starts.
pub open spec fn starts_as(sender: SenderState, account: RingAccount, nonce: u64) -> bool {
    &&& sender.account == account
    &&& sender.next_nonce == nonce
    &&& sender.pending_tx_hash is None
    &&& sender.retry_backoff_ms == INITIAL_RETRY_BACKOFF_MS
}

/// Builds the senders of some accounts.
pub fn build_sender_states(accounts: Vec<RingAccount>, nonce: u64) -> (senders: Vec<SenderState>)
    ensures
        senders@.len() == accounts@.len(),
        forall|i: int|
            0 <= i < senders@.len() ==> starts_as(#[trigger] senders@[i], accounts@[i], nonce)
                && !senders@[i].queued_ready,
{
    let ghost all = accounts@;
    let mut senders: Vec<SenderState> = Vec::new();
    for account in iter: accounts
        invariant
            iter.seq() == all,
            senders@.len() == iter.index(),
            forall|i: int|
                0 <= i < senders@.len() ==> starts_as(#[trigger] senders@[i], all[i], nonce)
                    && !senders@[i].queued_ready,
    {
        senders.push(
            SenderState {
                account,
                next_nonce: nonce,
                pending_tx_hash: None,
                retry_backoff_ms: INITIAL_RETRY_BACKOFF_MS,
                queued_ready: false,
            },
        );
    }
    senders
}

/// How a failed submission is handled.
#[derive(Debug, Clone, Copy, PartialEq, Eq, Structural)]
pub enum SubmissionErrorKind {
    /// The transaction was not taken: submit it again.
    RetryRejected,
    /// The transaction may have been taken: check its status before it is submitted again.
    RetryCheckStatus,
    /// The transaction can never be taken.
    Fatal,
}

/// Whether an error says that the mempool is full.
pub open spec fn mempool_is_full(err: Seq<char>) -> bool {
    crate::text::contains_text(err, "error (503)"@) && crate::text::contains_text(
        err,
        "mempool full"@,
    )
}

/// The pause after a failed submission: twice the last one, within bounds.
pub open spec fn backoff_after(current_ms: u64, err: Seq<char>) -> u64 {
    let doubled = if 2 * current_ms > MAX_RETRY_BACKOFF_MS {
        MAX_RETRY_BACKOFF_MS
    } else {
        (2 * current_ms) as u64
    };
    if mempool_is_full(err) && doubled < MEMPOOL_FULL_RETRY_BACKOFF_MS {
        MEMPOOL_FULL_RETRY_BACKOFF_MS
    } else {
        doubled
    }
}

/// Returns the pause after a failed submission.
pub fn next_retry_backoff(current_ms: u64, err: &str) -> (next_ms: u64)
    ensures
        next_ms == backoff_after(current_ms, err@),
{
    let mut next: u64 = if current_ms > MAX_RETRY_BACKOFF_MS / 2 {
        MAX_RETRY_BACKOFF_MS
    } else {
        current_ms * 2
    };
    if contains(err, "error (503)") && contains(err, "mempool full") && next
        < MEMPOOL_FULL_RETRY_BACKOFF_MS {
        next = MEMPOOL_FULL_RETRY_BACKOFF_MS;
    }
    next
}

/// A pause is never longer than the longest, never shorter than the last one unless that was too
/// long, and never below the floor after a full mempool.
pub proof fn backoff_is_bounded(current_ms: u64, err: Seq<char>)
    ensures
        backoff_after(current_ms, err) <= MAX_RETRY_BACKOFF_MS,
        current_ms <= MAX_RETRY_BACKOFF_MS ==> current_ms <= backoff_after(current_ms, err),
        mempool_is_full(err) ==> backoff_after(current_ms, err) >= MEMPOOL_FULL_RETRY_BACKOFF_MS,
{
}

/// Whether an error names a status that is worth a retry.
pub open spec fn is_retryable_status(err: Seq<char>) -> bool {
    ||| crate::text::contains_text(err, "error (408)"@)
    ||| crate::text::contains_text(err, "error (429)"@)
    ||| crate::text::contains_text(err, "error (500)"@)
    ||| crate::text::contains_text(err, "error (502)"@)
    ||| crate::text::contains_text(err, "error (503)"@)
    ||| crate::text::contains_text(err, "error (504)"@)
}

/// How a failed submission is handled.
pub open spec fn error_kind(err: Seq<char>) -> SubmissionErrorKind {
    if crate::text::begins_with(err, "request failed:"@) || crate::text::begins_with(
        err,
        "response body failed:"@,
    ) {
        SubmissionErrorKind::RetryCheckStatus
    } else if is_retryable_status(err) {
        if mempool_is_full(err) {
            SubmissionErrorKind::RetryRejected
        } else {
            SubmissionErrorKind::RetryCheckStatus
        }
    } else {
        SubmissionErrorKind::Fatal
    }
}

/// Whether an HTTP status is worth a retry.
pub open spec fn is_transient(status: u16) -> bool {
    status == 408 || status == 429 || status == 500 || status == 502 || status == 503 || status
        == 504
}

/// An answer with a status of three digits begins with that status in its words.
proof fn answers_begin_with_their_status(status: u16, body: Seq<char>, words: Seq<char>)
    requires
        100 <= status < 1000,
        words == seq![
            'e',
            'r',
            'r',
            'o',
            'r',
            ' ',
            '(',
            crate::text::digit((status / 100) as nat),
            crate::text::digit((status / 10 % 10) as nat),
            crate::text::digit((status % 10) as nat),
            ')',
        ],
    ensures
        crate::text::contains_text(
            crate::spammer::shared::error_text(crate::text::decimal(status as nat), body),
            words,
        ),
{
    let err = crate::spammer::shared::error_text(crate::text::decimal(status as nat), body);
    reveal_with_fuel(crate::text::decimal, 3);
    reveal_strlit("error (");
    reveal_strlit("): ");
    assert(err.subrange(0, 11) =~= words);
    assert(crate::text::occurs_at(err, words, 0));
}

/// An answer with a status that is worth a retry is never final.
pub proof fn transient_answers_are_retried(status: u16, body: Seq<char>)
    requires
        is_transient(status),
    ensures
        !(error_kind(
            crate::spammer::shared::error_text(crate::text::decimal(status as nat), body),
        ) is Fatal),
{
    reveal_strlit("error (408)");
    reveal_strlit("error (429)");
    reveal_strlit("error (500)");
    reveal_strlit("error (502)");
    reveal_strlit("error (503)");
    reveal_strlit("error (504)");
    let words = if status == 408 {
        "error (408)"@
    } else if status == 429 {
        "error (429)"@
    } else if status == 500 {
        "error (500)"@
    } else if status == 502 {
        "error (502)"@
    } else if status == 503 {
        "error (503)"@
    } else {
        "error (504)"@
    };
    assert(words =~= seq![
        'e',
        'r',
        'r',
        'o',
        'r',
        ' ',
        '(',
        crate::text::digit((status / 100) as nat),
        crate::text::digit((status / 10 % 10) as nat),
        crate::text::digit((status % 10) as nat),
        ')',
    ]);
    answers_begin_with_their_status(status, body, words);
}

/// Returns how a failed submission is handled.
pub fn classify_submission_error(err: &str) -> (kind: SubmissionErrorKind)
    ensures
        kind == error_kind(err@),
{
    if starts_with(err, "request failed:") || starts_with(err, "response body failed:") {
        return SubmissionErrorKind::RetryCheckStatus;
    }
    if contains(err, "error (408)") || contains(err, "error (429)") || contains(err, "error (500)")
        || contains(err, "error (502)") || contains(err, "error (503)") || contains(
        err,
        "error (504)",
    ) {
        if contains(err, "error (503)") && contains(err, "mempool full") {
            return SubmissionErrorKind::RetryRejected;
        }
        return SubmissionErrorKind::RetryCheckStatus;
    }
    SubmissionErrorKind::Fatal
}

/// A sender's transaction that can never be included.
#[derive(Debug, Clone)]
pub struct SenderFailure {
    /// The endpoint that said so.
    pub endpoint: String,
    /// Index of the sender.
    pub sender_index: usize,
    /// Nonce of the transaction.
    pub nonce: u64,
    /// What the endpoint said.
    pub reason: String,
}

/// Returns the words for a sender's failure, given the addresses of the two accounts.
pub fn format_sender_failure(failure: &SenderFailure, from: &[u8], to: &[u8]) -> (text: String)
    ensures
        text@ == failure.endpoint@ + " "@ + crate::formatting::hex_text(from@) + " -> "@
            + crate::formatting::hex_text(to@) + " nonce="@ + crate::text::decimal(
            failure.nonce as nat,
        ) + ": "@ + failure.reason@,
{
    let mut text = failure.endpoint.clone();
    text.append(" ");
    text.append(crate::formatting::hex(from).as_str());
    text.append(" -> ");
    text.append(crate::formatting::hex(to).as_str());
    text.append(" nonce=");
    push_decimal(&mut text, failure.nonce);
    text.append(": ");
    text.append(failure.reason.as_str());
    text
}

/// Whether a sender can be queued.
pub open spec fn can_queue(sender: SenderState) -> bool {
    !sender.queued_ready && sender.pending_tx_hash is None
}

/// Returns whether a sender can be queued.
pub fn sender_is_ready(sender: &SenderState) -> (ready: bool)
    ensures
        ready == can_queue(*sender),
{
    !sender.queued_ready && sender.pending_tx_hash.is_none()
}

proof fn status_words_name_one_status(status: u16, body: Seq<char>, code: u16, words: Seq<char>)
    requires
        100 <= status < 1000,
        100 <= code < 1000,
        words == seq![
            'e',
            'r',
            'r',
            'o',
            'r',
            ' ',
            '(',
            crate::text::digit((code / 100) as nat),
            crate::text::digit((code / 10 % 10) as nat),
            crate::text::digit((code % 10) as nat),
            ')',
        ],
        !crate::text::contains_text(body, "error ("@),
    ensures
        crate::text::contains_text(
            crate::spammer::shared::error_text(crate::text::decimal(status as nat), body),
            words,
        ) <==> status == code,
{
    let err = crate::spammer::shared::error_text(crate::text::decimal(status as nat), body);
    if status == code {
        answers_begin_with_their_status(status, body, words);
    }
    reveal_with_fuel(crate::text::decimal, 3);
    reveal_strlit("error (");
    reveal_strlit("): ");
    let head = seq![
        'e',
        'r',
        'r',
        'o',
        'r',
        ' ',
        '(',
        crate::text::digit((status / 100) as nat),
        crate::text::digit((status / 10 % 10) as nat),
        crate::text::digit((status % 10) as nat),
        ')',
        ':',
        ' ',
    ];
    assert(err =~= head + body);
    if crate::text::contains_text(err, words) {
        let at = choose|at: int| crate::text::occurs_at(err, words, at);
        let found = err.subrange(at, at + 11);
        assert forall|k: int| 0 <= k < 11 implies err[at + k] == #[trigger] words[k] by {
            assert(found[k] == words[k]);
        }
        assert(err[at + 0] == words[0]);
        if at == 0 {
            assert(err[7] == words[7]);
            assert(err[8] == words[8]);
            assert(err[9] == words[9]);
        } else if at < 13 {
            assert(head[at] != 'e');
        } else {
            assert forall|k: int| 0 <= k < 7 implies body[at - 13 + k] == #[trigger] "error ("@[k] by {
                assert(err[at + k] == words[k]);
            }
            assert(body.subrange(at - 13, at - 13 + 7) =~= "error ("@);
            assert(crate::text::occurs_at(body, "error ("@, at - 13));
        }
    }
}

/// How an unsuccessful answer is handled, by its status alone, unless its body holds the words of
/// another status: one that is worth a retry has the transaction's status checked first, a full
/// mempool has it submitted again, and any other is final.
pub proof fn answers_are_handled_by_status(
    status: u16,
    body: &str,
    error: String,
    err: &str,
    kind: SubmissionErrorKind,
)
    requires
        call_ensures(crate::spammer::shared::answer_error, (status, body), Some(error)),
        err@ == error@,
        call_ensures(classify_submission_error, (err,), kind),
        100 <= status < 1000,
        !crate::text::contains_text(body@, "error ("@),
    ensures
        status == 503 && crate::text::contains_text(body@, "mempool full"@)
            ==> kind is RetryRejected,
        (status == 408 || status == 429 || status == 500 || status == 502 || status == 504)
            ==> kind is RetryCheckStatus,
        status == 503 && !crate::text::contains_text(error@, "mempool full"@)
            ==> kind is RetryCheckStatus,
        !(status == 408 || status == 429 || status == 500 || status == 502 || status == 503
            || status == 504) ==> kind is Fatal,
{
    let text = crate::spammer::shared::error_text(crate::text::decimal(status as nat), body@);
    reveal_strlit("error (408)");
    reveal_strlit("error (429)");
    reveal_strlit("error (500)");
    reveal_strlit("error (502)");
    reveal_strlit("error (503)");
    reveal_strlit("error (504)");
    assert("error (408)"@ =~= seq!['e', 'r', 'r', 'o', 'r', ' ', '(', '4', '0', '8', ')']);
    assert("error (429)"@ =~= seq!['e', 'r', 'r', 'o', 'r', ' ', '(', '4', '2', '9', ')']);
    assert("error (500)"@ =~= seq!['e', 'r', 'r', 'o', 'r', ' ', '(', '5', '0', '0', ')']);
    assert("error (502)"@ =~= seq!['e', 'r', 'r', 'o', 'r', ' ', '(', '5', '0', '2', ')']);
    assert("error (503)"@ =~= seq!['e', 'r', 'r', 'o', 'r', ' ', '(', '5', '0', '3', ')']);
    assert("error (504)"@ =~= seq!['e', 'r', 'r', 'o', 'r', ' ', '(', '5', '0', '4', ')']);
    status_words_name_one_status(status, body@, 408, "error (408)"@);
    status_words_name_one_status(status, body@, 429, "error (429)"@);
    status_words_name_one_status(status, body@, 500, "error (500)"@);
    status_words_name_one_status(status, body@, 502, "error (502)"@);
    status_words_name_one_status(status, body@, 503, "error (503)"@);
    status_words_name_one_status(status, body@, 504, "error (504)"@);
    reveal_strlit("request failed:");
    reveal_strlit("response body failed:");
    reveal_strlit("error (");
    assert(text[0] == 'e');
    if crate::text::begins_with(text, "request failed:"@) {
        assert(text.subrange(0, 15)[0] == 'r');
    }
    if crate::text::begins_with(text, "response body failed:"@) {
        assert(text.subrange(0, 21)[0] == 'r');
    }
    let needle = "mempool full"@;
    if crate::text::contains_text(body@, needle) {
        let at = choose|at: int| crate::text::occurs_at(body@, needle, at);
        let shift = text.len() - body@.len();
        assert(text.subrange(shift + at, shift + at + needle.len()) =~= body@.subrange(
            at,
            at + needle.len(),
        ));
        assert(crate::text::occurs_at(text, needle, shift + at));
    }
}

/// A request that got no answer may have been taken: its transaction's status is checked first.
pub proof fn lost_requests_are_checked(err: &str, kind: SubmissionErrorKind)
    requires
        call_ensures(classify_submission_error, (err,), kind),
        crate::text::begins_with(err@, "request failed:"@) || crate::text::begins_with(
            err@,
            "response body failed:"@,
        ),
    ensures
        kind is RetryCheckStatus,
{
}

/// The pause doubles up to five seconds, and is at least one second after a full mempool.
pub proof fn pauses_double(current_ms: u64, err: &str, next_ms: u64)
    requires
        call_ensures(next_retry_backoff, (current_ms, err), next_ms),
    ensures
        !mempool_is_full(err@) && current_ms <= 2_500 ==> next_ms == 2 * current_ms,
        current_ms > 2_500 ==> next_ms == 5_000,
        mempool_is_full(err@) && current_ms <= 500 ==> next_ms == 1_000,
        mempool_is_full(err@) && 500 < current_ms <= 2_500 ==> next_ms == 2 * current_ms,
{
}

/// The accounts that [`build_ring_accounts`] makes are those of consecutive seeds. Each pays the
/// next one, the last pays the first, and an account submits to the endpoint whose index is
/// congruent to its own.
pub proof fn ring_accounts_pay_on(
    count: usize,
    seed_start: u64,
    endpoint_count: usize,
    accounts: Vec<RingAccount>,
    index: int,
    endpoint: int,
)
    requires
        call_ensures(build_ring_accounts, (count, seed_start, endpoint_count), accounts),
        endpoint_count > 0,
        seed_start + count - 1 <= u64::MAX,
        0 <= index < count,
        0 <= endpoint < endpoint_count,
        (index - endpoint) % endpoint_count as int == 0,
    ensures
        accounts@.len() == count,
        accounts@[index].seed == seed_start + index,
        accounts@[index].from@ == crate::keys::derived_public_key(
            crate::keys::seeded_private_key(accounts@[index].seed),
        ),
        index + 1 < count ==> accounts@[index].to@ == accounts@[index + 1].from@,
        index + 1 == count ==> accounts@[index].to@ == accounts@[0].from@,
        accounts@[index].endpoint_index == endpoint,
{
    assert(in_ring(accounts@[index], count as int, seed_start, endpoint_count as int, index));
    if index + 1 < count {
        assert(
            in_ring(accounts@[index + 1], count as int, seed_start, endpoint_count as int, index + 1)
        );
    } else {
        assert(in_ring(accounts@[0], count as int, seed_start, endpoint_count as int, 0));
    }
    let size = endpoint_count as int;
    vstd::arithmetic::div_mod::lemma_fundamental_div_mod(index - endpoint, size);
    let turns = (index - endpoint) / size;
    assert(size * turns == turns * size) by (nonlinear_arith);
    vstd::arithmetic::div_mod::lemma_fundamental_div_mod_converse(index, size, turns, endpoint);
}

/// Senders start one for each account, in order, at the same nonce, with nothing unsettled; they can be
/// queued exactly while nothing is unsettled and they are not queued already.
pub proof fn senders_start_free(
    accounts: Vec<RingAccount>,
    nonce: u64,
    senders: Vec<SenderState>,
    index: int,
    ready: bool,
)
    requires
        call_ensures(build_sender_states, (accounts, nonce), senders),
        0 <= index < accounts@.len(),
        call_ensures(sender_is_ready, (&senders@[index],), ready),
    ensures
        senders@.len() == accounts@.len(),
        senders@[index].account == accounts@[index],
        senders@[index].next_nonce == nonce,
        senders@[index].pending_tx_hash is None,
        senders@[index].retry_backoff_ms == 100,
        ready,
{
    assert(starts_as(senders@[index], accounts@[index], nonce));
}

/// The ring spammer runs exactly with an account and an endpoint, and with what it was given.
pub proof fn spammer_needs_account_and_endpoint(
    count: usize,
    endpoints: Vec<String>,
    seed_start: u64,
    nonce: u64,
    args: Result<Args, String>,
)
    requires
        call_ensures(Args::new, (count, endpoints, seed_start, nonce), args),
    ensures
        args is Ok <==> count > 0 && endpoints@.len() > 0,
        args matches Ok(args) ==> args.count == count && args.endpoints == endpoints
            && args.seed_start == seed_start && args.nonce == nonce,
{
}

/// The words for a failure begin with the endpoint, the two accounts and the nonce, and end with what
/// the endpoint said.
pub proof fn failures_are_put_in_words(
    failure: SenderFailure,
    from: &[u8],
    to: &[u8],
    text: String,
)
    requires
        call_ensures(format_sender_failure, (&failure, from, to), text),
    ensures
        (failure.endpoint@ + " "@ + crate::formatting::hex_text(from@) + " -> "@
            + crate::formatting::hex_text(to@) + " nonce="@ + crate::text::decimal(
            failure.nonce as nat,
        )).is_prefix_of(text@),
        text@.skip(text@.len() - failure.reason@.len()) == failure.reason@,
{
    assert(text@.skip(text@.len() - failure.reason@.len()) =~= failure.reason@);
}

} // verus!

//! The relayer's health and account endpoints: what their answers mean.
//!
//! The spammer assumes a fresh chain (all accounts at nonce zero with zero private commitments) and
//! an available relayer, and verifies both before it submits anything.

use crate::formatting::hex;
use crate::text::{push_decimal, trim_trailing_slashes};
use vstd::prelude::*;

verus! {

/// How often readiness and reconciliation polls re-query the relayer.
pub const POLL_INTERVAL_MS: u64 = 500;

/// How long to wait for the relayer's `/health` endpoint at startup.
pub const HEALTH_TIMEOUT_MS: u64 = 120_000;

/// How long to wait for the relayer to attach state and answer account lookups.
pub const STATE_READY_TIMEOUT_MS: u64 = 120_000;

/// Concurrent account-state lookups during the startup freshness check.
pub const FRESHNESS_CONCURRENCY: usize = 32;

/// Lookups of one account before its failure counts.
pub const FRESHNESS_ATTEMPTS: u32 = 5;

/// On-chain account state as served by `GET /account/{public_key}`.
#[derive(Debug, Clone)]
pub struct AccountInfo {
    pub balance: u64,
    pub nonce: NonceInfo,
    pub private: String,
    pub pending: String,
}

/// Nonce state as served by the account endpoint.
#[derive(Debug, Clone, Copy, PartialEq, Eq, Structural)]
pub struct NonceInfo {
    pub base: u64,
    pub bitmap: u64,
}

/// Why an account lookup failed.
#[derive(Debug, Clone)]
pub enum AccountError {
    /// The node has not attached its state database yet (HTTP 503).
    NotReady,
    /// Transport failure or unexpected response.
    Unavailable(String),
}

impl AccountError {
    /// The words for this error.
    pub open spec fn text(self) -> Seq<char> {
        match self {
            AccountError::NotReady => "state not attached yet"@,
            AccountError::Unavailable(reason) => "unavailable: "@ + reason@,
        }
    }

    /// Returns the words for this error.
    pub fn message(&self) -> (text: String)
        ensures
            text@ == self.text(),
    {
        match self {
            AccountError::NotReady => "state not attached yet".to_string(),
            AccountError::Unavailable(reason) => {
                let mut text = "unavailable: ".to_string();
                text.append(reason.as_str());
                text
            },
        }
    }
}

/// Returns the URL of the health endpoint.
pub fn health_url(relayer_url: &str) -> (url: String)
    ensures
        url@ == crate::text::without_trailing_slashes(relayer_url@) + "/health"@,
{
    let mut url = trim_trailing_slashes(relayer_url);
    url.append("/health");
    url
}

/// Returns the URL of an account, whose key is given by its encoding.
pub fn account_url(relayer_url: &str, key: &[u8]) -> (url: String)
    ensures
        url@ == crate::text::without_trailing_slashes(relayer_url@) + "/account/"@
            + crate::formatting::hex_text(key@),
{
    let mut url = trim_trailing_slashes(relayer_url);
    url.append("/account/");
    url.append(hex(key).as_str());
    url
}

/// Returns whether the HTTP status of the health endpoint says that the relayer is healthy.
pub fn health_answered(status: u16) -> (ready: bool)
    ensures
        ready == (status == 200),
{
    status == 200
}

/// What a poll of an endpoint decides.
#[derive(Debug, Clone, Copy, PartialEq, Eq, Structural)]
pub enum PollStep {
    /// The endpoint answered.
    Ready,
    /// Time is up.
    GiveUp,
    /// Ask again after a pause.
    Wait,
}

/// Decides what follows a poll that was answered or not.
pub fn poll_step(answered: bool, now_ms: u64, deadline_ms: u64) -> (step: PollStep)
    ensures
        step == if answered {
            PollStep::Ready
        } else if now_ms >= deadline_ms {
            PollStep::GiveUp
        } else {
            PollStep::Wait
        },
{
    if answered {
        PollStep::Ready
    } else if now_ms >= deadline_ms {
        PollStep::GiveUp
    } else {
        PollStep::Wait
    }
}

/// Returns the words for a relayer that never became healthy within the time that `timeout` names.
pub fn unhealthy_message(relayer_url: &str, timeout: &str) -> (text: String)
    ensures
        text@ == "relayer at "@ + crate::text::without_trailing_slashes(relayer_url@)
            + " did not become healthy within "@ + timeout@,
{
    let mut text = "relayer at ".to_string();
    text.append(trim_trailing_slashes(relayer_url).as_str());
    text.append(" did not become healthy within ");
    text.append(timeout);
    text
}

/// What the HTTP status of an account lookup says.
#[derive(Debug, Clone)]
pub enum AccountReply {
    /// The body holds the account.
    Found,
    /// The account has never been written.
    Missing,
    /// The lookup failed.
    Failed(AccountError),
}

/// Returns what the HTTP status of an account lookup says.
pub fn account_reply(status: u16) -> (reply: AccountReply)
    ensures
        match reply {
            AccountReply::Found => status == 200,
            AccountReply::Missing => status == 404,
            AccountReply::Failed(AccountError::NotReady) => status == 503,
            AccountReply::Failed(AccountError::Unavailable(reason)) => {
                &&& status != 200 && status != 404 && status != 503
                &&& reason@ == "http status "@ + crate::text::decimal(status as nat)
            },
        },
{
    match status {
        200 => AccountReply::Found,
        404 => AccountReply::Missing,
        503 => AccountReply::Failed(AccountError::NotReady),
        other => {
            let mut reason = "http status ".to_string();
            push_decimal(&mut reason, other as u64);
            AccountReply::Failed(AccountError::Unavailable(reason))
        },
    }
}

/// What the chain gives to an account that it has never touched.
#[derive(Debug, Clone)]
pub struct ChainDefaults {
    /// Balance of every account.
    pub balance: u64,
    /// Encoded zero commitment.
    pub zero_commitment: Vec<u8>,
}

/// Returns the hex encoding of a commitment, matching the account endpoint's encoding.
pub fn commitment_hex(commitment: &[u8]) -> (text: String)
    ensures
        text@ == crate::formatting::hex_text(commitment@),
{
    hex(commitment)
}

/// Whether an account is indistinguishable from one the chain has never touched.
pub open spec fn pristine(info: AccountInfo, defaults: ChainDefaults) -> bool {
    &&& info.balance == defaults.balance
    &&& info.nonce.base == 0
    &&& info.nonce.bitmap == 0
    &&& info.private@ == crate::formatting::hex_text(defaults.zero_commitment@)
    &&& info.pending@ == crate::formatting::hex_text(defaults.zero_commitment@)
}

/// Returns whether the response describes an account indistinguishable from one the chain has never
/// touched.
pub fn is_pristine(info: &AccountInfo, defaults: &ChainDefaults) -> (fresh: bool)
    ensures
        fresh == pristine(*info, *defaults),
{
    let zero = commitment_hex(defaults.zero_commitment.as_slice());
    info.balance == defaults.balance && info.nonce.base == 0 && info.nonce.bitmap == 0
        && info.private == zero && info.pending == zero
}

/// The words for an account that the chain has touched.
pub open spec fn touched_text(index: nat, info: AccountInfo) -> Seq<char> {
    "spam account "@ + crate::text::decimal(index) + " already has on-chain state (nonce base "@
        + crate::text::decimal(info.nonce.base as nat) + ", balance "@ + crate::text::decimal(
        info.balance as nat,
    )
        + "): the spammer requires a fresh chain — wipe the validators' state directories (the deploy output dir) or use a seed range no prior run has touched"@
}

/// Why a lookup speaks against a fresh chain, if it does.
pub open spec fn objection(
    index: nat,
    lookup: Result<Option<AccountInfo>, AccountError>,
    defaults: ChainDefaults,
) -> Option<Seq<char>> {
    match lookup {
        Ok(None) => None,
        Ok(Some(info)) => if pristine(info, defaults) {
            None
        } else {
            Some(touched_text(index, info))
        },
        Err(error) => Some("could not read account state: "@ + error.text()),
    }
}

/// Where a freshness check stands.
#[verifier::ext_equal]
pub struct CheckView {
    /// Accounts to check.
    pub total: nat,
    /// Accounts whose lookup was started: the first ones.
    pub started: nat,
    /// Accounts whose lookup runs.
    pub running: Seq<usize>,
}

/// One step of a freshness check.
pub enum CheckEvent {
    /// The lookup of an account starts.
    Start { index: usize },
    /// The lookup of an account is over.
    Answer { index: usize, lookup: Result<Option<AccountInfo>, AccountError> },
}

impl CheckView {
    /// No lookup was started.
    pub open spec fn fresh(total: nat) -> CheckView {
        CheckView { total, started: 0, running: Seq::empty() }
    }

    /// Whether only lookups that were started run, each once, and no more than may.
    pub open spec fn well_formed(self) -> bool {
        &&& self.started <= self.total
        &&& self.running.len() <= FRESHNESS_CONCURRENCY
        &&& self.running.no_duplicates()
        &&& forall|i: int|
            0 <= i < self.running.len() ==> #[trigger] self.running[i] < self.started
    }

    /// Whether every account was looked up.
    pub open spec fn is_done(self) -> bool {
        self.running.len() == 0 && self.started == self.total
    }

    /// Whether another lookup may start.
    pub open spec fn may_start(self) -> bool {
        self.started < self.total && self.running.len() < FRESHNESS_CONCURRENCY
    }

    /// The check with one more lookup: that of the next account.
    pub open spec fn starting(self) -> CheckView {
        CheckView {
            started: self.started + 1,
            running: self.running.push(self.started as usize),
            ..self
        }
    }

    /// The check without the lookup of an account.
    pub open spec fn ending(self, index: usize) -> CheckView {
        CheckView { running: self.running.remove(self.running.index_of(index)), ..self }
    }

    /// The check after a step, unless the step cannot be taken or ends the check.
    pub open spec fn after(self, event: CheckEvent, defaults: ChainDefaults) -> Option<CheckView> {
        match event {
            CheckEvent::Start { index } => if self.may_start() && index == self.started {
                Some(self.starting())
            } else {
                None
            },
            CheckEvent::Answer { index, lookup } => if self.running.contains(index) && objection(
                index as nat,
                lookup,
                defaults,
            ) is None {
                Some(self.ending(index))
            } else {
                None
            },
        }
    }
}

/// Where a check of `total` accounts stands after some steps, unless one of them ended it.
pub open spec fn check_after(
    total: nat,
    events: Seq<CheckEvent>,
    defaults: ChainDefaults,
) -> Option<CheckView>
    decreases events.len(),
{
    if events.len() == 0 {
        Some(CheckView::fresh(total))
    } else {
        match check_after(total, events.drop_last(), defaults) {
            Some(check) => check.after(events.last(), defaults),
            None => None,
        }
    }
}

/// How often the lookup of an account was started.
pub open spec fn times_started(events: Seq<CheckEvent>, index: usize) -> nat
    decreases events.len(),
{
    if events.len() == 0 {
        0
    } else {
        times_started(events.drop_last(), index) + if events.last() == (CheckEvent::Start { index }) {
            1nat
        } else {
            0nat
        }
    }
}

/// Whether a step says that an account is as the chain left it.
pub open spec fn passes(event: CheckEvent, index: usize, defaults: ChainDefaults) -> bool {
    event matches CheckEvent::Answer { index: answered, lookup } && answered == index && objection(
        index as nat,
        lookup,
        defaults,
    ) is None
}

/// How often an account was found to be as the chain left it.
pub open spec fn times_passed(
    events: Seq<CheckEvent>,
    index: usize,
    defaults: ChainDefaults,
) -> nat
    decreases events.len(),
{
    if events.len() == 0 {
        0
    } else {
        times_passed(events.drop_last(), index, defaults) + if passes(
            events.last(),
            index,
            defaults,
        ) {
            1nat
        } else {
            0nat
        }
    }
}

/// Verifies that none of the spam accounts has committed on-chain state.
///
/// Every account is checked, not a sample: a previous run with an overlapping seed range may have
/// touched accounts anywhere in the ring, and one poisoned account makes every batch containing it
/// fail.
pub struct FreshnessCheck {
    /// Accounts to check.
    pub total: usize,
    /// Accounts whose lookup was started: the first ones.
    pub started: usize,
    /// Accounts whose lookup runs.
    pub running: Vec<usize>,
}

impl View for FreshnessCheck {
    type V = CheckView;

    open spec fn view(&self) -> CheckView {
        CheckView {
            total: self.total as nat,
            started: self.started as nat,
            running: self.running@,
        }
    }
}

impl FreshnessCheck {
    /// Starts a check of `total` accounts.
    pub fn new(total: usize) -> (check: Result<Self, String>)
        ensures
            match check {
                Ok(check) => total > 0 && check@ == CheckView::fresh(total as nat)
                    && check@.well_formed(),
                Err(reason) => total == 0 && reason@ == "no accounts to check"@,
            },
    {
        if total == 0 {
            return Err("no accounts to check".to_string());
        }
        Ok(FreshnessCheck { total, started: 0, running: Vec::new() })
    }

    /// Returns the next account to look up, unless enough lookups run or all were started.
    pub fn next_lookup(&mut self) -> (index: Option<usize>)
        requires
            old(self)@.well_formed(),
        ensures
            final(self)@.well_formed(),
            match index {
                Some(index) => {
                    &&& old(self)@.may_start()
                    &&& index == old(self)@.started
                    &&& final(self)@ == old(self)@.starting()
                },
                None => !old(self)@.may_start() && *final(self) == *old(self),
            },
    {
        if self.running.len() >= FRESHNESS_CONCURRENCY || self.started >= self.total {
            return None;
        }
        let index: usize = self.started;
        self.running.push(index);
        self.started = index + 1;
        Some(index)
    }

    /// Returns where the lookup of an account stands among those that run.
    fn position(&self, index: usize) -> (at: Option<usize>)
        requires
            self@.well_formed(),
        ensures
            match at {
                Some(at) => at < self.running@.len() && self.running@[at as int] == index && at
                    == self.running@.index_of(index),
                None => !self.running@.contains(index),
            },
    {
        let mut at: usize = 0;
        while at < self.running.len()
            invariant
                at <= self.running@.len(),
                self@.well_formed(),
                forall|i: int| 0 <= i < at ==> self.running@[i] != index,
            decreases self.running@.len() - at,
        {
            if self.running[at] == index {
                return Some(at);
            }
            at += 1;
        }
        None
    }

    /// Returns whether the lookup of an account runs.
    pub fn is_running(&self, index: usize) -> (running: bool)
        requires
            self@.well_formed(),
        ensures
            running == self@.running.contains(index),
    {
        self.position(index).is_some()
    }

    /// Takes in a lookup. An account that the chain has touched, or that cannot be read, ends the
    /// check.
    pub fn on_lookup(
        &mut self,
        index: usize,
        lookup: &Result<Option<AccountInfo>, AccountError>,
        defaults: &ChainDefaults,
    ) -> (verdict: Result<(), String>)
        requires
            old(self)@.well_formed(),
            old(self)@.running.contains(index),
        ensures
            final(self)@.well_formed(),
            final(self)@ == old(self)@.ending(index),
            match verdict {
                Ok(()) => objection(index as nat, *lookup, *defaults) is None,
                Err(reason) => objection(index as nat, *lookup, *defaults) == Some(reason@),
            },
    {
        if let Some(at) = self.position(index) {
            let _ = self.running.remove(at);
        }
        match lookup {
            Ok(None) => Ok(()),
            Ok(Some(info)) => {
                if is_pristine(info, defaults) {
                    return Ok(());
                }
                let mut reason = "spam account ".to_string();
                push_decimal(&mut reason, index as u64);
                reason.append(" already has on-chain state (nonce base ");
                push_decimal(&mut reason, info.nonce.base);
                reason.append(", balance ");
                push_decimal(&mut reason, info.balance);
                reason.append(
                    "): the spammer requires a fresh chain — wipe the validators' state directories (the deploy output dir) or use a seed range no prior run has touched",
                );
                Err(reason)
            },
            Err(error) => {
                let mut reason = "could not read account state: ".to_string();
                reason.append(error.message().as_str());
                Err(reason)
            },
        }
    }

    /// Returns whether every account was looked up.
    pub fn is_done(&self) -> (done: bool)
        requires
            self@.well_formed(),
        ensures
            done == self@.is_done(),
    {
        self.running.len() == 0 && self.started >= self.total
    }
}

/// A check that is not over always has a lookup to start or one to wait for.
pub proof fn check_never_stalls(check: CheckView)
    requires
        check.well_formed(),
        !check.is_done(),
    ensures
        check.may_start() || check.running.len() > 0,
{
}

/// After any steps that did not end a check, the lookup of every started account was started once, and
/// every account whose lookup is over passed once; no other account was looked up or passed.
pub proof fn check_counts_every_account(
    total: nat,
    events: Seq<CheckEvent>,
    defaults: ChainDefaults,
    index: usize,
)
    requires
        total <= usize::MAX,
        check_after(total, events, defaults) is Some,
    ensures
        ({
            let check = check_after(total, events, defaults).unwrap();
            &&& check.well_formed()
            &&& check.total == total
            &&& times_started(events, index) == if index < check.started {
                1nat
            } else {
                0nat
            }
            &&& times_passed(events, index, defaults) == if index < check.started
                && !check.running.contains(index) {
                1nat
            } else {
                0nat
            }
        }),
    decreases events.len(),
{
    if events.len() > 0 {
        let earlier = events.drop_last();
        let before = check_after(total, earlier, defaults).unwrap();
        let check = check_after(total, events, defaults).unwrap();
        check_counts_every_account(total, earlier, defaults, index);
        match events.last() {
            CheckEvent::Start { index: next } => {
                assert(check.running[check.running.len() - 1] == next);
                assert forall|other: usize| #[trigger] check.running.contains(other) == (other == next
                    || before.running.contains(other)) by {
                    if before.running.contains(other) {
                        let at = before.running.index_of(other);
                        assert(check.running[at] == other);
                    }
                    if check.running.contains(other) {
                        let at = check.running.index_of(other);
                        if at < before.running.len() {
                            assert(before.running[at] == other);
                        }
                    }
                }
            },
            CheckEvent::Answer { index: over, lookup } => {
                ending_takes_one(before, over);
            },
        }
    }
}

/// The end of a lookup takes that lookup, and no other.
proof fn ending_takes_one(check: CheckView, over: usize)
    requires
        check.well_formed(),
        check.running.contains(over),
    ensures
        check.ending(over).well_formed(),
        forall|other: usize| #[trigger] check.ending(over).running.contains(other) == (other != over
            && check.running.contains(other)),
{
    let at = check.running.index_of(over);
    let left = check.ending(over).running;
    assert forall|i: int| 0 <= i < left.len() implies #[trigger] left[i] == check.running[if i < at {
        i
    } else {
        i + 1
    }] by {}
    assert forall|other: usize| #[trigger] left.contains(other) == (other != over
        && check.running.contains(other)) by {
        if left.contains(other) {
            let i = left.index_of(other);
            assert(left[i] == other);
        }
        if other != over && check.running.contains(other) {
            let i = check.running.index_of(other);
            if i < at {
                assert(left[i] == other);
            } else {
                assert(left[i - 1] == other);
            }
        }
    }
}

/// A check ends well only when every account was looked up once and found to be as the chain left it.
pub proof fn finished_check_covers_everyone(
    total: nat,
    events: Seq<CheckEvent>,
    defaults: ChainDefaults,
    index: usize,
)
    requires
        total <= usize::MAX,
        check_after(total, events, defaults) matches Some(check) && check.is_done(),
        index < total,
    ensures
        times_started(events, index) == 1,
        times_passed(events, index, defaults) == 1,
{
    check_counts_every_account(total, events, defaults, index);
}

/// What follows a lookup of one account.
#[derive(Debug, Clone, Copy, PartialEq, Eq, Structural)]
pub enum LookupStep {
    /// The lookup is over.
    Report,
    /// Look the account up again after a pause.
    Retry,
}

/// Decides what follows attempt number `attempt` (from zero): transient failures are tolerated
/// within a small budget.
pub fn lookup_step(failed: bool, attempt: u32) -> (step: LookupStep)
    ensures
        step == if failed && attempt + 1 < FRESHNESS_ATTEMPTS {
            LookupStep::Retry
        } else {
            LookupStep::Report
        },
{
    if failed && attempt < FRESHNESS_ATTEMPTS - 1 {
        LookupStep::Retry
    } else {
        LookupStep::Report
    }
}

/// Returns the words for a relayer that never answered account lookups.
pub fn state_unreadable_message(error: &AccountError) -> (text: String)
    ensures
        text@ == "could not read account state from the relayer: "@ + error.text(),
{
    let mut text = "could not read account state from the relayer: ".to_string();
    text.append(error.message().as_str());
    text
}

/// An account passes the freshness check only if it does not exist yet, or has the balance that the
/// chain gives out, no used nonce, and commitments that decode to the zero commitment; and every
/// such account passes. A lookup that failed never does.
pub proof fn touched_accounts_are_noticed(
    index: nat,
    lookup: Result<Option<AccountInfo>, AccountError>,
    defaults: ChainDefaults,
)
    ensures
        match lookup {
            Ok(None) => objection(index, lookup, defaults) is None,
            Ok(Some(info)) => {
                &&& objection(index, lookup, defaults) is None ==> {
                    &&& info.balance == defaults.balance
                    &&& info.nonce.base == 0 && info.nonce.bitmap == 0
                    &&& crate::formatting::hex_bytes(info.private@) == Some(
                        defaults.zero_commitment@,
                    )
                    &&& crate::formatting::hex_bytes(info.pending@) == Some(
                        defaults.zero_commitment@,
                    )
                }
                &&& info.balance != defaults.balance || info.nonce.base != 0 || info.nonce.bitmap
                    != 0 ==> objection(index, lookup, defaults) is Some
                &&& info.balance == defaults.balance && info.nonce.base == 0 && info.nonce.bitmap
                    == 0 && info.private@ == crate::formatting::hex_text(
                    defaults.zero_commitment@,
                ) && info.pending@ == info.private@ ==> objection(index, lookup, defaults) is None
            },
            Err(_) => objection(index, lookup, defaults) is Some,
        },
{
    crate::formatting::hex_round_trip(defaults.zero_commitment@);
}

/// Lookups are handed out in order, one account after the other, as long as accounts are left and
/// fewer than 32 lookups run.
pub proof fn lookups_are_handed_out_in_order(
    first: &mut FreshnessCheck,
    second: &mut FreshnessCheck,
    index: Option<usize>,
    following: Option<usize>,
)
    requires
        old(first)@.well_formed(),
        call_ensures(FreshnessCheck::next_lookup, (first,), index),
        *old(second) == *final(first),
        call_ensures(FreshnessCheck::next_lookup, (second,), following),
    ensures
        index is Some <==> old(first).started < old(first).total && old(first).running@.len() < 32,
        index matches Some(account) ==> account == old(first).started
            && final(first).running@.contains(account),
        (index, following) matches (Some(account), Some(next)) ==> next == account + 1,
        final(second).running@.len() <= 32,
        final(second).total == old(first).total,
{
    if let Some(account) = index {
        assert(final(first).running@.last() == account);
    }
}

/// How polls and lookups end: an answer ends a poll, time ends it without one, and otherwise it is asked
/// again. A lookup that failed is repeated until its fifth attempt.
pub proof fn polls_and_lookups_end(
    answered: bool,
    now_ms: u64,
    deadline_ms: u64,
    step: PollStep,
    failed: bool,
    attempt: u32,
    lookup: LookupStep,
)
    requires
        call_ensures(poll_step, (answered, now_ms, deadline_ms), step),
        call_ensures(lookup_step, (failed, attempt), lookup),
    ensures
        step is Ready <==> answered,
        step is GiveUp <==> !answered && now_ms >= deadline_ms,
        step is Wait <==> !answered && now_ms < deadline_ms,
        lookup is Retry <==> failed && attempt < 4,
{
}

/// What the status of an account lookup says: 200 holds the account, 404 means that there is none, 503
/// that the state is not there yet, and anything else that the lookup failed.
pub proof fn lookups_are_read_by_status(status: u16, reply: AccountReply)
    requires
        call_ensures(account_reply, (status,), reply),
    ensures
        reply is Found <==> status == 200,
        reply is Missing <==> status == 404,
        (reply matches AccountReply::Failed(AccountError::NotReady)) <==> status == 503,
{
}

/// A lookup that is over leaves its account's place to another; the check goes on exactly if the account
/// is as the chain left it.
pub proof fn answered_lookups_make_room(
    check: &mut FreshnessCheck,
    index: usize,
    lookup: Result<Option<AccountInfo>, AccountError>,
    defaults: ChainDefaults,
    verdict: Result<(), String>,
    other: usize,
)
    requires
        old(check)@.well_formed(),
        old(check)@.running.contains(index),
        other != index,
        call_ensures(FreshnessCheck::on_lookup, (check, index, &lookup, &defaults), verdict),
    ensures
        final(check).running@.len() == old(check).running@.len() - 1,
        !final(check).running@.contains(index),
        final(check).running@.contains(other) <==> old(check).running@.contains(other),
        final(check).started == old(check).started,
        lookup == Ok::<Option<AccountInfo>, AccountError>(None) ==> verdict is Ok,
        lookup is Err ==> verdict is Err,
        lookup matches Ok(Some(info)) ==> (info.nonce.base != 0 || info.balance != defaults.balance
            ==> verdict is Err),
{
    let before = old(check).running@;
    let after = final(check).running@;
    let at = before.index_of(index);
    assert(0 <= at < before.len() && before[at] == index) by {
        let found = choose|found: int| 0 <= found < before.len() && before[found] == index;
        assert(before[found] == index);
    }
    assert(after == before.remove(at));
    if after.contains(index) {
        let k = choose|k: int| 0 <= k < after.len() && after[k] == index;
        if k < at {
            assert(before[k] == before[at]);
        } else {
            assert(before[k + 1] == before[at]);
        }
    }
    if before.contains(other) {
        let k = choose|k: int| 0 <= k < before.len() && before[k] == other;
        if k < at {
            assert(after[k] == other);
        } else {
            assert(after[k - 1] == other);
        }
    }
    if after.contains(other) {
        let k = choose|k: int| 0 <= k < after.len() && after[k] == other;
        if k < at {
            assert(before[k] == other);
        } else {
            assert(before[k + 1] == other);
        }
    }
}

/// A slash at the end of the relayer's URL makes no difference to where its health and its accounts are
/// asked for.
pub proof fn relayer_urls_ignore_trailing_slash(
    relayer_url: &str,
    slashed: &str,
    key: &[u8],
    health: String,
    health_slashed: String,
    account: String,
    account_slashed: String,
)
    requires
        slashed@ == relayer_url@.push('/'),
        call_ensures(health_url, (relayer_url,), health),
        call_ensures(health_url, (slashed,), health_slashed),
        call_ensures(account_url, (relayer_url, key), account),
        call_ensures(account_url, (slashed, key), account_slashed),
    ensures
        health@ == health_slashed@,
        account@ == account_slashed@,
        relayer_url@.len() > 0 && relayer_url@.last() != '/' ==> {
            &&& health@ == relayer_url@ + "/health"@
            &&& account@ == relayer_url@ + "/account/"@ + crate::formatting::hex_text(key@)
        },
{
    assert(slashed@.drop_last() =~= relayer_url@);
}

} // verus!

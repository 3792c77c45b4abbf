//! Leader health: a leader is avoided after three failures in a row.

use vstd::hash_map::StringHashMap;
use vstd::prelude::*;

verus! {

/// Failures in a row after which a leader counts as unhealthy.
pub const UNHEALTHY_FAILURES: u32 = 3;

/// How a leader has answered lately.
#[derive(Debug, Clone, Copy, PartialEq, Eq, Structural)]
pub struct LeaderHealth {
    /// Failures since the last success.
    pub consecutive_failures: u32,
    /// Whether the leader is preferred for submissions.
    pub healthy: bool,
}

impl LeaderHealth {
    /// A leader nothing is known about.
    pub open spec fn fresh() -> LeaderHealth {
        LeaderHealth { consecutive_failures: 0, healthy: true }
    }

    /// The health after one more failure.
    pub open spec fn failed(self) -> LeaderHealth {
        let failures = if self.consecutive_failures == u32::MAX {
            u32::MAX
        } else {
            (self.consecutive_failures + 1) as u32
        };
        LeaderHealth {
            consecutive_failures: failures,
            healthy: self.healthy && failures < UNHEALTHY_FAILURES,
        }
    }

    /// The health after one more answer.
    pub open spec fn after(self, success: bool) -> LeaderHealth {
        if success {
            LeaderHealth::fresh()
        } else {
            self.failed()
        }
    }

    /// A leader nothing is known about counts as healthy.
    pub fn new() -> (health: Self)
        ensures
            health == LeaderHealth::fresh(),
    {
        LeaderHealth { consecutive_failures: 0, healthy: true }
    }

    /// A success clears the failures.
    pub fn record_success(&mut self)
        ensures
            *final(self) == LeaderHealth::fresh(),
    {
        self.consecutive_failures = 0;
        self.healthy = true;
    }

    /// A failure counts towards the limit.
    pub fn record_failure(&mut self)
        ensures
            *final(self) == old(self).failed(),
    {
        self.consecutive_failures = self.consecutive_failures.saturating_add(1);
        if self.consecutive_failures >= UNHEALTHY_FAILURES {
            self.healthy = false;
        }
    }
}

/// The health that a history of answers leads to.
pub open spec fn health_after(answers: Seq<bool>) -> LeaderHealth
    decreases answers.len(),
{
    if answers.len() == 0 {
        LeaderHealth::fresh()
    } else {
        health_after(answers.drop_last()).after(answers.last())
    }
}

/// The failures at the end of a history.
pub open spec fn trailing_failures(answers: Seq<bool>) -> nat
    decreases answers.len(),
{
    if answers.len() == 0 || answers.last() {
        0
    } else {
        trailing_failures(answers.drop_last()) + 1
    }
}

/// Whatever came before, a leader is healthy exactly while its last three answers were not all
/// failures.
pub proof fn health_follows_trailing_failures(answers: Seq<bool>)
    ensures
        health_after(answers).healthy <==> trailing_failures(answers) < UNHEALTHY_FAILURES,
        health_after(answers).consecutive_failures == if trailing_failures(answers) < u32::MAX {
            trailing_failures(answers)
        } else {
            u32::MAX as nat
        },
    decreases answers.len(),
{
    if answers.len() > 0 {
        health_follows_trailing_failures(answers.drop_last());
    }
}

/// Three failures in a row make a leader unhealthy, whatever came before. It stays so until it
/// answers, and one answer makes it healthy again for at least two failures more.
pub proof fn third_failure_makes_unhealthy(answers: Seq<bool>)
    ensures
        !health_after(answers.push(false).push(false).push(false)).healthy,
        !health_after(answers).healthy ==> !health_after(answers.push(false)).healthy,
        health_after(answers.push(true)).healthy,
        health_after(answers.push(true).push(false)).healthy,
        health_after(answers.push(true).push(false).push(false)).healthy,
        health_after(Seq::empty()).healthy,
{
    let one = answers.push(false);
    let two = one.push(false);
    let three = two.push(false);
    assert(one.drop_last() =~= answers);
    assert(two.drop_last() =~= one);
    assert(three.drop_last() =~= two);
    health_follows_trailing_failures(three);
    assert(trailing_failures(one) >= 1);
    assert(trailing_failures(two) >= 2);
    assert(trailing_failures(three) >= 3);
    let good = answers.push(true);
    let failed = good.push(false);
    let again = failed.push(false);
    assert(good.drop_last() =~= answers);
    assert(failed.drop_last() =~= good);
    assert(again.drop_last() =~= failed);
}

/// The health of every leader that has answered, by public key.
pub struct HealthMap {
    entries: StringHashMap<LeaderHealth>,
}

impl View for HealthMap {
    type V = Map<Seq<char>, LeaderHealth>;

    closed spec fn view(&self) -> Map<Seq<char>, LeaderHealth> {
        self.entries@
    }
}

/// What is known of a leader; a leader that never answered is fresh.
pub open spec fn known_health(
    health: Map<Seq<char>, LeaderHealth>,
    leader_id: Seq<char>,
) -> LeaderHealth {
    if health.dom().contains(leader_id) {
        health[leader_id]
    } else {
        LeaderHealth::fresh()
    }
}

impl HealthMap {
    /// Nothing is known of any leader yet.
    pub fn new() -> (health: Self)
        ensures
            health@ == Map::<Seq<char>, LeaderHealth>::empty(),
    {
        HealthMap { entries: StringHashMap::new() }
    }

    /// Returns what is known of a leader.
    pub fn get(&self, leader_id: &str) -> (health: Option<LeaderHealth>)
        ensures
            match health {
                Some(health) => self@.dom().contains(leader_id@) && health == self@[leader_id@],
                None => !self@.dom().contains(leader_id@),
            },
    {
        match self.entries.get(leader_id) {
            Some(health) => Some(*health),
            None => None,
        }
    }

    /// Sets what is known of a leader.
    pub fn insert(&mut self, leader_id: String, health: LeaderHealth)
        ensures
            final(self)@ == old(self)@.insert(leader_id@, health),
    {
        self.entries.insert(leader_id, health);
    }

    /// Notes that a leader answered.
    pub fn record_success(&mut self, leader_id: &str)
        ensures
            final(self)@ == old(self)@.insert(
                leader_id@,
                known_health(old(self)@, leader_id@).after(true),
            ),
    {
        let mut health = match self.get(leader_id) {
            Some(health) => health,
            None => LeaderHealth::new(),
        };
        health.record_success();
        self.insert(leader_id.to_string(), health);
    }

    /// Notes that a leader failed to answer.
    pub fn record_failure(&mut self, leader_id: &str)
        ensures
            final(self)@ == old(self)@.insert(
                leader_id@,
                known_health(old(self)@, leader_id@).after(false),
            ),
    {
        let mut health = match self.get(leader_id) {
            Some(health) => health,
            None => LeaderHealth::new(),
        };
        health.record_failure();
        self.insert(leader_id.to_string(), health);
    }
}

/// What three failures in a row and a success after them do: the leader is unhealthy after the
/// failures, whatever was known of it, and healthy after the success. Nothing that is known of another
/// leader changes.
pub proof fn failures_and_successes_are_noted(
    first: &mut HealthMap,
    second: &mut HealthMap,
    third: &mut HealthMap,
    fourth: &mut HealthMap,
    leader_id: &str,
    other: Seq<char>,
)
    requires
        call_ensures(HealthMap::record_failure, (first, leader_id), ()),
        call_ensures(HealthMap::record_failure, (second, leader_id), ()),
        call_ensures(HealthMap::record_failure, (third, leader_id), ()),
        call_ensures(HealthMap::record_success, (fourth, leader_id), ()),
        old(second)@ == final(first)@,
        old(third)@ == final(second)@,
        old(fourth)@ == final(third)@,
        other != leader_id@,
    ensures
        final(third)@.dom().contains(leader_id@),
        !final(third)@[leader_id@].healthy,
        final(fourth)@.dom().contains(leader_id@),
        final(fourth)@[leader_id@].healthy,
        final(fourth)@[leader_id@].consecutive_failures == 0,
        !old(first)@.dom().contains(leader_id@) ==> final(first)@[leader_id@].healthy
            && final(second)@[leader_id@].healthy,
        final(fourth)@.dom().contains(other) <==> old(first)@.dom().contains(other),
        old(first)@.dom().contains(other) ==> final(fourth)@[other] == old(first)@[other],
{
}

} // verus!

//! The relayer's configuration and what it is built into.

use crate::formatting::from_hex;
use crate::order::{bytes_eq, bytes_le, sort, text_le, Ranked};
use crate::relayer::batches::TrackedBatches;
use crate::relayer::health::{HealthMap, LeaderHealth};
use crate::relayer::targets::{is_healthy, leader_targets, Leader};
use crate::text::{lowercase_text, trim_trailing_slashes};
use vstd::prelude::*;

verus! {

/// Milliseconds a submission waits for an acknowledgement by default.
pub const DEFAULT_ACK_TIMEOUT_MS: u64 = 1_500;

/// Milliseconds between polls of the consensus round by default.
pub const DEFAULT_ROUND_POLL_MS: u64 = 200;

/// Largest batch in bytes by default (8 MiB).
pub const DEFAULT_MAX_BATCH_BYTES: usize = 8 * 1024 * 1024;

/// Batches remembered by default.
pub const DEFAULT_MAX_TRACKED_BATCHES: usize = 1_000_000;

/// Returns the default wait for an acknowledgement.
pub fn default_ack_timeout_ms() -> (millis: u64)
    ensures
        millis == DEFAULT_ACK_TIMEOUT_MS,
        millis == 1_500,
{
    DEFAULT_ACK_TIMEOUT_MS
}

/// Returns the default time between polls of the consensus round.
pub fn default_round_poll_ms() -> (millis: u64)
    ensures
        millis == DEFAULT_ROUND_POLL_MS,
        millis == 200,
{
    DEFAULT_ROUND_POLL_MS
}

/// Returns the default bound on a batch.
pub fn default_max_batch_bytes() -> (bytes: usize)
    ensures
        bytes == DEFAULT_MAX_BATCH_BYTES,
        bytes == 8_388_608,
{
    DEFAULT_MAX_BATCH_BYTES
}

/// Returns how many batches are remembered by default.
pub fn default_max_tracked_batches() -> (batches: usize)
    ensures
        batches == DEFAULT_MAX_TRACKED_BATCHES,
        batches == 1_000_000,
{
    DEFAULT_MAX_TRACKED_BATCHES
}

/// A leader as configured.
pub struct LeaderConfig {
    /// Hex-encoded public key.
    pub public_key: String,
    /// URL of the leader.
    pub url: String,
}

/// The relayer's configuration.
pub struct RelayerConfig {
    /// Leaders to forward a batch to; all of them when unset.
    pub leader_fanout: Option<usize>,
    /// Milliseconds a submission waits for an acknowledgement.
    pub ack_timeout_ms: u64,
    /// Milliseconds between polls of the consensus round.
    pub round_poll_ms: u64,
    /// Largest batch in bytes.
    pub max_batch_bytes: usize,
    /// Batches remembered.
    pub max_tracked_batches: usize,
    /// The leaders.
    pub leaders: Vec<LeaderConfig>,
}

/// Why a configuration is rejected.
pub enum StateError {
    /// A public key is not hexadecimal text.
    NotHex { public_key: String },
    /// Two leaders have the same public key.
    Duplicate { public_key: String },
}

/// What the relayer runs on.
pub struct RelayerState {
    pub leaders: Vec<Leader>,
    pub leader_fanout: usize,
    pub ack_timeout_ms: u64,
    pub round_poll_ms: u64,
    pub max_batch_bytes: usize,
    pub batches: TrackedBatches,
    pub leader_health: HealthMap,
}

impl Ranked for Leader {
    open spec fn at_most(&self, other: &Self) -> bool {
        if self.sort_key@ == other.sort_key@ {
            crate::order::text_at_most(self.public_key@, other.public_key@)
        } else {
            crate::order::bytes_at_most(self.sort_key@, other.sort_key@)
        }
    }

    proof fn total(left: &Self, right: &Self) {
        crate::order::lex_is_total(left.sort_key@, right.sort_key@, |byte: u8| byte as int);
        crate::order::lex_is_total(left.public_key@, right.public_key@, |ch: char| ch as int);
    }

    proof fn transitive(a: &Self, b: &Self, c: &Self) {
        let rank = |byte: u8| byte as int;
        if a.sort_key@ == b.sort_key@ && b.sort_key@ == c.sort_key@ {
            crate::order::lex_is_transitive(
                a.public_key@,
                b.public_key@,
                c.public_key@,
                |ch: char| ch as int,
            );
        } else if a.sort_key@ != b.sort_key@ && b.sort_key@ != c.sort_key@ {
            crate::order::lex_is_transitive(a.sort_key@, b.sort_key@, c.sort_key@, rank);
            if a.sort_key@ == c.sort_key@ {
                crate::order::lex_is_antisymmetric(a.sort_key@, b.sort_key@, rank);
            }
        }
    }

    fn le(&self, other: &Self) -> (ordered: bool) {
        if bytes_eq(&self.sort_key, &other.sort_key) {
            text_le(self.public_key.as_str(), other.public_key.as_str())
        } else {
            bytes_le(&self.sort_key, &other.sort_key)
        }
    }
}

/// Returns `url` without its trailing run of `/`.
pub fn trim_trailing_slash(url: String) -> (trimmed: String)
    ensures
        trimmed@ == crate::text::without_trailing_slashes(url@),
{
    trim_trailing_slashes(url.as_str())
}

/// Returns the bytes that a leader is ordered by.
pub fn leader_sort_key(public_key: &str) -> (key: Option<Vec<u8>>)
    ensures
        match key {
            Some(key) => crate::formatting::hex_bytes(public_key@) == Some(key@),
            None => crate::formatting::hex_bytes(public_key@) is None,
        },
{
    from_hex(public_key)
}

/// Whether `leader` is what a configured leader becomes: the key in lowercase and decoded, the URL
/// without a trailing slash.
pub open spec fn normalizes(config: LeaderConfig, leader: Leader) -> bool {
    &&& crate::formatting::hex_bytes(config.public_key@) == Some(leader.sort_key@)
    &&& leader.public_key@ == crate::text::lowercase(config.public_key@)
    &&& leader.url@ == crate::text::without_trailing_slashes(config.url@)
}

/// Returns the second of the first two neighbours with the same key.
pub fn reject_duplicate_leaders(leaders: &Vec<Leader>) -> (duplicate: Option<usize>)
    ensures
        match duplicate {
            Some(at) => first_repeat(leaders@, at as int),
            None => forall|i: int|
                0 < i < leaders@.len() ==> (#[trigger] leaders@[i]).sort_key@
                    != leaders@[i - 1].sort_key@,
        },
{
    let mut i: usize = 1;
    while i < leaders.len()
        invariant
            1 <= i,
            forall|j: int|
                0 < j < i && j < leaders@.len() ==> (#[trigger] leaders@[j]).sort_key@
                    != leaders@[j - 1].sort_key@,
        decreases leaders.len() - i,
    {
        if bytes_eq(&leaders[i - 1].sort_key, &leaders[i].sort_key) {
            return Some(i);
        }
        i += 1;
    }
    None
}

/// Whether the configured leaders at `index` and `twin` are two with the same key.
pub open spec fn is_twin(configs: Seq<LeaderConfig>, index: int, twin: int) -> bool {
    &&& 0 <= index < configs.len()
    &&& 0 <= twin < configs.len()
    &&& index != twin
    &&& crate::formatting::hex_bytes(configs[index].public_key@) == crate::formatting::hex_bytes(
        configs[twin].public_key@,
    )
}

/// Whether the key of the configured leader at `index` is configured twice.
pub open spec fn is_duplicate(configs: Seq<LeaderConfig>, index: int) -> bool {
    exists|twin: int| #[trigger] is_twin(configs, index, twin)
}

/// Whether some key is configured twice.
pub open spec fn has_duplicates(configs: Seq<LeaderConfig>) -> bool {
    exists|index: int| #[trigger] is_duplicate(configs, index)
}

/// Whether the leader at `index` has the lowest key that is configured twice.
pub open spec fn lowest_duplicate(configs: Seq<LeaderConfig>, index: int) -> bool {
    &&& is_duplicate(configs, index)
    &&& forall|other: int| #[trigger]
        is_duplicate(configs, other) ==> crate::order::bytes_at_most(
            crate::formatting::hex_bytes(configs[index].public_key@).unwrap(),
            crate::formatting::hex_bytes(configs[other].public_key@).unwrap(),
        )
}

/// Whether `at` is the first configured leader whose key is not hexadecimal text.
pub open spec fn first_not_hex(configs: Seq<LeaderConfig>, at: int) -> bool {
    &&& 0 <= at < configs.len()
    &&& crate::formatting::hex_bytes(configs[at].public_key@) is None
    &&& forall|i: int|
        0 <= i < at ==> crate::formatting::hex_bytes((#[trigger] configs[i]).public_key@) is Some
}

/// Whether every configured key is hexadecimal text.
pub open spec fn all_hex(configs: Seq<LeaderConfig>) -> bool {
    forall|i: int|
        0 <= i < configs.len() ==> crate::formatting::hex_bytes(
            (#[trigger] configs[i]).public_key@,
        ) is Some
}

/// Whether leaders stand in strictly ascending order of their keys.
pub open spec fn strictly_ascending(leaders: Seq<Leader>) -> bool {
    forall|i: int, j: int|
        0 <= i < j < leaders.len() ==> {
            &&& (#[trigger] leaders[i]).sort_key@ != (#[trigger] leaders[j]).sort_key@
            &&& crate::order::bytes_at_most(leaders[i].sort_key@, leaders[j].sort_key@)
        }
}

/// Whether a leader comes from one of the configured ones.
pub open spec fn is_configured(leader: Leader, configs: Seq<LeaderConfig>) -> bool {
    exists|j: int| 0 <= j < configs.len() && normalizes(#[trigger] configs[j], leader)
}

/// Whether a configured leader is among `leaders`.
pub open spec fn is_listed(config: LeaderConfig, leaders: Seq<Leader>) -> bool {
    exists|i: int| 0 <= i < leaders.len() && normalizes(config, #[trigger] leaders[i])
}

/// Whether `leaders` are the configured leaders.
pub open spec fn lists(leaders: Seq<Leader>, configs: Seq<LeaderConfig>) -> bool {
    &&& leaders.len() == configs.len()
    &&& forall|i: int| 0 <= i < leaders.len() ==> is_configured(#[trigger] leaders[i], configs)
    &&& forall|j: int| 0 <= j < configs.len() ==> is_listed(#[trigger] configs[j], leaders)
}

fn normalize_leaders(configs: &Vec<LeaderConfig>) -> (leaders: Result<Vec<Leader>, StateError>)
    ensures
        match leaders {
            Ok(leaders) => {
                &&& all_hex(configs@)
                &&& leaders@.len() == configs@.len()
                &&& forall|i: int|
                    0 <= i < configs@.len() ==> normalizes(configs@[i], #[trigger] leaders@[i])
            },
            Err(error) => error matches StateError::NotHex { public_key } && exists|at: int|
                #[trigger] first_not_hex(configs@, at) && public_key == configs@[at].public_key,
        },
{
    let mut leaders: Vec<Leader> = Vec::new();
    let mut i: usize = 0;
    while i < configs.len()
        invariant
            i <= configs.len(),
            leaders@.len() == i,
            forall|j: int| 0 <= j < i ==> normalizes(configs@[j], #[trigger] leaders@[j]),
            forall|j: int|
                0 <= j < i ==> crate::formatting::hex_bytes((#[trigger] configs@[j]).public_key@)
                    is Some,
        decreases configs.len() - i,
    {
        let config = &configs[i];
        let sort_key = match leader_sort_key(config.public_key.as_str()) {
            Some(key) => key,
            None => {
                proof {
                    assert(first_not_hex(configs@, i as int));
                }
                return Err(StateError::NotHex { public_key: config.public_key.clone() });
            },
        };
        leaders.push(
            Leader {
                public_key: lowercase_text(config.public_key.as_str()),
                sort_key,
                url: trim_trailing_slash(config.url.clone()),
            },
        );
        i += 1;
    }
    Ok(leaders)
}

/// Sorting only changes the order of the leaders.
proof fn sorting_keeps_leaders(sorted: Seq<Leader>, given: Seq<Leader>, configs: Seq<LeaderConfig>)
    requires
        sorted.to_multiset() == given.to_multiset(),
        sorted.len() == given.len(),
        given.len() == configs.len(),
        forall|i: int| 0 <= i < configs.len() ==> normalizes(configs[i], #[trigger] given[i]),
    ensures
        lists(sorted, configs),
{
    broadcast use vstd::seq_lib::group_to_multiset_ensures;

    assert forall|i: int| 0 <= i < sorted.len() implies is_configured(
        #[trigger] sorted[i],
        configs,
    ) by {
        assert(sorted.contains(sorted[i]));
        assert(given.to_multiset().count(sorted[i]) > 0);
        assert(given.contains(sorted[i]));
        let j = choose|j: int| 0 <= j < given.len() && given[j] == sorted[i];
        assert(normalizes(configs[j], given[j]));
        assert(normalizes(configs[j], sorted[i]));
    }
    assert forall|j: int| 0 <= j < configs.len() implies is_listed(
        #[trigger] configs[j],
        sorted,
    ) by {
        assert(normalizes(configs[j], given[j]));
        assert(given.contains(given[j]));
        assert(sorted.to_multiset().count(given[j]) > 0);
        assert(sorted.contains(given[j]));
        let i = choose|i: int| 0 <= i < sorted.len() && sorted[i] == given[j];
        assert(normalizes(configs[j], sorted[i]));
    }
}

/// Without equal neighbours, sorted leaders ascend strictly.
proof fn distinct_neighbours_ascend(leaders: Seq<Leader>)
    requires
        crate::order::ascending(leaders),
        forall|i: int|
            0 < i < leaders.len() ==> (#[trigger] leaders[i]).sort_key@ != leaders[i - 1].sort_key@,
    ensures
        strictly_ascending(leaders),
{
    let rank = |byte: u8| byte as int;
    assert forall|i: int, j: int| 0 <= i < j < leaders.len() implies {
        &&& (#[trigger] leaders[i]).sort_key@ != (#[trigger] leaders[j]).sort_key@
        &&& crate::order::bytes_at_most(leaders[i].sort_key@, leaders[j].sort_key@)
    } by {
        let near = leaders[i + 1];
        assert(near.sort_key@ != leaders[i].sort_key@);
        assert(leaders[i].at_most(&near));
        assert(leaders[i].at_most(&leaders[j]));
        if i + 1 < j && leaders[i].sort_key@ == leaders[j].sort_key@ {
            assert(near.at_most(&leaders[j]));
            crate::order::lex_is_antisymmetric(leaders[i].sort_key@, near.sort_key@, rank);
        }
    }
}

/// If the leaders before `count` have no equal neighbours, no key below the next one's is configured
/// twice.
proof fn lower_keys_are_unique(
    sorted: Seq<Leader>,
    given: Seq<Leader>,
    configs: Seq<LeaderConfig>,
    count: int,
    other: int,
)
    requires
        crate::order::ascending(sorted),
        sorted.to_multiset() == given.to_multiset(),
        given.len() == configs.len(),
        forall|i: int| 0 <= i < configs.len() ==> normalizes(configs[i], #[trigger] given[i]),
        0 <= count <= sorted.len(),
        forall|i: int|
            0 < i < count ==> (#[trigger] sorted[i]).sort_key@ != sorted[i - 1].sort_key@,
        is_duplicate(configs, other),
    ensures
        count < sorted.len(),
        crate::order::bytes_at_most(sorted[count].sort_key@, given[other].sort_key@),
{
    let twin = choose|twin: int| is_twin(configs, other, twin);
    assert(normalizes(configs[other], given[other]) && normalizes(configs[twin], given[twin]));
    let places = if other < twin {
        crate::order::both_are_placed(given, sorted, other, twin)
    } else {
        crate::order::both_are_placed(given, sorted, twin, other)
    };
    let (low, high) = if places.0 < places.1 {
        places
    } else {
        (places.1, places.0)
    };
    assert(sorted[low].sort_key@ == sorted[high].sort_key@);
    if high < count {
        let front = sorted.take(count);
        assert forall|i: int, j: int| 0 <= i < j < front.len() implies #[trigger] front[i].at_most(
            &#[trigger] front[j],
        ) by {
            assert(sorted[i].at_most(&sorted[j]));
        }
        assert forall|i: int| 0 < i < front.len() implies (#[trigger] front[i]).sort_key@
            != front[i - 1].sort_key@ by {
            assert(sorted[i].sort_key@ != sorted[i - 1].sort_key@);
        }
        distinct_neighbours_ascend(front);
        assert(front[low].sort_key@ != front[high].sort_key@);
    } else if high > count {
        assert(sorted[count].at_most(&sorted[high]));
        if sorted[count].sort_key@ == sorted[high].sort_key@ {
            crate::order::lex_is_total(
                sorted[count].sort_key@,
                sorted[high].sort_key@,
                |byte: u8| byte as int,
            );
        }
    } else {
        crate::order::lex_is_total(
            sorted[count].sort_key@,
            sorted[high].sort_key@,
            |byte: u8| byte as int,
        );
    }
}

/// Two equal neighbours come from two configured leaders.
proof fn equal_neighbours_are_duplicates(
    sorted: Seq<Leader>,
    given: Seq<Leader>,
    configs: Seq<LeaderConfig>,
    at: int,
) -> (index: int)
    requires
        0 < at < sorted.len(),
        sorted[at - 1].sort_key@ == sorted[at].sort_key@,
        sorted.to_multiset() == given.to_multiset(),
        given.len() == configs.len(),
        forall|i: int| 0 <= i < configs.len() ==> normalizes(configs[i], #[trigger] given[i]),
    ensures
        is_duplicate(configs, index),
        normalizes(configs[index], sorted[at]),
{
    let (twin, index) = crate::order::both_are_placed(sorted, given, at - 1, at);
    assert(given[twin].sort_key@ == given[index].sort_key@);
    assert(normalizes(configs[twin], given[twin]));
    assert(normalizes(configs[index], given[index]));
    assert(is_twin(configs, index, twin));
    index
}

/// Whether `leaders` are what the configured leaders become, in key order.
pub open spec fn in_key_order(configs: Seq<LeaderConfig>, leaders: Seq<Leader>) -> bool {
    exists|given: Seq<Leader>|
        {
            &&& #[trigger] crate::order::sorts(given, leaders)
            &&& given.len() == configs.len()
            &&& forall|i: int| 0 <= i < configs.len() ==> normalizes(configs[i], #[trigger] given[i])
        }
}

/// Whether `at` is the first leader with the key of the one before it.
pub open spec fn first_repeat(leaders: Seq<Leader>, at: int) -> bool {
    &&& 0 < at < leaders.len()
    &&& leaders[at].sort_key@ == leaders[at - 1].sort_key@
    &&& forall|i: int|
        0 < i < at ==> (#[trigger] leaders[i]).sort_key@ != leaders[i - 1].sort_key@
}

/// Whether `key` is the public key of a leader.
pub open spec fn leads(leaders: Seq<Leader>, key: Seq<char>) -> bool {
    exists|i: int| 0 <= i < leaders.len() && (#[trigger] leaders[i]).public_key@ == key
}

/// One more leader leads under its own key, and under no other.
proof fn one_more_leads(leaders: Seq<Leader>, count: int)
    requires
        0 <= count < leaders.len(),
    ensures
        forall|key: Seq<char>| #[trigger]
            leads(leaders.take(count + 1), key) <==> leads(leaders.take(count), key) || key
                == leaders[count].public_key@,
{
    let before = leaders.take(count);
    let after = leaders.take(count + 1);
    assert forall|key: Seq<char>| #[trigger] leads(after, key) <==> leads(before, key) || key
        == leaders[count].public_key@ by {
        if leads(before, key) {
            let i = choose|i: int| 0 <= i < before.len() && (#[trigger] before[i]).public_key@ == key;
            assert(after[i].public_key@ == key);
        }
        if leads(after, key) {
            let i = choose|i: int| 0 <= i < after.len() && (#[trigger] after[i]).public_key@ == key;
            if i < count {
                assert(before[i].public_key@ == key);
            }
        }
        assert(after[count] == leaders[count]);
    }
}

/// Builds what the relayer runs on: leaders in strict key order, all healthy, and a fanout of at
/// least one.
pub fn build_state(config: RelayerConfig) -> (state: Result<RelayerState, StateError>)
    ensures
        match state {
            Ok(state) => {
                &&& all_hex(config.leaders@)
                &&& !has_duplicates(config.leaders@)
                &&& strictly_ascending(state.leaders@)
                &&& lists(state.leaders@, config.leaders@)
                &&& in_key_order(config.leaders@, state.leaders@)
                &&& state.leader_fanout == (match config.leader_fanout {
                    Some(fanout) => if fanout < 1 && config.leaders@.len() > 0 {
                        1
                    } else {
                        fanout as int
                    },
                    None => config.leaders@.len() as int,
                })
                &&& state.ack_timeout_ms == config.ack_timeout_ms
                &&& state.round_poll_ms == config.round_poll_ms
                &&& state.max_batch_bytes == config.max_batch_bytes
                &&& state.batches@.well_formed()
                &&& state.batches@.order.len() == 0
                &&& state.batches@.max_records == if config.max_tracked_batches < 1 {
                    1
                } else {
                    config.max_tracked_batches as nat
                }
                &&& forall|key: Seq<char>| #[trigger]
                    state.leader_health@.dom().contains(key) <==> leads(state.leaders@, key)
                &&& forall|key: Seq<char>|
                    #![trigger state.leader_health@.dom().contains(key)]
                    state.leader_health@.dom().contains(key) ==> state.leader_health@[key]
                        == LeaderHealth::fresh()
            },
            Err(StateError::NotHex { public_key }) => exists|at: int|
                #[trigger] first_not_hex(config.leaders@, at) && public_key
                    == config.leaders@[at].public_key,
            Err(StateError::Duplicate { public_key }) => {
                &&& all_hex(config.leaders@)
                &&& exists|index: int|
                    #[trigger] lowest_duplicate(config.leaders@, index) && public_key@
                        == crate::text::lowercase(config.leaders@[index].public_key@)
                &&& exists|leaders: Seq<Leader>, at: int|
                    {
                        &&& #[trigger] in_key_order(config.leaders@, leaders)
                        &&& #[trigger] first_repeat(leaders, at)
                        &&& public_key@ == leaders[at].public_key@
                    }
            },
        },
{
    let given = match normalize_leaders(&config.leaders) {
        Ok(leaders) => leaders,
        Err(error) => return Err(error),
    };
    let ghost unsorted = given@;
    let leaders = sort(given);
    proof {
        sorting_keeps_leaders(leaders@, unsorted, config.leaders@);
        assert(crate::order::sorts(unsorted, leaders@));
        assert(in_key_order(config.leaders@, leaders@));
    }
    if let Some(at) = reject_duplicate_leaders(&leaders) {
        proof {
            let index = equal_neighbours_are_duplicates(
                leaders@,
                unsorted,
                config.leaders@,
                at as int,
            );
            assert forall|other: int| #[trigger]
                is_duplicate(config.leaders@, other) implies crate::order::bytes_at_most(
                crate::formatting::hex_bytes(config.leaders@[index].public_key@).unwrap(),
                crate::formatting::hex_bytes(config.leaders@[other].public_key@).unwrap(),
            ) by {
                lower_keys_are_unique(leaders@, unsorted, config.leaders@, at as int, other);
                assert(normalizes(config.leaders@[other], unsorted[other]));
            }
            assert(lowest_duplicate(config.leaders@, index));
        }
        return Err(StateError::Duplicate { public_key: leaders[at].public_key.clone() });
    }
    proof {
        distinct_neighbours_ascend(leaders@);
        if has_duplicates(config.leaders@) {
            let other = choose|other: int| #[trigger] is_duplicate(config.leaders@, other);
            lower_keys_are_unique(
                leaders@,
                unsorted,
                config.leaders@,
                leaders@.len() as int,
                other,
            );
        }
    }
    let count: usize = leaders.len();
    let configured: usize = match config.leader_fanout {
        Some(fanout) => fanout,
        None => count,
    };
    let leader_fanout: usize = if configured < 1 && count > 0 { 1 } else { configured };
    let mut leader_health = HealthMap::new();
    let mut i: usize = 0;
    while i < leaders.len()
        invariant
            i <= leaders@.len(),
            forall|key: Seq<char>|
                #![trigger leader_health@.dom().contains(key)]
                leader_health@.dom().contains(key) ==> leader_health@[key]
                    == LeaderHealth::fresh(),
            forall|key: Seq<char>| #[trigger]
                leader_health@.dom().contains(key) <==> leads(leaders@.take(i as int), key),
        decreases leaders.len() - i,
    {
        leader_health.insert(leaders[i].public_key.clone(), LeaderHealth::new());
        proof {
            one_more_leads(leaders@, i as int);
        }
        i += 1;
    }
    proof {
        assert(leaders@.take(i as int) =~= leaders@);
    }
    Ok(
        RelayerState {
            leaders,
            leader_fanout,
            ack_timeout_ms: config.ack_timeout_ms,
            round_poll_ms: config.round_poll_ms,
            max_batch_bytes: config.max_batch_bytes,
            batches: TrackedBatches::new(config.max_tracked_batches),
            leader_health,
        },
    )
}

/// A relayer that was built and knows a leader never runs out of targets: with the fanout that
/// [`build_state`] picks, [`leader_targets`] names somebody, and everybody where no fanout was
/// configured.
pub proof fn built_relayer_finds_targets(
    config: RelayerConfig,
    state: RelayerState,
    health: HealthMap,
    round: u64,
    chosen: Vec<Leader>,
)
    requires
        call_ensures(build_state, (config,), Ok::<RelayerState, StateError>(state)),
        call_ensures(
            leader_targets,
            (&state.leaders, &health, state.leader_fanout, round),
            chosen,
        ),
        config.leaders@.len() > 0,
    ensures
        chosen@.len() > 0,
        config.leader_fanout is None ==> chosen@.len() == config.leaders@.len(),
        config.leader_fanout matches Some(fanout) ==> (0 < fanout <= config.leaders@.len()
            ==> chosen@.len() == fanout),
        config.leader_fanout == Some(0usize) ==> chosen@.len() == 1,
{
    let views = crate::relayer::targets::leader_views(state.leaders@);
    assert(views.len() == config.leaders@.len());
    crate::relayer::targets::fanout_is_met(
        views,
        health@,
        state.leader_fanout as int,
        round as int,
    );
    assert(crate::relayer::targets::leader_views(chosen@).len() == chosen@.len());
}

/// Every leader of a relayer that was built has the key of a configured leader and that leader's
/// URL, which never ends in a slash.
pub proof fn built_leaders_are_configured(
    config: RelayerConfig,
    state: RelayerState,
    index: int,
) -> (place: int)
    requires
        call_ensures(build_state, (config,), Ok::<RelayerState, StateError>(state)),
        0 <= index < state.leaders@.len(),
    ensures
        state.leaders@.len() == config.leaders@.len(),
        0 <= place < config.leaders@.len(),
        ({
            let leader = state.leaders@[index];
            let given = config.leaders@[place];
            &&& crate::formatting::hex_bytes(given.public_key@) == Some(leader.sort_key@)
            &&& leader.public_key@ == crate::text::lowercase(given.public_key@)
            &&& leader.url@.is_prefix_of(given.url@)
            &&& leader.url@.len() > 0 ==> leader.url@.last() != '/'
            &&& forall|i: int|
                leader.url@.len() <= i < given.url@.len() ==> #[trigger] given.url@[i] == '/'
        }),
        forall|other: int|
            0 <= other < state.leaders@.len() && other != index ==> (
            #[trigger] state.leaders@[other]).sort_key@ != state.leaders@[index].sort_key@,
{
    let leader = state.leaders@[index];
    assert(is_configured(leader, config.leaders@));
    let place = choose|place: int|
        0 <= place < config.leaders@.len() && normalizes(#[trigger] config.leaders@[place], leader);
    crate::text::trimming_is_idempotent(config.leaders@[place].url@);
    crate::text::trimming_removes_only_slashes(config.leaders@[place].url@);
    place
}

/// A relayer that was built starts with everything it knows of healthy and nothing to remember, keeps
/// its limits, and has room for one batch at least.
pub proof fn built_relayer_starts_fresh(
    config: RelayerConfig,
    state: RelayerState,
    index: int,
    verdict: bool,
)
    requires
        call_ensures(build_state, (config,), Ok::<RelayerState, StateError>(state)),
        0 <= index < state.leaders@.len(),
        call_ensures(is_healthy, (&state.leaders@[index], &state.leader_health), verdict),
    ensures
        verdict,
        state.leader_health@.dom().contains(state.leaders@[index].public_key@),
        state.batches@.order.len() == 0,
        state.batches@.max_records >= 1,
        config.max_tracked_batches >= 1 ==> state.batches@.max_records
            == config.max_tracked_batches,
        state.ack_timeout_ms == config.ack_timeout_ms,
        state.round_poll_ms == config.round_poll_ms,
        state.max_batch_bytes == config.max_batch_bytes,
{
    assert(leads(state.leaders@, state.leaders@[index].public_key@));
}

/// A relayer is built exactly if every key is hexadecimal text and no two keys are the same.
pub proof fn distinct_leaders_are_built(
    config: RelayerConfig,
    state: Result<RelayerState, StateError>,
    left: int,
    right: int,
)
    requires
        call_ensures(build_state, (config,), state),
    ensures
        state is Ok ==> forall|i: int|
            0 <= i < config.leaders@.len() ==> crate::formatting::hex_bytes(
                (#[trigger] config.leaders@[i]).public_key@,
            ) is Some,
        0 <= left < right < config.leaders@.len() && crate::formatting::hex_bytes(
            config.leaders@[left].public_key@,
        ) == crate::formatting::hex_bytes(config.leaders@[right].public_key@) ==> state is Err,
        (state matches Err(StateError::Duplicate { .. })) ==> exists|i: int, j: int|
            #[trigger] is_twin(config.leaders@, i, j),
{
    if 0 <= left < right < config.leaders@.len() && crate::formatting::hex_bytes(
        config.leaders@[left].public_key@,
    ) == crate::formatting::hex_bytes(config.leaders@[right].public_key@) {
        assert(is_twin(config.leaders@, left, right));
        assert(is_duplicate(config.leaders@, left));
    }
}

} // verus!

//! Consensus-following relayer: follows the view, submits to the next leaders, and retries until a
//! batch is settled or its budget is spent.

use crate::formatting::from_hex;
use crate::order::{sort, Ranked};
use crate::relayer::batches::contains_text;
use crate::relayer::status::BatchStatus;
use crate::relayer::submit::{
    max_request_bytes, STATUS_ACCEPTED, STATUS_BAD_REQUEST, STATUS_NOT_FOUND, STATUS_OK,
    STATUS_PAYLOAD_TOO_LARGE, STATUS_SERVICE_UNAVAILABLE,
};
use crate::relayer::targets::{leader_by_id, Leader};
use crate::text::{chars_of, lowercase_text, trim_trailing_slashes};
use crate::validator::config::RelayerLeaderConfig;
use vstd::hash_set::StringHashSet;
use vstd::prelude::*;

verus! {

/// Bytes a batch has in front of it for its length, at least.
pub const MIN_BATCH_LENGTH_PREFIX_BYTES: usize = 1;

/// The highest view seen.
#[derive(Debug, Clone, Copy, PartialEq, Eq, Structural)]
pub struct Observer {
    /// The view.
    pub current_view: u64,
}

impl Observer {
    /// No view has been seen.
    pub fn new() -> (observer: Self)
        ensures
            observer.current_view == 0,
    {
        Observer { current_view: 0 }
    }

    /// Takes a reported view in. Returns whether the view advanced; a view that is not higher
    /// changes nothing.
    pub fn report(&mut self, view: u64) -> (advanced: bool)
        ensures
            advanced == (view > old(self).current_view),
            final(self).current_view == if advanced {
                view
            } else {
                old(self).current_view
            },
    {
        if view <= self.current_view {
            return false;
        }
        self.current_view = view;
        true
    }
}

/// The leaders whose views come next: those of the two views after the observed one, once each.
pub open spec fn upcoming(leaders: Seq<crate::relayer::targets::LeaderView>, view: int) -> Seq<
    crate::relayer::targets::LeaderView,
> {
    if leaders.len() == 0 {
        Seq::empty()
    } else if leaders.len() == 1 {
        seq![leaders[0]]
    } else {
        seq![
            leaders[(view + 1) % leaders.len() as int],
            leaders[(view + 2) % leaders.len() as int],
        ]
    }
}

/// Returns the leaders whose views come next.
pub fn next_two_leaders(leaders: &Vec<Leader>, observed_view: u64) -> (next: Vec<Leader>)
    requires
        leaders@.len() > 0 ==> observed_view + 2 <= u64::MAX,
    ensures
        crate::relayer::targets::leader_views(next@) == upcoming(
            crate::relayer::targets::leader_views(leaders@),
            observed_view as int,
        ),
{
    let mut next: Vec<Leader> = Vec::new();
    if leaders.len() == 0 {
        proof {
            assert(crate::relayer::targets::leader_views(next@) =~= Seq::<
                crate::relayer::targets::LeaderView,
            >::empty());
        }
        return next;
    }
    let count: u64 = leaders.len() as u64;
    let first: usize = ((observed_view + 1) % count) as usize;
    let second: usize = ((observed_view + 2) % count) as usize;
    proof {
        neighbours_differ(observed_view + 1, count as int);
    }
    next.push(leaders[first].copy());
    if first != second {
        next.push(leaders[second].copy());
    }
    proof {
        assert(crate::relayer::targets::leader_views(next@) =~= upcoming(
            crate::relayer::targets::leader_views(leaders@),
            observed_view as int,
        ));
    }
    next
}

/// Two neighbours agree modulo a count only if the count is one.
proof fn neighbours_differ(value: int, count: int)
    requires
        value >= 0,
        count > 0,
    ensures
        (value % count == (value + 1) % count) <==> count == 1,
        count == 1 ==> value % count == 0,
{
    if count > 1 {
        vstd::arithmetic::div_mod::lemma_fundamental_div_mod(value, count);
        vstd::arithmetic::div_mod::lemma_mod_bound(value, count);
        let rest = value % count;
        assert(count * (value / count) == (value / count) * count) by (nonlinear_arith);
        if rest + 1 < count {
            vstd::arithmetic::div_mod::lemma_fundamental_div_mod_converse(
                value + 1,
                count,
                value / count,
                rest + 1,
            );
        } else {
            assert(value + 1 == count * (value / count + 1)) by (nonlinear_arith)
                requires
                    value == count * (value / count) + rest,
                    rest + 1 == count,
            ;
            vstd::arithmetic::div_mod::lemma_fundamental_div_mod_converse(
                value + 1,
                count,
                value / count + 1,
                0,
            );
        }
    }
}

/// The leaders whose views come next are never the same.
pub proof fn upcoming_leaders_are_distinct(
    leaders: Seq<crate::relayer::targets::LeaderView>,
    view: int,
)
    requires
        leaders.no_duplicates(),
        view >= 0,
    ensures
        upcoming(leaders, view).no_duplicates(),
        forall|leader: crate::relayer::targets::LeaderView| #[trigger]
            upcoming(leaders, view).contains(leader) ==> leaders.contains(leader),
{
    let next = upcoming(leaders, view);
    if leaders.len() > 1 {
        let count = leaders.len() as int;
        neighbours_differ(view + 1, count);
        vstd::arithmetic::div_mod::lemma_mod_bound(view + 1, count);
        vstd::arithmetic::div_mod::lemma_mod_bound(view + 2, count);
    }
    assert forall|leader: crate::relayer::targets::LeaderView| #[trigger] next.contains(
        leader,
    ) implies leaders.contains(leader) by {
        let at = choose|at: int| 0 <= at < next.len() && next[at] == leader;
        if leaders.len() == 1 {
            assert(leaders[0] == leader);
        } else if at == 0 {
            assert(leaders[(view + 1) % leaders.len() as int] == leader);
        } else {
            assert(leaders[(view + 2) % leaders.len() as int] == leader);
        }
    }
}

proof fn congruent_index(value: int, index: int, count: int)
    requires
        value >= 0,
        0 <= index < count,
        (value - index) % count == 0,
    ensures
        value % count == index,
{
    vstd::arithmetic::div_mod::lemma_fundamental_div_mod(value - index, count);
    let turns = (value - index) / count;
    assert(count * turns == turns * count) by (nonlinear_arith);
    vstd::arithmetic::div_mod::lemma_fundamental_div_mod_converse(value, count, turns, index);
}

/// With several leaders two come back. The first is the one whose index is congruent, modulo the
/// number of leaders, to one more than the view, and the second the one congruent to two more. A
/// single leader comes back alone, and without leaders nobody does.
pub proof fn upcoming_leaders_by_index(
    leaders: Seq<crate::relayer::targets::LeaderView>,
    view: int,
    index: int,
)
    requires
        view >= 0,
        0 <= index < leaders.len(),
    ensures
        leaders.len() > 1 ==> {
            &&& upcoming(leaders, view).len() == 2
            &&& (view + 1 - index) % leaders.len() as int == 0 ==> upcoming(leaders, view)[0]
                == leaders[index]
            &&& (view + 2 - index) % leaders.len() as int == 0 ==> upcoming(leaders, view)[1]
                == leaders[index]
        },
        leaders.len() == 1 ==> upcoming(leaders, view) == leaders,
        upcoming(Seq::empty(), view).len() == 0,
{
    let count = leaders.len() as int;
    if (view + 1 - index) % count == 0 {
        congruent_index(view + 1, index, count);
    }
    if (view + 2 - index) % count == 0 {
        congruent_index(view + 2, index, count);
    }
    if count == 1 {
        assert(upcoming(leaders, view) =~= leaders);
    }
}

/// The leaders advance with the view: the second leader of one view is the first of the next, and
/// as many views later as there are leaders the same leaders come back.
pub proof fn upcoming_leaders_advance(
    leaders: Seq<crate::relayer::targets::LeaderView>,
    view: int,
)
    requires
        leaders.len() > 1,
        view >= 0,
    ensures
        upcoming(leaders, view + 1)[0] == upcoming(leaders, view)[1],
        upcoming(leaders, view + leaders.len()) == upcoming(leaders, view),
{
    let count = leaders.len() as int;
    vstd::arithmetic::div_mod::lemma_mod_add_multiples_vanish(view + 1, count);
    vstd::arithmetic::div_mod::lemma_mod_add_multiples_vanish(view + 2, count);
    assert(upcoming(leaders, view + count) =~= upcoming(leaders, view));
}

/// Over as many consecutive views as there are leaders, every leader comes first in one view, and
/// in no other.
pub proof fn every_leader_comes_first_once(
    leaders: Seq<crate::relayer::targets::LeaderView>,
    start: int,
    index: int,
) -> (turn: int)
    requires
        leaders.len() > 1,
        leaders.no_duplicates(),
        start >= 0,
        0 <= index < leaders.len(),
    ensures
        start <= turn < start + leaders.len(),
        upcoming(leaders, turn)[0] == leaders[index],
        forall|view: int|
            start <= view < start + leaders.len() && #[trigger] upcoming(leaders, view)[0]
                == leaders[index] ==> view == turn,
{
    let count = leaders.len() as int;
    let wait = (index - start - 1) % count;
    let turn = start + wait;
    vstd::arithmetic::div_mod::lemma_mod_bound(index - start - 1, count);
    vstd::arithmetic::div_mod::lemma_fundamental_div_mod(index - start - 1, count);
    let turns = (index - start - 1) / count;
    assert(turn + 1 == (-turns) * count + index) by (nonlinear_arith)
        requires
            index - start - 1 == count * turns + wait,
            turn == start + wait,
    ;
    vstd::arithmetic::div_mod::lemma_fundamental_div_mod_converse(turn + 1, count, -turns, index);
    assert forall|view: int|
        start <= view < start + count && #[trigger] upcoming(leaders, view)[0]
            == leaders[index] implies view == turn by {
        vstd::arithmetic::div_mod::lemma_mod_bound(view + 1, count);
        assert((view + 1) % count == index);
        vstd::arithmetic::div_mod::lemma_fundamental_div_mod(view + 1, count);
        let other = (view + 1) / count;
        assert(view - turn == count * (other + turns)) by (nonlinear_arith)
            requires
                view + 1 == count * other + index,
                turn + 1 == (-turns) * count + index,
        ;
        let gap = other + turns;
        assert(gap == 0) by (nonlinear_arith)
            requires
                -count < count * gap < count,
                count > 0,
        ;
    }
    turn
}

/// What two calls of [`next_two_leaders`], one view apart, answer: first comes the leader whose
/// index is congruent to one more than the view, second the leader behind it, and the second leader
/// of one view is the first of the next.
pub proof fn next_leaders_follow_the_view(
    leaders: Vec<Leader>,
    view: u64,
    now: Vec<Leader>,
    later: Vec<Leader>,
    index: int,
)
    requires
        leaders@.len() > 1,
        view + 3 <= u64::MAX,
        call_ensures(next_two_leaders, (&leaders, view), now),
        call_ensures(next_two_leaders, (&leaders, (view + 1) as u64), later),
        0 <= index < leaders@.len(),
        (view + 1 - index) % leaders@.len() as int == 0,
    ensures
        now@.len() == 2,
        later@.len() == 2,
        now@[0]@ == leaders@[index]@,
        now@[1]@ == leaders@[if index + 1 < leaders@.len() {
            index + 1
        } else {
            0
        }]@,
        later@[0]@ == now@[1]@,
{
    let views = crate::relayer::targets::leader_views(leaders@);
    let count = leaders@.len() as int;
    upcoming_leaders_by_index(views, view as int, index);
    upcoming_leaders_by_index(views, view + 1, index);
    upcoming_leaders_advance(views, view as int);
    let following = if index + 1 < count {
        index + 1
    } else {
        0
    };
    if following == 0 {
        vstd::arithmetic::div_mod::lemma_mod_add_multiples_vanish(view + 1 - index, count);
    }
    upcoming_leaders_by_index(views, view as int, following);
    assert(crate::relayer::targets::leader_views(now@)[0] == now@[0]@);
    assert(crate::relayer::targets::leader_views(now@)[1] == now@[1]@);
    assert(crate::relayer::targets::leader_views(later@)[0] == later@[0]@);
    assert(views[index] == leaders@[index]@);
    assert(views[following] == leaders@[following]@);
}

/// Whether `leader` is what a configured leader becomes.
pub open spec fn normalizes(config: RelayerLeaderConfig, leader: Leader) -> bool {
    let public_key = crate::text::lowercase(config.public_key@);
    &&& leader.public_key@ == public_key
    &&& crate::formatting::hex_bytes(public_key) == Some(leader.sort_key@)
    &&& leader.url@ == crate::text::without_trailing_slashes(config.url@)
}

/// Whether `leaders` are what the configured leaders become, in key order; those with the same key
/// stand in the order in which they are configured.
pub open spec fn in_key_order(configs: Seq<RelayerLeaderConfig>, leaders: Seq<Leader>) -> bool {
    exists|given: Seq<Leader>|
        {
            &&& #[trigger] crate::order::sorts(given, leaders)
            &&& given.len() == configs.len()
            &&& forall|i: int| 0 <= i < configs.len() ==> normalizes(configs[i], #[trigger] given[i])
        }
}

/// Whether `at` is the first configured leader whose key is not hexadecimal text.
pub open spec fn first_not_hex(configs: Seq<RelayerLeaderConfig>, at: int) -> bool {
    &&& 0 <= at < configs.len()
    &&& crate::formatting::hex_bytes(crate::text::lowercase(configs[at].public_key@)) is None
    &&& forall|i: int|
        0 <= i < at ==> crate::formatting::hex_bytes(
            crate::text::lowercase((#[trigger] configs[i]).public_key@),
        ) is Some
}

/// Puts the configured leaders in key order; those with the same key keep the order in which they are
/// configured. The error is the key that is not hexadecimal text.
pub fn normalize_leaders(configs: &Vec<RelayerLeaderConfig>) -> (leaders: Result<
    Vec<Leader>,
    String,
>)
    ensures
        match leaders {
            Ok(leaders) => in_key_order(configs@, leaders@),
            Err(public_key) => exists|at: int|
                #[trigger] first_not_hex(configs@, at) && public_key@ == crate::text::lowercase(
                    configs@[at].public_key@,
                ),
        },
{
    let mut leaders: Vec<Leader> = Vec::new();
    let mut i: usize = 0;
    while i < configs.len()
        invariant
            i <= configs.len(),
            leaders@.len() == i,
            forall|j: int| 0 <= j < i ==> normalizes(configs@[j], #[trigger] leaders@[j]),
            forall|j: int|
                0 <= j < i ==> crate::formatting::hex_bytes(
                    crate::text::lowercase((#[trigger] configs@[j]).public_key@),
                ) is Some,
        decreases configs.len() - i,
    {
        let config = &configs[i];
        let public_key = lowercase_text(config.public_key.as_str());
        let sort_key = match from_hex(public_key.as_str()) {
            Some(key) => key,
            None => {
                proof {
                    assert(first_not_hex(configs@, i as int));
                }
                return Err(public_key);
            },
        };
        leaders.push(
            Leader { public_key, sort_key, url: trim_trailing_slashes(config.url.as_str()) },
        );
        i += 1;
    }
    let ghost given = leaders@;
    let sorted = sort(leaders);
    proof {
        assert(crate::order::sorts(given, sorted@));
        assert(in_key_order(configs@, sorted@));
    }
    Ok(sorted)
}

/// The number that decimal digits stand for.
pub open spec fn digits_value(digits: Seq<char>) -> nat
    decreases digits.len(),
{
    if digits.len() == 0 {
        0
    } else {
        digits_value(digits.drop_last()) * 10 + (digits.last() as nat - 48) as nat
    }
}

/// Whether a character is a decimal digit.
pub open spec fn is_digit(ch: char) -> bool {
    '0' <= ch && ch <= '9'
}

/// The count that digits stand for, if there are any, there is nothing else, and it fits a machine
/// word.
pub open spec fn digits_count(digits: Seq<char>) -> Option<usize> {
    if digits.len() > 0 && (forall|i: int| 0 <= i < digits.len() ==> is_digit(#[trigger] digits[i]))
        && digits_value(digits) <= usize::MAX {
        Some(digits_value(digits) as usize)
    } else {
        None
    }
}

/// The count that a text stands for: digits, after an optional plus sign.
pub open spec fn count_in(text: Seq<char>) -> Option<usize> {
    if text.len() > 0 && text[0] == '+' {
        digits_count(text.skip(1))
    } else {
        digits_count(text)
    }
}

proof fn digits_grow(digits: Seq<char>, count: int)
    requires
        0 <= count <= digits.len(),
    ensures
        digits_value(digits) >= digits_value(digits.take(count)),
    decreases digits.len() - count,
{
    if count == digits.len() {
        assert(digits.take(count) =~= digits);
    } else {
        digits_grow(digits, count + 1);
        assert(digits.take(count + 1).drop_last() =~= digits.take(count));
    }
}

/// Reads a count from its digits.
fn parse_digits(digits: &Vec<char>) -> (count: Option<usize>)
    ensures
        count == digits_count(digits@),
{
    if digits.len() == 0 {
        return None;
    }
    let mut value: usize = 0;
    let mut i: usize = 0;
    proof {
        assert(digits@.take(0) =~= Seq::<char>::empty());
    }
    while i < digits.len()
        invariant
            i <= digits.len(),
            value == digits_value(digits@.take(i as int)),
            forall|j: int| 0 <= j < i ==> is_digit(#[trigger] digits@[j]),
        decreases digits.len() - i,
    {
        let ch = digits[i];
        if !('0' <= ch && ch <= '9') {
            proof {
                assert(!is_digit(digits@[i as int]));
            }
            return None;
        }
        proof {
            assert(digits@.take(i + 1).drop_last() =~= digits@.take(i as int));
            assert(digits@.take(i + 1).last() == ch);
            digits_grow(digits@, i + 1);
        }
        let digit: usize = (ch as u32 - 48) as usize;
        let shifted: usize = match value.checked_mul(10) {
            Some(shifted) => shifted,
            None => return None,
        };
        value = match shifted.checked_add(digit) {
            Some(value) => value,
            None => return None,
        };
        i += 1;
    }
    proof {
        assert(digits@.take(i as int) =~= digits@);
    }
    Some(value)
}

/// Reads a count.
pub fn parse_count(text: &str) -> (count: Option<usize>)
    ensures
        count == count_in(text@),
{
    let mut digits = chars_of(text);
    if digits.len() > 0 && digits[0] == '+' {
        digits.remove(0);
        proof {
            assert(digits@ =~= text@.skip(1));
        }
    }
    parse_digits(&digits)
}

/// Returns the leader that a request asks for, in lowercase.
pub fn requested_target_leader(header: Option<&str>) -> (target: Option<String>)
    ensures
        match (header, target) {
            (Some(header), Some(target)) => target@ == crate::text::lowercase(header@),
            (None, None) => true,
            _ => false,
        },
{
    match header {
        Some(header) => Some(lowercase_text(header)),
        None => None,
    }
}

/// Returns the fanout that a request asks for, if it is a count.
pub fn requested_leader_fanout(header: Option<&str>) -> (fanout: Option<usize>)
    ensures
        fanout == match header {
            Some(header) => count_in(header@),
            None => None,
        },
{
    match header {
        Some(header) => parse_count(header),
        None => None,
    }
}

/// How a submission is handled.
pub enum SubmitRoute {
    /// It is refused.
    Refuse(u16),
    /// It goes to one leader, undecoded.
    Pinned(Leader),
    /// It is decoded and follows consensus.
    Follow,
}

/// Whether a leader has the given public key.
pub open spec fn knows_leader(leaders: Seq<Leader>, public_key: Seq<char>) -> bool {
    exists|i: int| 0 <= i < leaders.len() && (#[trigger] leaders[i]).public_key@ == public_key
}

/// Whether the leader at `index` is the first with the given public key.
pub open spec fn first_with_key(leaders: Seq<Leader>, public_key: Seq<char>, index: int) -> bool {
    &&& 0 <= index < leaders.len()
    &&& leaders[index].public_key@ == public_key
    &&& forall|i: int| 0 <= i < index ==> (#[trigger] leaders[i]).public_key@ != public_key
}

/// Decides how a submission is handled. Only a submission that names its leader is pinned, and then
/// it may ask for no other fanout than one.
pub fn route_submission(
    leaders: &Vec<Leader>,
    target_header: Option<&str>,
    fanout_header: Option<&str>,
    body_bytes: usize,
    max_batch_bytes: usize,
) -> (route: SubmitRoute)
    ensures
        match target_header {
            None => route is Follow,
            Some(header) => {
                let target = crate::text::lowercase(header@);
                let fanout = match fanout_header {
                    Some(header) => count_in(header@),
                    None => None,
                };
                if body_bytes > crate::relayer::submit::request_limit(max_batch_bytes) {
                    route == SubmitRoute::Refuse(STATUS_PAYLOAD_TOO_LARGE)
                } else if fanout is Some && fanout != Some(1usize) {
                    route == SubmitRoute::Refuse(STATUS_BAD_REQUEST)
                } else if !knows_leader(leaders@, target) {
                    route == SubmitRoute::Refuse(STATUS_BAD_REQUEST)
                } else {
                    route matches SubmitRoute::Pinned(leader) && exists|i: int|
                        #[trigger] first_with_key(leaders@, target, i) && leaders@[i]@ == leader@
                }
            },
        },
{
    let target = match requested_target_leader(target_header) {
        Some(target) => target,
        None => return SubmitRoute::Follow,
    };
    if body_bytes > max_request_bytes(max_batch_bytes) {
        return SubmitRoute::Refuse(STATUS_PAYLOAD_TOO_LARGE);
    }
    if let Some(fanout) = requested_leader_fanout(fanout_header) {
        if fanout != 1 {
            return SubmitRoute::Refuse(STATUS_BAD_REQUEST);
        }
    }
    match leader_by_id(leaders, &target) {
        Some(leader) => {
            proof {
                let at = choose|i: int|
                    {
                        &&& 0 <= i < leaders@.len()
                        &&& *leader == #[trigger] leaders@[i]
                        &&& leaders@[i].public_key@ == target@
                        &&& forall|j: int|
                            0 <= j < i ==> (#[trigger] leaders@[j]).public_key@ != target@
                    };
                assert(first_with_key(leaders@, target@, at));
                assert(leaders@[at]@ == leader@);
            }
            SubmitRoute::Pinned(leader.copy())
        },
        None => SubmitRoute::Refuse(STATUS_BAD_REQUEST),
    }
}

/// The most transactions a request of this size can hold.
pub open spec fn transaction_limit(body_bytes: usize, min_transaction_bytes: usize) -> int {
    let payload = if body_bytes < MIN_BATCH_LENGTH_PREFIX_BYTES {
        0
    } else {
        body_bytes - MIN_BATCH_LENGTH_PREFIX_BYTES
    };
    payload / min_transaction_bytes as int
}

/// Returns the most transactions a request of this size can hold, if it can hold any.
pub fn max_transaction_count(body_bytes: usize, min_transaction_bytes: usize) -> (count: Option<
    usize,
>)
    requires
        min_transaction_bytes > 0,
    ensures
        match count {
            Some(count) => count == transaction_limit(body_bytes, min_transaction_bytes) && count
                > 0,
            None => transaction_limit(body_bytes, min_transaction_bytes) == 0,
        },
{
    let payload: usize = body_bytes.saturating_sub(MIN_BATCH_LENGTH_PREFIX_BYTES);
    let count: usize = payload / min_transaction_bytes;
    if count > 0 {
        Some(count)
    } else {
        None
    }
}

/// Returns how many transactions a request is decoded for at most, or the status that it is refused
/// with.
pub fn batch_limit(
    body_bytes: usize,
    max_batch_bytes: usize,
    min_transaction_bytes: usize,
) -> (limit: Result<usize, u16>)
    requires
        min_transaction_bytes > 0,
    ensures
        match limit {
            Ok(limit) => {
                &&& body_bytes <= crate::relayer::submit::request_limit(max_batch_bytes)
                &&& limit == transaction_limit(body_bytes, min_transaction_bytes)
                &&& limit > 0
            },
            Err(status) => {
                ||| body_bytes > crate::relayer::submit::request_limit(max_batch_bytes) && status
                    == STATUS_PAYLOAD_TOO_LARGE
                ||| body_bytes <= crate::relayer::submit::request_limit(max_batch_bytes)
                    && transaction_limit(body_bytes, min_transaction_bytes) == 0 && status
                    == STATUS_BAD_REQUEST
            },
        },
{
    if body_bytes > max_request_bytes(max_batch_bytes) {
        return Err(STATUS_PAYLOAD_TOO_LARGE);
    }
    match max_transaction_count(body_bytes, min_transaction_bytes) {
        Some(count) => Ok(count),
        None => Err(STATUS_BAD_REQUEST),
    }
}

/// The sum of sizes.
pub open spec fn total_size(sizes: Seq<usize>) -> nat
    decreases sizes.len(),
{
    if sizes.len() == 0 {
        0
    } else {
        total_size(sizes.drop_last()) + sizes.last() as nat
    }
}

proof fn total_size_grows(sizes: Seq<usize>, count: int)
    requires
        0 <= count <= sizes.len(),
    ensures
        total_size(sizes) >= total_size(sizes.take(count)),
    decreases sizes.len() - count,
{
    if count == sizes.len() {
        assert(sizes.take(count) =~= sizes);
    } else {
        total_size_grows(sizes, count + 1);
        assert(sizes.take(count + 1).drop_last() =~= sizes.take(count));
    }
}

/// Checks the encoded sizes of a decoded batch, which is refused if it did not decode or its
/// transactions are too large together.
pub fn admit_batch(sizes: Option<&Vec<usize>>, max_batch_bytes: usize) -> (verdict: Result<(), u16>)
    ensures
        match verdict {
            Ok(()) => sizes matches Some(sizes) && total_size(sizes@) <= max_batch_bytes,
            Err(status) => match sizes {
                None => status == STATUS_BAD_REQUEST,
                Some(sizes) => total_size(sizes@) > max_batch_bytes && status
                    == STATUS_PAYLOAD_TOO_LARGE,
            },
        },
{
    let list = match sizes {
        Some(list) => list,
        None => return Err(STATUS_BAD_REQUEST),
    };
    let mut total: usize = 0;
    let mut i: usize = 0;
    proof {
        assert(list@.take(0) =~= Seq::<usize>::empty());
    }
    while i < list.len()
        invariant
            sizes == Some(list),
            i <= list.len(),
            total == total_size(list@.take(i as int)),
            total <= max_batch_bytes,
        decreases list.len() - i,
    {
        proof {
            assert(list@.take(i + 1).drop_last() =~= list@.take(i as int));
            assert(list@.take(i + 1).last() == list@[i as int]);
            total_size_grows(list@, i + 1);
        }
        if list[i] > max_batch_bytes - total {
            return Err(STATUS_PAYLOAD_TOO_LARGE);
        }
        total = total + list[i];
        i += 1;
    }
    proof {
        assert(list@.take(i as int) =~= list@);
    }
    Ok(())
}

/// How forwarding a batch to one leader ended.
#[derive(Debug, Clone, Copy, PartialEq, Eq, Structural)]
pub enum ForwardResult {
    /// The leader took transactions in.
    Accepted,
    /// The leader refused the batch for good.
    Deterministic(u16),
    /// The leader could not be brought to answer.
    Transient,
}

/// Reads a leader's answer: `status` is `None` if the request failed, and `digests` counts those of
/// a readable acknowledgement.
pub fn read_forward_answer(status: Option<u16>, digests: Option<usize>) -> (result: ForwardResult)
    ensures
        result == match status {
            Some(status) => if status == STATUS_ACCEPTED {
                match digests {
                    Some(count) => if count > 0 {
                        ForwardResult::Accepted
                    } else {
                        ForwardResult::Transient
                    },
                    None => ForwardResult::Transient,
                }
            } else if status == STATUS_BAD_REQUEST || status == STATUS_PAYLOAD_TOO_LARGE {
                ForwardResult::Deterministic(status)
            } else {
                ForwardResult::Transient
            },
            None => ForwardResult::Transient,
        },
{
    match status {
        Some(status) => {
            if status == STATUS_ACCEPTED {
                match digests {
                    Some(count) => if count > 0 {
                        ForwardResult::Accepted
                    } else {
                        ForwardResult::Transient
                    },
                    None => ForwardResult::Transient,
                }
            } else if status == STATUS_BAD_REQUEST || status == STATUS_PAYLOAD_TOO_LARGE {
                ForwardResult::Deterministic(status)
            } else {
                ForwardResult::Transient
            }
        },
        None => ForwardResult::Transient,
    }
}

/// What forwarding to several leaders amounts to.
#[derive(Debug, Clone, Copy, PartialEq, Eq, Structural)]
pub struct ForwardSummary {
    /// Whether some leader took transactions in.
    pub accepted: bool,
    /// The last refusal for good.
    pub deterministic: Option<u16>,
}

/// The summary of a list of results.
pub open spec fn summary_of(results: Seq<ForwardResult>) -> ForwardSummary
    decreases results.len(),
{
    if results.len() == 0 {
        ForwardSummary { accepted: false, deterministic: None }
    } else {
        let front = summary_of(results.drop_last());
        match results.last() {
            ForwardResult::Accepted => ForwardSummary { accepted: true, ..front },
            ForwardResult::Deterministic(status) => ForwardSummary {
                deterministic: Some(status),
                ..front
            },
            ForwardResult::Transient => front,
        }
    }
}

/// Sums up the results of forwarding to several leaders.
pub fn summarize_forwards(results: &Vec<ForwardResult>) -> (summary: ForwardSummary)
    ensures
        summary == summary_of(results@),
{
    let mut accepted = false;
    let mut deterministic: Option<u16> = None;
    let mut i: usize = 0;
    proof {
        assert(results@.take(0) =~= Seq::<ForwardResult>::empty());
    }
    while i < results.len()
        invariant
            i <= results.len(),
            summary_of(results@.take(i as int)) == (ForwardSummary { accepted, deterministic }),
        decreases results.len() - i,
    {
        proof {
            assert(results@.take(i + 1).drop_last() =~= results@.take(i as int));
        }
        match results[i] {
            ForwardResult::Accepted => {
                accepted = true;
            },
            ForwardResult::Deterministic(status) => {
                deterministic = Some(status);
            },
            ForwardResult::Transient => {},
        }
        i += 1;
    }
    proof {
        assert(results@.take(i as int) =~= results@);
    }
    ForwardSummary { accepted, deterministic }
}

/// The outcome of a batch as reported to its submitter.
#[derive(Debug, Clone, PartialEq, Eq)]
pub enum TxStatus {
    /// Every transaction was included.
    Finalized { height: u64 },
    /// Some transactions were included and some filtered.
    PartiallyFinalized { height: u64, included: Vec<String>, filtered: Vec<String> },
    /// No transaction was included.
    Dropped,
}

/// What a [`TxStatus`] says.
pub enum TxStatusView {
    Finalized { height: u64 },
    PartiallyFinalized { height: u64, included: Seq<Seq<char>>, filtered: Seq<Seq<char>> },
    Dropped,
}

impl View for TxStatus {
    type V = TxStatusView;

    open spec fn view(&self) -> TxStatusView {
        match *self {
            TxStatus::Finalized { height } => TxStatusView::Finalized { height },
            TxStatus::PartiallyFinalized { height, included, filtered } =>
                TxStatusView::PartiallyFinalized {
                    height,
                    included: crate::text::texts(included@),
                    filtered: crate::text::texts(filtered@),
                },
            TxStatus::Dropped => TxStatusView::Dropped,
        }
    }
}

/// Reads a leader's report of a batch as the outcome, once there is one.
pub fn tx_status_from_batch(status: BatchStatus) -> (outcome: Option<TxStatus>)
    ensures
        outcome == match status {
            BatchStatus::Accepted { .. } => None::<TxStatus>,
            BatchStatus::Finalized { height, .. } => Some(TxStatus::Finalized { height }),
            BatchStatus::PartiallyFinalized { height, included, filtered } => Some(
                TxStatus::PartiallyFinalized { height, included, filtered },
            ),
            BatchStatus::Dropped { .. } => Some(TxStatus::Dropped),
        },
{
    match status {
        BatchStatus::Accepted { .. } => None,
        BatchStatus::Finalized { height, .. } => Some(TxStatus::Finalized { height }),
        BatchStatus::PartiallyFinalized { height, included, filtered } => Some(
            TxStatus::PartiallyFinalized { height, included, filtered },
        ),
        BatchStatus::Dropped { .. } => Some(TxStatus::Dropped),
    }
}

/// The digests that are in `included` (or, for `wanted` false, those that are not), in order.
pub open spec fn with_inclusion(
    digests: Seq<Seq<char>>,
    included: Set<Seq<char>>,
    wanted: bool,
) -> Seq<Seq<char>>
    decreases digests.len(),
{
    if digests.len() == 0 {
        Seq::empty()
    } else {
        let front = with_inclusion(digests.drop_last(), included, wanted);
        if included.contains(digests.last()) == wanted {
            front.push(digests.last())
        } else {
            front
        }
    }
}

/// Every digest is on exactly one side of the split.
pub proof fn inclusion_splits_digests(
    digests: Seq<Seq<char>>,
    included: Set<Seq<char>>,
    digest: Seq<char>,
)
    ensures
        digests.contains(digest) <==> with_inclusion(digests, included, true).contains(digest)
            || with_inclusion(digests, included, false).contains(digest),
        with_inclusion(digests, included, true).contains(digest) ==> included.contains(digest),
        with_inclusion(digests, included, false).contains(digest) ==> !included.contains(digest),
        with_inclusion(digests, included, true).len() + with_inclusion(
            digests,
            included,
            false,
        ).len() == digests.len(),
    decreases digests.len(),
{
    if digests.len() > 0 {
        let front = digests.drop_last();
        inclusion_splits_digests(front, included, digest);
        assert(digests =~= front.push(digests.last()));
        broadcast use vstd::seq_lib::group_seq_properties;

    }
}

fn split_by_inclusion(digests: &Vec<String>, included: &StringHashSet, wanted: bool) -> (side: Vec<
    String,
>)
    ensures
        crate::text::texts(side@) == with_inclusion(
            crate::text::texts(digests@),
            included@,
            wanted,
        ),
{
    let ghost all = crate::text::texts(digests@);
    let mut side: Vec<String> = Vec::new();
    let mut i: usize = 0;
    proof {
        assert(all.take(0) =~= Seq::<Seq<char>>::empty());
        assert(crate::text::texts(side@) =~= Seq::<Seq<char>>::empty());
    }
    while i < digests.len()
        invariant
            i <= digests.len(),
            all == crate::text::texts(digests@),
            crate::text::texts(side@) == with_inclusion(all.take(i as int), included@, wanted),
        decreases digests.len() - i,
    {
        let ghost before = crate::text::texts(side@);
        proof {
            assert(all.take(i + 1).drop_last() =~= all.take(i as int));
            assert(all.take(i + 1).last() == digests@[i as int]@);
        }
        if included.contains(digests[i].as_str()) == wanted {
            side.push(digests[i].clone());
            proof {
                assert(crate::text::texts(side@) =~= before.push(digests@[i as int]@));
            }
        }
        i += 1;
    }
    proof {
        assert(all.take(i as int) =~= all);
    }
    side
}

/// The outcome known when the budget is spent.
pub open spec fn best_effort(
    digests: Seq<Seq<char>>,
    included: Set<Seq<char>>,
    height: u64,
) -> TxStatusView {
    let filtered = with_inclusion(digests, included, false);
    if included.is_empty() {
        TxStatusView::Dropped
    } else if filtered.len() == 0 {
        TxStatusView::Finalized { height }
    } else {
        TxStatusView::PartiallyFinalized {
            height,
            included: with_inclusion(digests, included, true),
            filtered,
        }
    }
}

/// The digests that are known to be included.
pub struct IncludedSet {
    digests: StringHashSet,
}

impl View for IncludedSet {
    type V = Set<Seq<char>>;

    closed spec fn view(&self) -> Set<Seq<char>> {
        self.digests@
    }
}

impl IncludedSet {
    /// Nothing is known to be included.
    pub fn new() -> (included: Self)
        ensures
            included@ == Set::<Seq<char>>::empty(),
    {
        IncludedSet { digests: StringHashSet::new() }
    }

    /// Adds a digest.
    pub fn insert(&mut self, digest: String)
        ensures
            final(self)@ == old(self)@.insert(digest@),
    {
        self.digests.insert(digest);
    }

    /// Adds a list of digests.
    pub fn extend(&mut self, digests: &Vec<String>)
        ensures
            final(self)@ == old(self)@.union(crate::text::texts(digests@).to_set()),
    {
        let ghost before = self@;
        let ghost all = crate::text::texts(digests@);
        let mut i: usize = 0;
        proof {
            assert(self@ =~= before.union(all.take(0).to_set()));
        }
        while i < digests.len()
            invariant
                i <= digests.len(),
                all == crate::text::texts(digests@),
                self@ == before.union(all.take(i as int).to_set()),
            decreases digests.len() - i,
        {
            self.digests.insert(digests[i].clone());
            proof {
                assert(all.take(i + 1) =~= all.take(i as int).push(digests@[i as int]@));
                all.take(i as int).lemma_push_to_set_commute(digests@[i as int]@);
                assert(self@ =~= before.union(all.take(i + 1).to_set()));
            }
            i += 1;
        }
        proof {
            assert(all.take(i as int) =~= all);
        }
    }
}

/// Returns the outcome known when the budget is spent.
pub fn best_effort_status(digests: &Vec<String>, included: &IncludedSet, height: u64) -> (status:
    TxStatus)
    ensures
        status@ == best_effort(crate::text::texts(digests@), included@, height),
{
    if included.digests.is_empty() {
        return TxStatus::Dropped;
    }
    let filtered = split_by_inclusion(digests, &included.digests, false);
    if filtered.len() == 0 {
        return TxStatus::Finalized { height };
    }
    let kept = split_by_inclusion(digests, &included.digests, true);
    TxStatus::PartiallyFinalized { height, included: kept, filtered }
}

/// What a retried submission does next.
pub enum RetryStep {
    /// Answer with the outcome.
    Answer(TxStatus),
    /// Refuse with a status.
    Refuse(u16),
    /// Wait for the view to advance or the poll interval to pass.
    Wait,
}

/// A submission that follows consensus until it is settled or its view budget is spent.
pub struct RetryingBatch {
    /// Digests of the batch, in order.
    pub digests: Vec<String>,
    /// Digests that are not included yet, each once.
    pub pending: Vec<String>,
    /// Digests that are included.
    pub included: IncludedSet,
    /// Height of the last inclusion.
    pub height: u64,
    /// Whether any leader has taken transactions in.
    pub accepted_any: bool,
    /// Which encoded batches were sent to which leaders.
    pub attempts: Vec<(String, Leader)>,
    /// The view that the last forward followed.
    pub view: u64,
    /// Views the submission has been retried for.
    pub retry: u64,
    /// Views the submission may be retried for.
    pub max_retry_views: u64,
}

/// What a list of attempts says.
pub open spec fn attempt_views(attempts: Seq<(String, Leader)>) -> Seq<
    (Seq<char>, crate::relayer::targets::LeaderView),
> {
    Seq::new(attempts.len(), |i: int| (attempts[i].0@, attempts[i].1@))
}

/// The positions of the first `count` digests that are among `pending`, in order.
pub open spec fn positions_among(
    digests: Seq<Seq<char>>,
    pending: Seq<Seq<char>>,
    count: nat,
) -> Seq<usize>
    decreases count,
{
    if count == 0 {
        Seq::empty()
    } else {
        let earlier = positions_among(digests, pending, (count - 1) as nat);
        if pending.contains(digests[count - 1]) {
            earlier.push((count - 1) as usize)
        } else {
            earlier
        }
    }
}

/// The positions that are sent again are exactly those of the pending digests, each once and in order.
pub proof fn pending_positions_are_exact(
    digests: Seq<Seq<char>>,
    pending: Seq<Seq<char>>,
    count: nat,
)
    requires
        count <= digests.len(),
        count <= usize::MAX,
    ensures
        forall|at: usize| #[trigger]
            positions_among(digests, pending, count).contains(at) == (at < count
                && pending.contains(digests[at as int])),
        forall|i: int, j: int|
            0 <= i < j < positions_among(digests, pending, count).len()
                ==> #[trigger] positions_among(digests, pending, count)[i]
                < #[trigger] positions_among(digests, pending, count)[j],
    decreases count,
{
    let all = positions_among(digests, pending, count);
    if count > 0 {
        let last = (count - 1) as usize;
        let earlier = positions_among(digests, pending, (count - 1) as nat);
        pending_positions_are_exact(digests, pending, (count - 1) as nat);
        assert forall|i: int| 0 <= i < earlier.len() implies #[trigger] earlier[i] < last by {
            assert(earlier.contains(earlier[i]));
        }
        assert forall|at: usize| #[trigger] all.contains(at) == (at < count && pending.contains(
            digests[at as int],
        )) by {
            if pending.contains(digests[last as int]) {
                assert(all == earlier.push(last));
                assert(all[earlier.len() as int] == last);
                if earlier.contains(at) {
                    let i = choose|i: int| 0 <= i < earlier.len() && earlier[i] == at;
                    assert(all[i] == at);
                }
                if all.contains(at) && at != last {
                    let i = choose|i: int| 0 <= i < all.len() && all[i] == at;
                    assert(earlier[i] == at);
                }
            }
        }
    }
}

/// The leaders of the attempts that sent a given encoded batch, in order.
pub open spec fn leaders_sent(
    attempts: Seq<(Seq<char>, crate::relayer::targets::LeaderView)>,
    batch_id: Seq<char>,
) -> Seq<crate::relayer::targets::LeaderView>
    decreases attempts.len(),
{
    if attempts.len() == 0 {
        Seq::empty()
    } else {
        let front = leaders_sent(attempts.drop_last(), batch_id);
        if attempts.last().0 == batch_id {
            front.push(attempts.last().1)
        } else {
            front
        }
    }
}

impl RetryingBatch {
    /// Whether the submission stands within its budget, and waits only for digests of its batch.
    pub open spec fn well_formed(self) -> bool {
        &&& self.retry <= self.max_retry_views
        &&& forall|digest: Seq<char>| #[trigger]
            crate::text::texts(self.pending@).contains(digest) ==> crate::text::texts(
                self.digests@,
            ).contains(digest)
        &&& forall|digest: Seq<char>| #[trigger]
            crate::text::texts(self.digests@).contains(digest) ==> crate::text::texts(
                self.pending@,
            ).contains(digest) || self.included@.contains(digest)
    }

    /// Starts a submission at the observed view.
    pub fn new(digests: Vec<String>, view: u64, max_retry_views: u64) -> (batch: Self)
        ensures
            batch.well_formed(),
            batch.digests == digests,
            crate::text::texts(batch.pending@) == crate::relayer::status::joined_unique(
                Seq::empty(),
                crate::text::texts(digests@),
            ),
            batch.included@ == Set::<Seq<char>>::empty(),
            batch.height == 0,
            !batch.accepted_any,
            batch.attempts@.len() == 0,
            batch.view == view,
            batch.retry == 0,
            batch.max_retry_views == max_retry_views,
    {
        let mut pending: Vec<String> = Vec::new();
        let mut known = StringHashSet::new();
        proof {
            assert(crate::text::texts(pending@) =~= Seq::<Seq<char>>::empty());
            assert(Seq::<Seq<char>>::empty().to_set() =~= Set::<Seq<char>>::empty());
        }
        crate::relayer::status::push_unique(&digests, &mut pending, &mut known);
        proof {
            crate::relayer::status::joining_is_union(
                Seq::empty(),
                crate::text::texts(digests@),
            );
        }
        RetryingBatch {
            digests,
            pending,
            included: IncludedSet::new(),
            height: 0,
            accepted_any: false,
            attempts: Vec::new(),
            view,
            retry: 0,
            max_retry_views,
        }
    }

    /// Returns whether a transaction of the batch still has to be sent.
    pub fn is_pending(&self, digest: &String) -> (pending: bool)
        ensures
            pending == crate::text::texts(self.pending@).contains(digest@),
    {
        contains_text(&self.pending, digest)
    }

    /// Returns the positions of the transactions that still have to be sent, in order.
    pub fn pending_positions(&self) -> (positions: Vec<usize>)
        ensures
            positions@ == positions_among(
                crate::text::texts(self.digests@),
                crate::text::texts(self.pending@),
                self.digests@.len(),
            ),
    {
        let mut positions: Vec<usize> = Vec::new();
        let mut i: usize = 0;
        while i < self.digests.len()
            invariant
                i <= self.digests@.len(),
                positions@ == positions_among(
                    crate::text::texts(self.digests@),
                    crate::text::texts(self.pending@),
                    i as nat,
                ),
            decreases self.digests@.len() - i,
        {
            if self.is_pending(&self.digests[i]) {
                positions.push(i);
            }
            i += 1;
        }
        positions
    }

    /// Notes that the pending transactions, encoded as `batch_id`, go to the leaders whose views
    /// come next, and returns every leader that this encoding goes to.
    pub fn plan_forward(&mut self, leaders: &Vec<Leader>, batch_id: String) -> (targets: Vec<Leader>)
        requires
            old(self).well_formed(),
            leaders@.len() > 0 ==> old(self).view + 2 <= u64::MAX,
        ensures
            final(self).well_formed(),
            *final(self) == (RetryingBatch { attempts: final(self).attempts, ..*old(self) }),
            attempt_views(final(self).attempts@) == attempt_views(old(self).attempts@)
                + sent_to(
                upcoming(
                    crate::relayer::targets::leader_views(leaders@),
                    old(self).view as int,
                ),
                batch_id@,
            ),
            crate::relayer::targets::leader_views(targets@) == leaders_sent(
                attempt_views(final(self).attempts@),
                batch_id@,
            ),
    {
        let next = next_two_leaders(leaders, self.view);
        let ghost upcoming_views = crate::relayer::targets::leader_views(next@);
        let ghost before = attempt_views(self.attempts@);
        let ghost addition = sent_to(upcoming_views, batch_id@);
        let ghost start = *self;
        let mut i: usize = 0;
        proof {
            assert(attempt_views(self.attempts@) =~= before + addition.take(0));
        }
        while i < next.len()
            invariant
                i <= next.len(),
                upcoming_views == crate::relayer::targets::leader_views(next@),
                addition == sent_to(upcoming_views, batch_id@),
                attempt_views(self.attempts@) == before + addition.take(i as int),
                *self == (RetryingBatch { attempts: self.attempts, ..start }),
            decreases next.len() - i,
        {
            let ghost so_far = attempt_views(self.attempts@);
            self.attempts.push((batch_id.clone(), next[i].copy()));
            proof {
                assert(attempt_views(self.attempts@) =~= so_far.push(addition[i as int]));
                assert(before + addition.take(i + 1) =~= (before + addition.take(i as int)).push(
                    addition[i as int],
                ));
            }
            i += 1;
        }
        proof {
            assert(addition.take(i as int) =~= addition);
        }
        let ghost all = attempt_views(self.attempts@);
        let mut targets: Vec<Leader> = Vec::new();
        let mut k: usize = 0;
        proof {
            assert(all.take(0) =~= Seq::<(Seq<char>, crate::relayer::targets::LeaderView)>::empty());
            assert(crate::relayer::targets::leader_views(targets@) =~= Seq::<
                crate::relayer::targets::LeaderView,
            >::empty());
        }
        while k < self.attempts.len()
            invariant
                k <= self.attempts.len(),
                all == attempt_views(self.attempts@),
                crate::relayer::targets::leader_views(targets@) == leaders_sent(
                    all.take(k as int),
                    batch_id@,
                ),
            decreases self.attempts.len() - k,
        {
            let ghost so_far = crate::relayer::targets::leader_views(targets@);
            proof {
                assert(all.take(k + 1).drop_last() =~= all.take(k as int));
                assert(all.take(k + 1).last() == all[k as int]);
            }
            if self.attempts[k].0 == batch_id {
                targets.push(self.attempts[k].1.copy());
                proof {
                    assert(crate::relayer::targets::leader_views(targets@) =~= so_far.push(
                        all[k as int].1,
                    ));
                }
            }
            k += 1;
        }
        proof {
            assert(all.take(k as int) =~= all);
        }
        targets
    }

    /// Takes in how forwarding went. A refusal for good ends the submission.
    pub fn on_forwarded(&mut self, summary: ForwardSummary) -> (refusal: Option<u16>)
        requires
            old(self).well_formed(),
        ensures
            final(self).well_formed(),
            refusal == summary.deterministic,
            refusal is Some ==> *final(self) == *old(self),
            refusal is None ==> *final(self) == (RetryingBatch {
                accepted_any: old(self).accepted_any || summary.accepted,
                ..*old(self)
            }),
    {
        if let Some(status) = summary.deterministic {
            return Some(status);
        }
        self.accepted_any = self.accepted_any || summary.accepted;
        None
    }

    /// Takes in a leader's report of one of the attempts.
    pub fn on_status(&mut self, status: &BatchStatus)
        requires
            old(self).well_formed(),
        ensures
            final(self).well_formed(),
            match *status {
                BatchStatus::Finalized { height, included }
                | BatchStatus::PartiallyFinalized { height, included, .. } => {
                    &&& final(self).included@ == old(self).included@.union(
                        crate::text::texts(included@).to_set(),
                    )
                    &&& final(self).height == if height > old(self).height {
                        height
                    } else {
                        old(self).height
                    }
                    &&& *final(self) == (RetryingBatch {
                        included: final(self).included,
                        height: final(self).height,
                        ..*old(self)
                    })
                },
                _ => *final(self) == *old(self),
            },
    {
        match status {
            BatchStatus::Accepted { .. } => {},
            BatchStatus::Dropped { .. } => {},
            BatchStatus::Finalized { height, included } => {
                if *height > self.height {
                    self.height = *height;
                }
                self.included.extend(included);
            },
            BatchStatus::PartiallyFinalized { height, included, .. } => {
                if *height > self.height {
                    self.height = *height;
                }
                self.included.extend(included);
            },
        }
    }

    /// Drops what is included from the pending digests and decides what comes next.
    pub fn settle(&mut self) -> (step: RetryStep)
        requires
            old(self).well_formed(),
        ensures
            final(self).well_formed(),
            crate::text::texts(final(self).pending@) == with_inclusion(
                crate::text::texts(old(self).pending@),
                old(self).included@,
                false,
            ),
            *final(self) == (RetryingBatch { pending: final(self).pending, ..*old(self) }),
            match step {
                RetryStep::Answer(status) => {
                    ||| final(self).pending@.len() == 0 && status@ == (TxStatusView::Finalized {
                        height: old(self).height,
                    })
                    ||| {
                        &&& final(self).pending@.len() > 0
                        &&& old(self).retry == old(self).max_retry_views
                        &&& old(self).accepted_any
                        &&& !old(self).included@.is_empty()
                        &&& status@ == best_effort(
                            crate::text::texts(old(self).digests@),
                            old(self).included@,
                            old(self).height,
                        )
                    }
                },
                RetryStep::Refuse(status) => {
                    &&& status == STATUS_SERVICE_UNAVAILABLE
                    &&& final(self).pending@.len() > 0
                    &&& old(self).retry == old(self).max_retry_views
                    &&& !old(self).accepted_any || old(self).included@.is_empty()
                },
                RetryStep::Wait => final(self).pending@.len() > 0 && old(self).retry
                    < old(self).max_retry_views,
            },
    {
        let ghost before = crate::text::texts(self.pending@);
        self.pending = split_by_inclusion(&self.pending, &self.included.digests, false);
        proof {
            let after = crate::text::texts(self.pending@);
            assert forall|digest: Seq<char>| #[trigger] after.contains(digest) implies
                crate::text::texts(self.digests@).contains(digest) by {
                inclusion_splits_digests(before, self.included@, digest);
            }
            assert forall|digest: Seq<char>| #[trigger]
                crate::text::texts(self.digests@).contains(digest) implies after.contains(digest)
                || self.included@.contains(digest) by {
                inclusion_splits_digests(before, self.included@, digest);
            }
        }
        if self.pending.len() == 0 {
            return RetryStep::Answer(TxStatus::Finalized { height: self.height });
        }
        if self.retry >= self.max_retry_views {
            if !self.accepted_any {
                return RetryStep::Refuse(STATUS_SERVICE_UNAVAILABLE);
            }
            if self.included.digests.is_empty() {
                return RetryStep::Refuse(STATUS_SERVICE_UNAVAILABLE);
            }
            return RetryStep::Answer(
                best_effort_status(&self.digests, &self.included, self.height),
            );
        }
        RetryStep::Wait
    }

    /// Takes in what the wait brought: a higher view, or nothing. Returns whether to forward again.
    pub fn on_wait(&mut self, advanced: Option<u64>) -> (forward: bool)
        requires
            old(self).well_formed(),
            old(self).retry < old(self).max_retry_views,
        ensures
            final(self).well_formed(),
            forward == advanced is Some,
            match advanced {
                Some(view) => *final(self) == (RetryingBatch {
                    view,
                    retry: (old(self).retry + 1) as u64,
                    ..*old(self)
                }),
                None => *final(self) == *old(self),
            },
    {
        match advanced {
            Some(view) => {
                self.view = view;
                self.retry = self.retry + 1;
                true
            },
            None => false,
        }
    }
}

/// The attempts that send an encoded batch to leaders.
pub open spec fn sent_to(
    leaders: Seq<crate::relayer::targets::LeaderView>,
    batch_id: Seq<char>,
) -> Seq<(Seq<char>, crate::relayer::targets::LeaderView)> {
    Seq::new(leaders.len(), |i: int| (batch_id, leaders[i]))
}

/// A batch is reported as finalized only once every one of its digests is included.
pub proof fn finalized_means_all_included(
    before: RetryingBatch,
    after: RetryingBatch,
    digest: Seq<char>,
)
    requires
        before.well_formed(),
        after.well_formed(),
        after.digests == before.digests,
        after.included == before.included,
        after.pending@.len() == 0,
        crate::text::texts(before.digests@).contains(digest),
    ensures
        before.included@.contains(digest),
{
    assert(!crate::text::texts(after.pending@).contains(digest));
}

/// Returns whether a watched view is an advance over the current one.
pub fn view_advances(current: u64, watched: u64) -> (advances: bool)
    ensures
        advances == (watched > current),
{
    watched > current
}

/// What a pinned submission does next.
pub enum PinnedStep {
    /// Answer with the outcome.
    Answer(TxStatus),
    /// Refuse with a status.
    Refuse(u16),
    /// Wait for the view to advance or the poll interval to pass.
    Wait,
}

/// Returns the status that a pinned submission is refused with after its leader answered, if it is.
pub fn pinned_refusal(result: ForwardResult) -> (refusal: Option<u16>)
    ensures
        refusal == match result {
            ForwardResult::Accepted => None::<u16>,
            ForwardResult::Deterministic(status) => Some(status),
            ForwardResult::Transient => Some(STATUS_SERVICE_UNAVAILABLE),
        },
{
    match result {
        ForwardResult::Accepted => None,
        ForwardResult::Deterministic(status) => Some(status),
        ForwardResult::Transient => Some(STATUS_SERVICE_UNAVAILABLE),
    }
}

/// Decides what follows a poll of the pinned leader: an outcome is the answer, and otherwise the
/// wait goes on until the view budget is spent.
pub fn pinned_step(status: Option<BatchStatus>, retry: u64, max_retry_views: u64) -> (step:
    PinnedStep)
    ensures
        match status {
            Some(BatchStatus::Finalized { height, .. }) => step == PinnedStep::Answer(
                TxStatus::Finalized { height },
            ),
            Some(BatchStatus::PartiallyFinalized { height, included, filtered }) => step
                == PinnedStep::Answer(TxStatus::PartiallyFinalized { height, included, filtered }),
            Some(BatchStatus::Dropped { .. }) => step == PinnedStep::Answer(TxStatus::Dropped),
            _ => step == if retry >= max_retry_views {
                PinnedStep::Refuse(STATUS_SERVICE_UNAVAILABLE)
            } else {
                PinnedStep::Wait
            },
        },
{
    if let Some(status) = status {
        if let Some(outcome) = tx_status_from_batch(status) {
            return PinnedStep::Answer(outcome);
        }
    }
    if retry >= max_retry_views {
        return PinnedStep::Refuse(STATUS_SERVICE_UNAVAILABLE);
    }
    PinnedStep::Wait
}

/// Whether `at` is the first report that there is.
pub open spec fn first_report(reports: Seq<Option<BatchStatus>>, at: int) -> bool {
    &&& 0 <= at < reports.len()
    &&& reports[at] is Some
    &&& forall|i: int| 0 <= i < at ==> (#[trigger] reports[i]) is None
}

/// Answers a status request with the first report of the leaders, in their order, if there is one.
pub fn first_status(reports: Vec<Option<BatchStatus>>) -> (answer: (u16, Option<BatchStatus>))
    ensures
        match answer.1 {
            Some(report) => {
                &&& answer.0 == STATUS_OK
                &&& exists|at: int| #[trigger]
                    first_report(reports@, at) && reports@[at] == Some(report)
            },
            None => {
                &&& answer.0 == STATUS_NOT_FOUND
                &&& forall|i: int| 0 <= i < reports@.len() ==> (#[trigger] reports@[i]) is None
            },
        },
{
    let mut rest = reports;
    let mut at: usize = 0;
    while at < rest.len()
        invariant
            rest@ == reports@,
            at <= rest@.len(),
            forall|i: int| 0 <= i < at ==> (#[trigger] reports@[i]) is None,
        decreases rest@.len() - at,
    {
        if rest[at].is_some() {
            let report = rest.swap_remove(at);
            proof {
                assert(first_report(reports@, at as int));
            }
            return (STATUS_OK, report);
        }
        at += 1;
    }
    (STATUS_NOT_FOUND, None)
}

/// Returns the key bytes of an account request, or the status that it is refused with.
pub fn account_key(public_key: &str, key_bytes: usize) -> (key: Result<Vec<u8>, u16>)
    ensures
        match key {
            Ok(key) => crate::formatting::hex_bytes(public_key@) == Some(key@) && key@.len()
                == key_bytes,
            Err(status) => {
                &&& status == STATUS_BAD_REQUEST
                &&& crate::formatting::hex_bytes(public_key@) matches Some(key) ==> key.len()
                    != key_bytes
            },
        },
{
    match from_hex(public_key) {
        None => Err(STATUS_BAD_REQUEST),
        Some(key) => if key.len() != key_bytes {
            Err(STATUS_BAD_REQUEST)
        } else {
            Ok(key)
        },
    }
}

/// Returns what an account request is answered with once its key is decoded: the key may be
/// invalid, the state may not be attached yet, or the account may not exist.
pub fn account_status(key_valid: bool, reader_attached: bool, found: bool) -> (status: u16)
    ensures
        status == if !key_valid {
            STATUS_BAD_REQUEST
        } else if !reader_attached {
            STATUS_SERVICE_UNAVAILABLE
        } else if !found {
            STATUS_NOT_FOUND
        } else {
            STATUS_OK
        },
{
    if !key_valid {
        STATUS_BAD_REQUEST
    } else if !reader_attached {
        STATUS_SERVICE_UNAVAILABLE
    } else if !found {
        STATUS_NOT_FOUND
    } else {
        STATUS_OK
    }
}

proof fn digits_denote(digits: Seq<char>)
    requires
        forall|i: int| 0 <= i < digits.len() ==> is_digit(#[trigger] digits[i]),
    ensures
        digits_value(digits) == crate::text::denoted(digits, 10),
    decreases digits.len(),
{
    if digits.len() > 0 {
        let front = digits.drop_last();
        assert forall|i: int| 0 <= i < front.len() implies is_digit(#[trigger] front[i]) by {
            assert(front[i] == digits[i]);
        }
        digits_denote(front);
        assert(is_digit(digits[digits.len() - 1]));
    }
}

/// A count is read back from its decimal rendering, with a plus sign before it or without. A text
/// with anything else in it, or with nothing, is no count.
pub proof fn counts_read_back(text: &str, count: Option<usize>, number: usize, at: int)
    requires
        call_ensures(parse_count, (text,), count),
    ensures
        text@ == crate::text::decimal(number as nat) ==> count == Some(number),
        text@ == seq!['+'] + crate::text::decimal(number as nat) ==> count == Some(number),
        text@.len() == 0 ==> count is None,
        0 < at < text@.len() && !('0' <= text@[at] <= '9') ==> count is None,
        text@.len() > 0 && text@[0] != '+' && !('0' <= text@[0] <= '9') ==> count is None,
{
    let digits = crate::text::decimal(number as nat);
    crate::text::decimal_denotes_value(number as nat);
    assert forall|i: int| 0 <= i < digits.len() implies is_digit(#[trigger] digits[i]) by {}
    digits_denote(digits);
    if text@ == seq!['+'] + digits {
        assert(text@.skip(1) =~= digits);
    }
    if text@ == digits {
        assert(is_digit(digits[0]));
    }
    if 0 < at < text@.len() && !('0' <= text@[at] <= '9') {
        if text@[0] == '+' {
            assert(!is_digit(text@.skip(1)[at - 1]));
        } else {
            assert(!is_digit(text@[at]));
        }
    }
    if text@.len() > 0 && text@[0] != '+' && !('0' <= text@[0] <= '9') {
        assert(!is_digit(text@[0]));
    }
}

/// A submission that names no leader follows consensus. One that does is refused with 413 if it is
/// too large, with 400 if it asks for another fanout than one or for a leader that nobody knows, and
/// otherwise goes to the first leader with that key.
pub proof fn pinned_submissions_reach_their_leader(
    leaders: Vec<Leader>,
    target_header: Option<&str>,
    fanout_header: Option<&str>,
    body_bytes: usize,
    max_batch_bytes: usize,
    route: SubmitRoute,
    at: int,
)
    requires
        call_ensures(
            route_submission,
            (&leaders, target_header, fanout_header, body_bytes, max_batch_bytes),
            route,
        ),
    ensures
        target_header is None <==> route is Follow,
        target_header is Some && body_bytes > max_batch_bytes + 5 ==> route == SubmitRoute::Refuse(
            413,
        ),
        target_header matches Some(header) ==> (body_bytes <= max_batch_bytes + 5 ==> {
            let wanted = crate::text::lowercase(header@);
            &&& (forall|i: int|
                0 <= i < leaders@.len() ==> (#[trigger] leaders@[i]).public_key@ != wanted)
                ==> route == SubmitRoute::Refuse(400)
            &&& (fanout_header matches Some(fanout) && fanout@ == "2"@) ==> route
                == SubmitRoute::Refuse(400)
            &&& (fanout_header is None || fanout_header.unwrap()@ == "1"@) && 0 <= at
                < leaders@.len() && leaders@[at].public_key@ == wanted && (forall|i: int|
                0 <= i < at ==> (#[trigger] leaders@[i]).public_key@ != wanted) ==> (
            route matches SubmitRoute::Pinned(leader) && leader@ == leaders@[at]@)
        }),
{
    reveal_strlit("1");
    reveal_strlit("2");
    one_digit_counts("1"@, '1');
    one_digit_counts("2"@, '2');
    if let Some(header) = target_header {
        let wanted = crate::text::lowercase(header@);
        if 0 <= at < leaders@.len() && leaders@[at].public_key@ == wanted {
            assert(knows_leader(leaders@, wanted));
        }
    }
}

proof fn one_digit_counts(text: Seq<char>, ch: char)
    requires
        text.len() == 1,
        text[0] == ch,
        is_digit(ch),
    ensures
        count_in(text) == Some((ch as nat - 48) as usize),
{
    assert(text.drop_last() =~= Seq::<char>::empty());
    assert(digits_value(text.drop_last()) == 0);
    assert(text.last() == ch);
}

/// A request is decoded for as many of the smallest transactions as fit behind one byte of length,
/// and for none more; one that cannot hold any has no limit.
pub proof fn limit_is_what_fits(
    body_bytes: usize,
    min_transaction_bytes: usize,
    count: Option<usize>,
)
    requires
        call_ensures(max_transaction_count, (body_bytes, min_transaction_bytes), count),
        min_transaction_bytes > 0,
    ensures
        count is None <==> body_bytes <= min_transaction_bytes,
        count matches Some(count) ==> {
            &&& 1 + count * min_transaction_bytes <= body_bytes
            &&& 1 + (count + 1) * min_transaction_bytes > body_bytes
        },
{
    let payload = if body_bytes < 1 {
        0
    } else {
        body_bytes - 1
    };
    let size = min_transaction_bytes as int;
    vstd::arithmetic::div_mod::lemma_fundamental_div_mod(payload, size);
    vstd::arithmetic::div_mod::lemma_mod_bound(payload, size);
    let fits = payload / size;
    assert(size * fits == fits * size && (fits + 1) * size == fits * size + size)
        by (nonlinear_arith);
    assert(fits >= 0 && (fits == 0 <==> payload < size)) by (nonlinear_arith)
        requires
            payload == size * fits + payload % size,
            0 <= payload % size < size,
            payload >= 0,
            size > 0,
    ;
}

/// The sizes of two lists of transactions add up, and one transaction counts with its own.
pub proof fn sizes_add_up(front: Seq<usize>, back: Seq<usize>)
    ensures
        total_size(front + back) == total_size(front) + total_size(back),
        front.len() == 1 ==> total_size(front) == front[0],
        total_size(Seq::empty()) == 0,
    decreases back.len(),
{
    if front.len() == 1 {
        assert(front.drop_last() =~= Seq::<usize>::empty());
        assert(total_size(front.drop_last()) == 0);
        assert(front.last() == front[0]);
    }
    if back.len() == 0 {
        assert(front + back =~= front);
    } else {
        sizes_add_up(front, back.drop_last());
        assert((front + back).drop_last() =~= front + back.drop_last());
        assert((front + back).last() == back.last());
    }
}

/// What forwarding to several leaders amounts to: an acceptance if some leader accepted, and the last
/// refusal for good if there was one.
pub proof fn summary_speaks_for_results(
    results: Vec<ForwardResult>,
    summary: ForwardSummary,
    at: int,
)
    requires
        call_ensures(summarize_forwards, (&results,), summary),
    ensures
        summary.accepted <==> results@.contains(ForwardResult::Accepted),
        summary.deterministic is None <==> forall|i: int|
            0 <= i < results@.len() ==> !(#[trigger] results@[i] is Deterministic),
        0 <= at < results@.len() && (forall|i: int|
            at < i < results@.len() ==> !(#[trigger] results@[i] is Deterministic)) ==> (
        results@[at] matches ForwardResult::Deterministic(status) ==> summary.deterministic == Some(
            status,
        )),
{
    summary_of_results(results@, at);
}

proof fn summary_of_results(results: Seq<ForwardResult>, at: int)
    ensures
        summary_of(results).accepted <==> results.contains(ForwardResult::Accepted),
        summary_of(results).deterministic is None <==> forall|i: int|
            0 <= i < results.len() ==> !(#[trigger] results[i] is Deterministic),
        0 <= at < results.len() && (forall|i: int|
            at < i < results.len() ==> !(#[trigger] results[i] is Deterministic)) ==> (
        results[at] matches ForwardResult::Deterministic(status) ==> summary_of(
            results,
        ).deterministic == Some(status)),
    decreases results.len(),
{
    if results.len() > 0 {
        let front = results.drop_last();
        let last = results.len() - 1;
        summary_of_results(front, at);
        assert(results[last] == results.last());
        assert forall|i: int| 0 <= i < front.len() implies front[i] == results[i] by {}
        if front.contains(ForwardResult::Accepted) {
            let i = choose|i: int| 0 <= i < front.len() && front[i] == ForwardResult::Accepted;
            assert(results[i] == ForwardResult::Accepted);
        }
        if results.contains(ForwardResult::Accepted) {
            let i = choose|i: int| 0 <= i < results.len() && results[i] == ForwardResult::Accepted;
            if i < last {
                assert(front[i] == ForwardResult::Accepted);
            }
        }
        if !(results.last() is Deterministic) && (forall|i: int|
            0 <= i < front.len() ==> !(#[trigger] front[i] is Deterministic)) {
            assert forall|i: int| 0 <= i < results.len() implies !(#[trigger] results[i] is Deterministic) by {
                if i < last {
                    assert(front[i] == results[i]);
                }
            }
        }
    }
}

/// What is answered once the budget is spent: nothing was included, or everything, or each digest of
/// the batch is listed on its own side, in the order of the batch.
pub proof fn spent_budget_answers_for_digests(
    digests: Vec<String>,
    included: IncludedSet,
    height: u64,
    status: TxStatus,
    digest: Seq<char>,
)
    requires
        call_ensures(best_effort_status, (&digests, &included, height), status),
        crate::text::texts(digests@).contains(digest),
    ensures
        match status@ {
            TxStatusView::Dropped => !included@.contains(digest),
            TxStatusView::Finalized { height: at } => at == height && included@.contains(digest),
            TxStatusView::PartiallyFinalized { height: at, included: landed, filtered } => {
                &&& at == height
                &&& landed.contains(digest) <==> included@.contains(digest)
                &&& filtered.contains(digest) <==> !included@.contains(digest)
                &&& filtered.len() > 0
                &&& landed.len() + filtered.len() == digests@.len()
            },
        },
        included@.is_empty() ==> status@ is Dropped,
        !included@.is_empty() ==> !(status@ is Dropped),
{
    let texts = crate::text::texts(digests@);
    inclusion_splits_digests(texts, included@, digest);
    let filtered = with_inclusion(texts, included@, false);
    assert(filtered.len() == 0 ==> !filtered.contains(digest));
    assert(texts.len() == digests@.len());
}

/// A batch that is forwarded again goes to every leader that it was sent to before, and then to the
/// leaders whose views come next.
pub proof fn forwarding_adds_next_leaders(
    attempts: Seq<(Seq<char>, crate::relayer::targets::LeaderView)>,
    next: Seq<crate::relayer::targets::LeaderView>,
    batch_id: Seq<char>,
    other: Seq<char>,
)
    requires
        other != batch_id,
    ensures
        leaders_sent(attempts + sent_to(next, batch_id), batch_id) == leaders_sent(
            attempts,
            batch_id,
        ) + next,
        leaders_sent(attempts + sent_to(next, batch_id), other) == leaders_sent(attempts, other),
        leaders_sent(Seq::empty(), batch_id).len() == 0,
    decreases next.len(),
{
    let all = attempts + sent_to(next, batch_id);
    if next.len() == 0 {
        assert(all =~= attempts);
        assert(leaders_sent(attempts, batch_id) + next =~= leaders_sent(attempts, batch_id));
    } else {
        let front = next.drop_last();
        forwarding_adds_next_leaders(attempts, front, batch_id, other);
        assert(all.drop_last() =~= attempts + sent_to(front, batch_id));
        assert(all.last() == (batch_id, next.last()));
        assert(leaders_sent(attempts, batch_id) + next =~= (leaders_sent(attempts, batch_id)
            + front).push(next.last()));
    }
}

/// The configured leaders come out in key order, one for one, with their URLs cut back to where no
/// slash ends them.
pub proof fn leaders_come_in_key_order(
    configs: Vec<RelayerLeaderConfig>,
    leaders: Vec<Leader>,
    left: int,
    right: int,
) -> (place: int)
    requires
        call_ensures(normalize_leaders, (&configs,), Ok::<Vec<Leader>, String>(leaders)),
        0 <= left < right < leaders@.len(),
    ensures
        leaders@.len() == configs@.len(),
        crate::order::bytes_at_most(leaders@[left].sort_key@, leaders@[right].sort_key@),
        0 <= place < configs@.len(),
        leaders@[left].public_key@ == crate::text::lowercase(configs@[place].public_key@),
        leaders@[left].url@.is_prefix_of(configs@[place].url@),
        leaders@[left].url@.len() > 0 ==> leaders@[left].url@.last() != '/',
{
    let given = choose|given: Seq<Leader>|
        {
            &&& #[trigger] crate::order::sorts(given, leaders@)
            &&& given.len() == configs@.len()
            &&& forall|i: int|
                0 <= i < configs@.len() ==> normalizes(configs@[i], #[trigger] given[i])
        };
    assert(leaders@[left].at_most(&leaders@[right]));
    crate::order::lex_is_total(
        leaders@[left].sort_key@,
        leaders@[left].sort_key@,
        |byte: u8| byte as int,
    );
    let (place, _) = crate::order::both_are_placed(leaders@, given, left, right);
    assert(normalizes(configs@[place], given[place]));
    crate::text::trimming_is_idempotent(configs@[place].url@);
    crate::text::trimming_removes_only_slashes(configs@[place].url@);
    place
}

/// When a submission is settled: as finalized as soon as every digest of its batch is included. While
/// one is not, it waits as long as its budget lasts. Once that is spent, it is answered in part if a
/// leader took it in and something was included, and refused with 503 otherwise.
pub proof fn submissions_are_settled_by_inclusion(
    batch: &mut RetryingBatch,
    step: RetryStep,
    missing: Seq<char>,
)
    requires
        old(batch).well_formed(),
        call_ensures(RetryingBatch::settle, (batch,), step),
    ensures
        (forall|digest: Seq<char>| #[trigger]
            crate::text::texts(old(batch).digests@).contains(digest)
                ==> old(batch).included@.contains(digest)) ==> (step matches RetryStep::Answer(
            status,
        ) && status@ == (TxStatusView::Finalized { height: old(batch).height })),
        crate::text::texts(old(batch).digests@).contains(missing)
            && !old(batch).included@.contains(missing) ==> {
            &&& crate::text::texts(final(batch).pending@).contains(missing)
            &&& old(batch).retry < old(batch).max_retry_views <==> step is Wait
            &&& old(batch).retry == old(batch).max_retry_views && old(batch).accepted_any
                && !old(batch).included@.is_empty() ==> (step matches RetryStep::Answer(status)
                && (status@ matches TxStatusView::PartiallyFinalized { height, filtered, .. }
                && height == old(batch).height && filtered.contains(missing)))
            &&& old(batch).retry == old(batch).max_retry_views && (!old(batch).accepted_any
                || old(batch).included@.is_empty()) ==> step == RetryStep::Refuse(503)
        },
        final(batch).included@ == old(batch).included@,
        final(batch).retry == old(batch).retry,
{
    let digests = crate::text::texts(old(batch).digests@);
    let pending = crate::text::texts(old(batch).pending@);
    let included = old(batch).included@;
    let left = with_inclusion(pending, included, false);
    assert(left.len() == final(batch).pending@.len());
    if forall|digest: Seq<char>| #[trigger]
        digests.contains(digest) ==> included.contains(digest) {
        if left.len() > 0 {
            inclusion_splits_digests(pending, included, left[0]);
            assert(left.contains(left[0]));
            assert(pending.contains(left[0]));
        }
    }
    if digests.contains(missing) && !included.contains(missing) {
        inclusion_splits_digests(pending, included, missing);
        inclusion_splits_digests(digests, included, missing);
        assert(pending.contains(missing));
        assert(left.contains(missing));
        assert(left.len() > 0);
        let filtered = with_inclusion(digests, included, false);
        assert(filtered.contains(missing));
        assert(filtered.len() > 0);
    }
}

/// What a report of inclusions does: everything that it names is known to be included from then on,
/// nothing that was known is forgotten, and the height is the larger of the two. A report of anything
/// else changes nothing.
pub proof fn reports_only_add_inclusions(
    batch: &mut RetryingBatch,
    status: BatchStatus,
    digest: Seq<char>,
)
    requires
        old(batch).well_formed(),
        call_ensures(RetryingBatch::on_status, (batch, &status), ()),
    ensures
        final(batch).included@.contains(digest) <==> old(batch).included@.contains(digest)
            || match status {
            BatchStatus::Finalized { included, .. } => crate::text::texts(included@).contains(
                digest,
            ),
            BatchStatus::PartiallyFinalized { included, .. } => crate::text::texts(
                included@,
            ).contains(digest),
            _ => false,
        },
        final(batch).height >= old(batch).height,
        match status {
            BatchStatus::Finalized { height, .. } => final(batch).height >= height && (
            final(batch).height == height || final(batch).height == old(batch).height),
            BatchStatus::PartiallyFinalized { height, .. } => final(batch).height >= height && (
            final(batch).height == height || final(batch).height == old(batch).height),
            _ => *final(batch) == *old(batch),
        },
        final(batch).pending == old(batch).pending,
        final(batch).retry == old(batch).retry,
{
}

/// A forward goes to the leaders that [`next_two_leaders`] names for the observed view, behind those
/// that the same encoding went to before.
pub proof fn forwards_follow_the_view(
    batch: &mut RetryingBatch,
    leaders: Vec<Leader>,
    batch_id: String,
    targets: Vec<Leader>,
    next: Vec<Leader>,
)
    requires
        old(batch).well_formed(),
        call_ensures(RetryingBatch::plan_forward, (batch, &leaders, batch_id), targets),
        call_ensures(next_two_leaders, (&leaders, old(batch).view), next),
    ensures
        targets@.len() >= next@.len(),
        forall|i: int|
            0 <= i < next@.len() ==> (#[trigger] next@[i])@ == targets@[targets@.len()
                - next@.len() + i]@,
        old(batch).attempts@.len() == 0 ==> targets@.len() == next@.len(),
        final(batch).view == old(batch).view,
        final(batch).pending == old(batch).pending,
{
    let before = attempt_views(old(batch).attempts@);
    let views = crate::relayer::targets::leader_views(next@);
    let all = crate::relayer::targets::leader_views(targets@);
    let other = batch_id@.push('0');
    assert(other.len() != batch_id@.len());
    forwarding_adds_next_leaders(before, views, batch_id@, other);
    assert(all == leaders_sent(before, batch_id@) + views);
    assert(all.len() == targets@.len());
    assert(views.len() == next@.len());
    assert forall|i: int| 0 <= i < next@.len() implies (#[trigger] next@[i])@ == targets@[
        targets@.len() - next@.len() + i
    ]@ by {
        assert(views[i] == next@[i]@);
        assert(all[targets@.len() - next@.len() + i] == views[i]);
    }
    if old(batch).attempts@.len() == 0 {
        assert(before =~= Seq::empty());
    }
}

/// A view that advances uses up one view of the budget and is what the next forward follows; a wait
/// that brings nothing uses up none.
pub proof fn budget_is_counted_in_views(
    batch: &mut RetryingBatch,
    advanced: Option<u64>,
    forward: bool,
)
    requires
        old(batch).well_formed(),
        old(batch).retry < old(batch).max_retry_views,
        call_ensures(RetryingBatch::on_wait, (batch, advanced), forward),
    ensures
        forward <==> advanced is Some,
        advanced matches Some(view) ==> final(batch).view == view && final(batch).retry
            == old(batch).retry + 1,
        advanced is None ==> final(batch).retry == old(batch).retry && final(batch).view
            == old(batch).view,
        final(batch).retry <= final(batch).max_retry_views,
        final(batch).pending == old(batch).pending,
        final(batch).included == old(batch).included,
{
}

/// After two reports the observer stands at the largest view that it has seen.
pub proof fn observer_stands_at_largest_view(
    first: &mut Observer,
    second: &mut Observer,
    left: u64,
    right: u64,
    advanced: bool,
    again: bool,
)
    requires
        call_ensures(Observer::report, (first, left), advanced),
        call_ensures(Observer::report, (second, right), again),
        *old(second) == *final(first),
    ensures
        final(second).current_view >= left,
        final(second).current_view >= right,
        final(second).current_view >= old(first).current_view,
        final(second).current_view == left || final(second).current_view == right
            || final(second).current_view == old(first).current_view,
        again <==> right > old(first).current_view && right > left,
{
}

/// A leader's answer counts as an acceptance only with an acknowledgement of at least one transaction,
/// as a refusal for good only if the request was bad or too large, and as silence otherwise; and a
/// pinned submission is refused unless its leader accepted.
pub proof fn answers_are_read_by_status(
    status: Option<u16>,
    digests: Option<usize>,
    result: ForwardResult,
    refusal: Option<u16>,
)
    requires
        call_ensures(read_forward_answer, (status, digests), result),
        call_ensures(pinned_refusal, (result,), refusal),
    ensures
        result is Accepted <==> status == Some(202u16) && (digests matches Some(count) && count > 0),
        result is Deterministic <==> status == Some(400u16) || status == Some(413u16),
        refusal is None <==> result is Accepted,
        result is Deterministic ==> refusal == status,
        result is Transient ==> refusal == Some(503u16),
{
}

/// How many transactions a request is decoded for: it is refused with 413 if it is more than five bytes
/// larger than a batch may be, and with 400 if it cannot hold a transaction behind a byte of length.
pub proof fn requests_are_limited_by_size(
    body_bytes: usize,
    max_batch_bytes: usize,
    min_transaction_bytes: usize,
    limit: Result<usize, u16>,
)
    requires
        call_ensures(batch_limit, (body_bytes, max_batch_bytes, min_transaction_bytes), limit),
        min_transaction_bytes > 0,
    ensures
        body_bytes > max_batch_bytes + 5 <==> limit == Err::<usize, u16>(413),
        body_bytes <= max_batch_bytes + 5 && body_bytes <= min_transaction_bytes <==> limit == Err::<
            usize,
            u16,
        >(400),
        limit matches Ok(count) ==> 1 + count * min_transaction_bytes <= body_bytes && body_bytes
            < 1 + (count + 1) * min_transaction_bytes,
{
    let size = min_transaction_bytes as int;
    let payload = if body_bytes < 1 {
        0
    } else {
        body_bytes - 1
    };
    vstd::arithmetic::div_mod::lemma_fundamental_div_mod(payload, size);
    vstd::arithmetic::div_mod::lemma_mod_bound(payload, size);
    let fits = payload / size;
    assert(size * fits == fits * size && (fits + 1) * size == fits * size + size)
        by (nonlinear_arith);
    assert(fits >= 0 && (fits == 0 <==> payload < size)) by (nonlinear_arith)
        requires
            payload == size * fits + payload % size,
            0 <= payload % size < size,
            payload >= 0,
            size > 0,
    ;
}

/// A decoded batch is admitted exactly if its transactions together are no larger than a batch may be;
/// a larger one is refused with 413, and one that did not decode with 400.
pub proof fn batches_are_admitted_by_size(
    sizes: Vec<usize>,
    max_batch_bytes: usize,
    verdict: Result<(), u16>,
    undecoded: Result<(), u16>,
)
    requires
        call_ensures(admit_batch, (Some(&sizes), max_batch_bytes), verdict),
        call_ensures(admit_batch, (None, max_batch_bytes), undecoded),
    ensures
        verdict is Ok <==> total_size(sizes@) <= max_batch_bytes,
        verdict is Err ==> verdict == Err::<(), u16>(413),
        undecoded == Err::<(), u16>(400),
{
}

/// What a poll of the pinned leader leads to. An outcome is the answer, as the leader reports it.
/// Without one, the wait goes on exactly while the budget lasts, and ends in 503.
pub proof fn pinned_outcomes_are_answered(
    status: Option<BatchStatus>,
    retry: u64,
    max_retry_views: u64,
    step: PinnedStep,
    outcome: Option<TxStatus>,
)
    requires
        call_ensures(pinned_step, (status, retry, max_retry_views), step),
        status matches Some(status) ==> call_ensures(tx_status_from_batch, (status,), outcome),
        status is None ==> outcome is None,
    ensures
        outcome matches Some(answer) ==> step == PinnedStep::Answer(answer),
        outcome is None ==> {
            &&& step is Wait <==> retry < max_retry_views
            &&& retry >= max_retry_views ==> step == PinnedStep::Refuse(503)
        },
        status matches Some(BatchStatus::Accepted { .. }) ==> outcome is None,
        status matches Some(BatchStatus::Dropped { .. }) ==> outcome == Some(TxStatus::Dropped),
        status matches Some(BatchStatus::Finalized { height, .. }) ==> outcome == Some(
            TxStatus::Finalized { height },
        ),
        status matches Some(BatchStatus::PartiallyFinalized { height, included, filtered })
            ==> outcome == Some(TxStatus::PartiallyFinalized { height, included, filtered }),
{
}

/// A status request is answered with 200 and the first report there is, and with 404 without one.
pub proof fn first_report_is_answered(
    reports: Vec<Option<BatchStatus>>,
    answer: (u16, Option<BatchStatus>),
    at: int,
)
    requires
        call_ensures(first_status, (reports,), answer),
    ensures
        (forall|i: int| 0 <= i < reports@.len() ==> (#[trigger] reports@[i]) is None) <==> answer.0
            == 404,
        0 <= at < reports@.len() && reports@[at] is Some && (forall|i: int|
            0 <= i < at ==> (#[trigger] reports@[i]) is None) ==> answer.0 == 200 && answer.1
            == reports@[at],
        answer.0 == 404 ==> answer.1 is None,
{
    if 0 <= at < reports@.len() && reports@[at] is Some && (forall|i: int|
        0 <= i < at ==> (#[trigger] reports@[i]) is None) {
        if answer.1 is None {
            assert(reports@[at] is None);
        } else {
            let found = choose|found: int| #[trigger]
                first_report(reports@, found) && reports@[found] == answer.1;
            assert(found == at) by {
                if found < at {
                    assert(reports@[found] is None);
                }
                if at < found {
                    assert(reports@[at] is None);
                }
            }
        }
    }
}

/// How an account request is answered: a key of the wrong length or text is refused with 400, as is an
/// invalid one; 503 comes before the state is attached, 404 for an account that does not exist, and 200
/// otherwise.
pub proof fn account_requests_are_answered(
    public_key: &str,
    key_bytes: usize,
    key: Result<Vec<u8>, u16>,
    bytes: Seq<u8>,
    key_valid: bool,
    reader_attached: bool,
    found: bool,
    status: u16,
)
    requires
        call_ensures(account_key, (public_key, key_bytes), key),
        call_ensures(account_status, (key_valid, reader_attached, found), status),
    ensures
        public_key@ == crate::formatting::hex_text(bytes) && bytes.len() == key_bytes ==> (
        key matches Ok(key) && key@ == bytes),
        public_key@ == crate::formatting::hex_text(bytes) && bytes.len() != key_bytes ==> key
            == Err::<Vec<u8>, u16>(400),
        crate::formatting::hex_bytes(public_key@) is None ==> key == Err::<Vec<u8>, u16>(400),
        status == 400 <==> !key_valid,
        status == 503 <==> key_valid && !reader_attached,
        status == 404 <==> key_valid && reader_attached && !found,
        status == 200 <==> key_valid && reader_attached && found,
{
    crate::formatting::hex_round_trip(bytes);
}

/// A refusal for good ends a submission and changes nothing; otherwise it is known from then on whether
/// some leader has ever taken it in.
pub proof fn acceptance_is_remembered(
    batch: &mut RetryingBatch,
    summary: ForwardSummary,
    refusal: Option<u16>,
)
    requires
        old(batch).well_formed(),
        call_ensures(RetryingBatch::on_forwarded, (batch, summary), refusal),
    ensures
        refusal == summary.deterministic,
        refusal is None ==> (final(batch).accepted_any <==> old(batch).accepted_any
            || summary.accepted),
        refusal is Some ==> *final(batch) == *old(batch),
        final(batch).pending == old(batch).pending,
        final(batch).included == old(batch).included,
{
}

/// A submission starts with every digest of its batch pending, each once, and nothing included.
pub proof fn submissions_start_with_everything_pending(
    digests: Vec<String>,
    view: u64,
    max_retry_views: u64,
    batch: RetryingBatch,
    digest: Seq<char>,
    positions: Vec<usize>,
    at: usize,
)
    requires
        call_ensures(RetryingBatch::new, (digests, view, max_retry_views), batch),
        call_ensures(RetryingBatch::pending_positions, (&batch,), positions),
        at < digests@.len(),
    ensures
        crate::text::texts(batch.pending@).contains(digest) <==> crate::text::texts(
            digests@,
        ).contains(digest),
        crate::text::texts(batch.pending@).no_duplicates(),
        batch.included@.is_empty(),
        positions@.contains(at),
        batch.retry == 0,
        !batch.accepted_any,
{
    let all = crate::text::texts(digests@);
    let pending = crate::text::texts(batch.pending@);
    crate::relayer::status::joining_is_union(Seq::empty(), all);
    assert(digests.len() == digests@.len());
    pending_positions_are_exact(all, pending, digests@.len());
    assert(all[at as int] == digests@[at as int]@);
    assert(all.contains(all[at as int]));
    assert(pending.contains(all[at as int]));
    assert(batch.included@ =~= Set::<Seq<char>>::empty());
}

/// A single leader always comes next, alone, and without leaders nobody does.
pub proof fn lone_leader_always_comes_next(leaders: Vec<Leader>, view: u64, next: Vec<Leader>)
    requires
        call_ensures(next_two_leaders, (&leaders, view), next),
    ensures
        leaders@.len() == 0 ==> next@.len() == 0,
        leaders@.len() == 1 ==> next@.len() == 1 && next@[0]@ == leaders@[0]@,
        leaders@.len() > 1 ==> next@.len() == 2,
{
    let views = crate::relayer::targets::leader_views(leaders@);
    let chosen = crate::relayer::targets::leader_views(next@);
    assert(chosen.len() == next@.len());
    assert(views.len() == leaders@.len());
    if leaders@.len() == 1 {
        assert(chosen[0] == next@[0]@);
        assert(views[0] == leaders@[0]@);
    }
}

} // verus!

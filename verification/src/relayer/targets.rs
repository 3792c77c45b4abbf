//! Leader selection: rotate from the current round, prefer healthy leaders.

use crate::relayer::health::{HealthMap, LeaderHealth};
use vstd::prelude::*;

verus! {

/// A leader that batches are forwarded to.
#[derive(Debug, Clone)]
pub struct Leader {
    /// Hex-encoded public key, in lowercase.
    pub public_key: String,
    /// Bytes of the public key, by which leaders are ordered.
    pub sort_key: Vec<u8>,
    /// URL without a trailing slash.
    pub url: String,
}

/// What a [`Leader`] says.
pub struct LeaderView {
    pub public_key: Seq<char>,
    pub sort_key: Seq<u8>,
    pub url: Seq<char>,
}

impl View for Leader {
    type V = LeaderView;

    open spec fn view(&self) -> LeaderView {
        LeaderView {
            public_key: self.public_key@,
            sort_key: self.sort_key@,
            url: self.url@,
        }
    }
}

impl Leader {
    /// Returns a copy of the leader.
    pub fn copy(&self) -> (copied: Leader)
        ensures
            copied@ == self@,
    {
        let mut sort_key: Vec<u8> = Vec::new();
        let mut i: usize = 0;
        while i < self.sort_key.len()
            invariant
                i <= self.sort_key.len(),
                sort_key@ == self.sort_key@.take(i as int),
            decreases self.sort_key.len() - i,
        {
            sort_key.push(self.sort_key[i]);
            proof {
                assert(self.sort_key@.take(i + 1) =~= self.sort_key@.take(i as int).push(
                    self.sort_key@[i as int],
                ));
            }
            i += 1;
        }
        proof {
            assert(self.sort_key@.take(i as int) =~= self.sort_key@);
        }
        Leader { public_key: self.public_key.clone(), sort_key, url: self.url.clone() }
    }
}

/// What a list of leaders says.
pub open spec fn leader_views(leaders: Seq<Leader>) -> Seq<LeaderView> {
    Seq::new(leaders.len(), |i: int| leaders[i]@)
}

/// All leaders, starting with the one whose turn the round is.
pub open spec fn window(leaders: Seq<LeaderView>, round: int) -> Seq<LeaderView> {
    Seq::new(leaders.len(), |i: int| leaders[(round % leaders.len() as int + i) % leaders.len() as int])
}

/// Whether a leader is healthy; one that never answered is.
pub open spec fn healthy(leader: LeaderView, health: Map<Seq<char>, LeaderHealth>) -> bool {
    crate::relayer::health::known_health(health, leader.public_key).healthy
}

/// The leaders of a list that are healthy (or, for `wanted` false, those that are not), in order.
pub open spec fn with_health(
    leaders: Seq<LeaderView>,
    health: Map<Seq<char>, LeaderHealth>,
    wanted: bool,
) -> Seq<LeaderView>
    decreases leaders.len(),
{
    if leaders.len() == 0 {
        Seq::empty()
    } else {
        let rest = with_health(leaders.drop_last(), health, wanted);
        if healthy(leaders.last(), health) == wanted {
            rest.push(leaders.last())
        } else {
            rest
        }
    }
}

/// The leaders of a round in order of preference: healthy ones first.
pub open spec fn preference(
    leaders: Seq<LeaderView>,
    health: Map<Seq<char>, LeaderHealth>,
    round: int,
) -> Seq<LeaderView> {
    let ordered = window(leaders, round);
    with_health(ordered, health, true) + with_health(ordered, health, false)
}

/// The leaders that a batch is forwarded to.
///
/// A fanout that covers all leaders takes them in turn order. A smaller one takes the most
/// preferred. A fanout of zero takes nothing if the first leader in turn is unhealthy, and
/// everyone otherwise.
pub open spec fn targets(
    leaders: Seq<LeaderView>,
    health: Map<Seq<char>, LeaderHealth>,
    fanout: int,
    round: int,
) -> Seq<LeaderView> {
    if fanout >= leaders.len() {
        window(leaders, round)
    } else if fanout > 0 {
        preference(leaders, health, round).take(fanout)
    } else if healthy(window(leaders, round)[0], health) {
        preference(leaders, health, round)
    } else {
        Seq::empty()
    }
}

/// Returns all leaders, starting with the one whose turn the round is.
pub fn leader_window(leaders: &Vec<Leader>, round: u64) -> (ordered: Vec<Leader>)
    requires
        leaders@.len() > 0,
    ensures
        leader_views(ordered@) == window(leader_views(leaders@), round as int),
{
    let count: usize = leaders.len();
    let start: usize = (round % count as u64) as usize;
    let mut ordered: Vec<Leader> = Vec::new();
    let mut offset: usize = 0;
    while offset < count
        invariant
            offset <= count,
            count == leaders@.len(),
            count > 0,
            start == round as int % count as int,
            start < count,
            ordered@.len() == offset,
            forall|i: int|
                0 <= i < offset ==> (#[trigger] ordered@[i])@ == leaders@[(start + i)
                    % count as int]@,
        decreases count - offset,
    {
        let index: usize = if offset < count - start {
            start + offset
        } else {
            offset - (count - start)
        };
        proof {
            if offset < count - start {
                vstd::arithmetic::div_mod::lemma_small_mod((start + offset) as nat, count as nat);
            } else {
                vstd::arithmetic::div_mod::lemma_fundamental_div_mod_converse(
                    start + offset,
                    count as int,
                    1,
                    index as int,
                );
            }
        }
        ordered.push(leaders[index].copy());
        offset += 1;
    }
    proof {
        assert(leader_views(ordered@) =~= window(leader_views(leaders@), round as int));
    }
    ordered
}

/// Returns whether a leader is healthy.
pub fn is_healthy(leader: &Leader, health: &HealthMap) -> (verdict: bool)
    ensures
        verdict == healthy(leader@, health@),
{
    match health.get(leader.public_key.as_str()) {
        Some(health) => health.healthy,
        None => true,
    }
}

/// Sorting out one more leader only appends to the ones sorted out before.
proof fn with_health_grows(
    leaders: Seq<LeaderView>,
    health: Map<Seq<char>, LeaderHealth>,
    wanted: bool,
    count: int,
)
    requires
        0 <= count <= leaders.len(),
    ensures
        with_health(leaders.take(count), health, wanted).is_prefix_of(
            with_health(leaders, health, wanted),
        ),
    decreases leaders.len() - count,
{
    if count == leaders.len() {
        assert(leaders.take(count) =~= leaders);
    } else {
        with_health_grows(leaders, health, wanted, count + 1);
        assert(leaders.take(count + 1).drop_last() =~= leaders.take(count));
    }
}

/// Every leader is sorted out to exactly one side.
proof fn health_splits_leaders(leaders: Seq<LeaderView>, health: Map<Seq<char>, LeaderHealth>)
    ensures
        with_health(leaders, health, true).len() + with_health(leaders, health, false).len()
            == leaders.len(),
    decreases leaders.len(),
{
    if leaders.len() > 0 {
        health_splits_leaders(leaders.drop_last(), health);
    }
}

/// Returns the leaders that a batch is forwarded to.
pub fn leader_targets(
    leaders: &Vec<Leader>,
    health: &HealthMap,
    leader_fanout: usize,
    round: u64,
) -> (chosen: Vec<Leader>)
    ensures
        leader_views(chosen@) == targets(
            leader_views(leaders@),
            health@,
            leader_fanout as int,
            round as int,
        ),
{
    if leaders.len() == 0 {
        let none: Vec<Leader> = Vec::new();
        proof {
            assert(leader_views(none@) =~= window(leader_views(leaders@), round as int));
        }
        return none;
    }
    let mut ordered = leader_window(leaders, round);
    if leader_fanout >= leaders.len() {
        return ordered;
    }
    let count: usize = leader_fanout;
    let ghost all = leader_views(ordered@);
    let ghost given = ordered@;
    let mut chosen: Vec<Leader> = Vec::new();
    let mut fallback: Vec<Leader> = Vec::new();
    let ghost mut seen: int = 0;
    proof {
        assert(leader_views(chosen@) =~= Seq::<LeaderView>::empty());
        assert(leader_views(fallback@) =~= Seq::<LeaderView>::empty());
        assert(all.take(0) =~= Seq::<LeaderView>::empty());
    }
    while ordered.len() > 0
        invariant
            0 <= seen,
            seen + ordered@.len() == all.len(),
            ordered@ == given.skip(seen),
            all == leader_views(given),
            all == window(leader_views(leaders@), round as int),
            count == leader_fanout,
            count < leaders@.len(),
            all.len() == leaders@.len(),
            leader_views(chosen@) == with_health(all.take(seen), health@, true),
            leader_views(fallback@) == with_health(all.take(seen), health@, false),
            count == 0 && seen > 0 ==> healthy(all[0], health@) && chosen@.len() > 0,
            count > 0 ==> chosen@.len() < count,
        decreases ordered.len(),
    {
        let leader = ordered.remove(0);
        proof {
            assert(leader@ == all[seen]);
            assert(ordered@ =~= given.skip(seen + 1));
            assert(all.take(seen + 1).drop_last() =~= all.take(seen));
            assert(all.take(seen + 1).last() == all[seen]);
        }
        let ghost chosen_before = leader_views(chosen@);
        let ghost fallback_before = leader_views(fallback@);
        if is_healthy(&leader, health) {
            chosen.push(leader);
            proof {
                assert(leader_views(chosen@) =~= chosen_before.push(all[seen]));
            }
        } else {
            fallback.push(leader);
            proof {
                assert(leader_views(fallback@) =~= fallback_before.push(all[seen]));
            }
        }
        proof {
            seen = seen + 1;
        }
        if chosen.len() == count {
            proof {
                with_health_grows(all, health@, true, seen);
                if count > 0 {
                    assert(leader_views(chosen@) =~= preference(
                        leader_views(leaders@),
                        health@,
                        round as int,
                    ).take(count as int));
                } else {
                    assert(leader_views(chosen@) =~= Seq::<LeaderView>::empty());
                    if seen > 1 {
                        assert(chosen_before.len() > 0);
                    }
                }
            }
            return chosen;
        }
    }
    let ghost first = leader_views(chosen@);
    let ghost second = leader_views(fallback@);
    let ghost spare = fallback@;
    proof {
        assert(all.take(seen) =~= all);
        health_splits_leaders(all, health@);
    }
    let ghost mut taken: int = 0;
    proof {
        assert(second.take(0) =~= Seq::<LeaderView>::empty());
        assert(leader_views(chosen@) =~= first + second.take(0));
    }
    while fallback.len() > 0 && chosen.len() != count
        invariant
            0 <= taken,
            taken + fallback@.len() == second.len(),
            fallback@ == spare.skip(taken),
            second == leader_views(spare),
            leader_views(chosen@) == first + second.take(taken),
            count > 0 ==> chosen@.len() <= count,
            count == 0 ==> first.len() > 0,
        decreases fallback.len(),
    {
        let leader = fallback.remove(0);
        let ghost before = leader_views(chosen@);
        proof {
            assert(leader@ == second[taken]);
            assert(fallback@ =~= spare.skip(taken + 1));
        }
        chosen.push(leader);
        proof {
            taken = taken + 1;
            assert(leader_views(chosen@) =~= before.push(second[taken - 1]));
            assert(first + second.take(taken) =~= (first + second.take(taken - 1)).push(
                second[taken - 1],
            ));
        }
    }
    proof {
        if count > 0 {
            assert(chosen@.len() == count);
            assert(leader_views(chosen@) =~= (first + second).take(count as int));
        } else {
            assert(second.take(taken) =~= second);
        }
    }
    chosen
}

/// The next round starts one leader further on.
pub proof fn window_rotates(leaders: Seq<LeaderView>, round: int, position: int)
    requires
        leaders.len() > 0,
        round >= 0,
        0 <= position < leaders.len(),
    ensures
        window(leaders, round + 1)[position] == window(leaders, round)[(position + 1)
            % leaders.len() as int],
{
    let count = leaders.len() as int;
    vstd::arithmetic::div_mod::lemma_add_mod_noop(round + 1, position, count);
    vstd::arithmetic::div_mod::lemma_add_mod_noop(round, position + 1, count);
    vstd::arithmetic::div_mod::lemma_mod_bound(position, count);
    if position + 1 < count {
        vstd::arithmetic::div_mod::lemma_small_mod((position + 1) as nat, count as nat);
        vstd::arithmetic::div_mod::lemma_small_mod(position as nat, count as nat);
        assert(((round + 1) % count + position) % count == (round + 1 + position) % count);
        assert((round % count + (position + 1)) % count == (round + position + 1) % count);
    } else {
        vstd::arithmetic::div_mod::lemma_mod_self_0(count);
        vstd::arithmetic::div_mod::lemma_small_mod(position as nat, count as nat);
        assert(((round + 1) % count + position) % count == (round + 1 + position) % count);
        assert((position + 1) % count == 0);
        vstd::arithmetic::div_mod::lemma_mod_add_multiples_vanish(round, count);
        assert(round + 1 + position == count + round);
        vstd::arithmetic::div_mod::lemma_mod_twice(round, count);
    }
}

/// Everyone whose turn it is leads first: with one target and a healthy turn holder, the batch goes
/// to the leader at `round` modulo the number of leaders.
pub proof fn turn_holder_is_first_target(
    leaders: Seq<LeaderView>,
    health: Map<Seq<char>, LeaderHealth>,
    fanout: int,
    round: int,
)
    requires
        leaders.len() > 0,
        round >= 0,
        fanout > 0,
        healthy(leaders[round % leaders.len() as int], health),
    ensures
        targets(leaders, health, fanout, round)[0] == leaders[round % leaders.len() as int],
{
    let count = leaders.len() as int;
    vstd::arithmetic::div_mod::lemma_mod_twice(round, count);
    let ordered = window(leaders, round);
    assert(ordered[0] == leaders[round % count]);
    if fanout < count {
        with_health_grows(ordered, health, true, 1);
        assert(ordered.take(1).drop_last() =~= Seq::<LeaderView>::empty());
        assert(ordered.take(1).last() == ordered[0]);
        health_splits_leaders(ordered, health);
        assert(with_health(Seq::<LeaderView>::empty(), health, true) =~= Seq::<LeaderView>::empty());
        let first = with_health(ordered.take(1), health, true);
        assert(first =~= Seq::<LeaderView>::empty().push(ordered[0]));
        assert(with_health(ordered, health, true)[0] == first[0]);
    }
}

/// A batch goes to as many leaders as the fanout asks for and there are.
pub proof fn fanout_is_met(
    leaders: Seq<LeaderView>,
    health: Map<Seq<char>, LeaderHealth>,
    fanout: int,
    round: int,
)
    requires
        fanout > 0,
    ensures
        targets(leaders, health, fanout, round).len() == if fanout < leaders.len() {
            fanout as nat
        } else {
            leaders.len()
        },
{
    health_splits_leaders(window(leaders, round), health);
}

/// The position of a leader in the window is unique.
proof fn window_positions(leaders: Seq<LeaderView>, round: int, left: int, right: int)
    requires
        leaders.len() > 0,
        round >= 0,
        0 <= left < right < leaders.len(),
    ensures
        (round % leaders.len() as int + left) % leaders.len() as int != (round
            % leaders.len() as int + right) % leaders.len() as int,
{
    let count = leaders.len() as int;
    let start = round % count;
    vstd::arithmetic::div_mod::lemma_mod_bound(round, count);
    let reduce = |offset: int|
        if start + offset < count {
            start + offset
        } else {
            start + offset - count
        };
    assert forall|offset: int| 0 <= offset < count implies (start + offset) % count == #[trigger] reduce(
        offset,
    ) by {
        if start + offset < count {
            vstd::arithmetic::div_mod::lemma_small_mod((start + offset) as nat, count as nat);
        } else {
            vstd::arithmetic::div_mod::lemma_fundamental_div_mod_converse(
                start + offset,
                count,
                1,
                start + offset - count,
            );
        }
    }
    assert(reduce(left) != reduce(right));
}

/// Turn order repeats nobody.
pub proof fn window_is_distinct(leaders: Seq<LeaderView>, round: int)
    requires
        leaders.no_duplicates(),
        round >= 0,
    ensures
        window(leaders, round).no_duplicates(),
{
    let ordered = window(leaders, round);
    let count = leaders.len() as int;
    assert forall|i: int, j: int|
        0 <= i < ordered.len() && 0 <= j < ordered.len() && i != j implies ordered[i]
        != ordered[j] by {
        if i < j {
            window_positions(leaders, round, i, j);
        } else {
            window_positions(leaders, round, j, i);
        }
        vstd::arithmetic::div_mod::lemma_mod_bound(round % count + i, count);
        vstd::arithmetic::div_mod::lemma_mod_bound(round % count + j, count);
    }
}

/// Sorting out by health repeats nobody, takes only leaders of the list, and takes every one on its
/// side.
proof fn with_health_selects(
    leaders: Seq<LeaderView>,
    health: Map<Seq<char>, LeaderHealth>,
    wanted: bool,
)
    ensures
        leaders.no_duplicates() ==> with_health(leaders, health, wanted).no_duplicates(),
        forall|leader: LeaderView|
            #![trigger with_health(leaders, health, wanted).contains(leader)]
            with_health(leaders, health, wanted).contains(leader) <==> leaders.contains(leader)
                && healthy(leader, health) == wanted,
    decreases leaders.len(),
{
    let chosen = with_health(leaders, health, wanted);
    if leaders.len() == 0 {
        assert(chosen =~= Seq::<LeaderView>::empty());
    } else {
        let front = leaders.drop_last();
        let rest = with_health(front, health, wanted);
        with_health_selects(front, health, wanted);
        assert(leaders =~= front.push(leaders.last()));
        assert forall|leader: LeaderView| #[trigger] chosen.contains(leader) <==> leaders.contains(
            leader,
        ) && healthy(leader, health) == wanted by {
            broadcast use vstd::seq_lib::group_seq_properties;

        }
        if leaders.no_duplicates() {
            assert(front.no_duplicates());
            assert(!front.contains(leaders.last())) by {
                if front.contains(leaders.last()) {
                    let at = choose|at: int| 0 <= at < front.len() && front[at] == leaders.last();
                    assert(leaders[at] == leaders[leaders.len() - 1]);
                }
            }
            assert(!rest.contains(leaders.last()));
        }
    }
}

/// A batch is never forwarded to the same leader twice, and only to known leaders.
pub proof fn targets_are_distinct_leaders(
    leaders: Seq<LeaderView>,
    health: Map<Seq<char>, LeaderHealth>,
    fanout: int,
    round: int,
)
    requires
        leaders.no_duplicates(),
        round >= 0,
        fanout > 0,
    ensures
        targets(leaders, health, fanout, round).no_duplicates(),
        forall|leader: LeaderView| #[trigger]
            targets(leaders, health, fanout, round).contains(leader) ==> leaders.contains(leader),
{
    let ordered = window(leaders, round);
    let chosen = targets(leaders, health, fanout, round);
    window_is_distinct(leaders, round);
    assert forall|leader: LeaderView| #[trigger] ordered.contains(leader) implies leaders.contains(
        leader,
    ) by {
        let at = choose|at: int| 0 <= at < ordered.len() && ordered[at] == leader;
        let count = leaders.len() as int;
        vstd::arithmetic::div_mod::lemma_mod_bound(round % count + at, count);
        assert(leaders[(round % count + at) % count] == leader);
    }
    if fanout < leaders.len() {
        let preferred = with_health(ordered, health, true);
        let spare = with_health(ordered, health, false);
        with_health_selects(ordered, health, true);
        with_health_selects(ordered, health, false);
        health_splits_leaders(ordered, health);
        let all = preferred + spare;
        assert forall|i: int, j: int|
            0 <= i < all.len() && 0 <= j < all.len() && i != j implies all[i] != all[j] by {
            if i < preferred.len() && j >= preferred.len() {
                assert(preferred.contains(all[i]));
                assert(spare.contains(spare[j - preferred.len()]));
            } else if j < preferred.len() && i >= preferred.len() {
                assert(preferred.contains(all[j]));
                assert(spare.contains(spare[i - preferred.len()]));
            }
        }
        assert forall|leader: LeaderView| #[trigger] chosen.contains(leader) implies leaders.contains(
            leader,
        ) by {
            let at = choose|at: int| 0 <= at < chosen.len() && chosen[at] == leader;
            if at < preferred.len() {
                assert(preferred.contains(preferred[at]));
            } else {
                assert(spare.contains(spare[at - preferred.len()]));
            }
        }
    }
}

/// With a partial fanout, an unhealthy leader is used only once every healthy leader is.
pub proof fn unhealthy_leaders_are_a_last_resort(
    leaders: Seq<LeaderView>,
    health: Map<Seq<char>, LeaderHealth>,
    fanout: int,
    round: int,
    spare: LeaderView,
    preferred: LeaderView,
)
    requires
        round >= 0,
        0 < fanout < leaders.len(),
        targets(leaders, health, fanout, round).contains(spare),
        !healthy(spare, health),
        leaders.contains(preferred),
        healthy(preferred, health),
    ensures
        targets(leaders, health, fanout, round).contains(preferred),
{
    let ordered = window(leaders, round);
    let chosen = targets(leaders, health, fanout, round);
    let first = with_health(ordered, health, true);
    with_health_selects(ordered, health, true);
    with_health_selects(ordered, health, false);
    health_splits_leaders(ordered, health);
    let at = choose|at: int| 0 <= at < chosen.len() && chosen[at] == spare;
    if at < first.len() {
        assert(first.contains(first[at]));
    }
    let place = choose|place: int| 0 <= place < leaders.len() && leaders[place] == preferred;
    let offset = window_reaches(leaders, round, place);
    assert(ordered[offset] == preferred);
    assert(ordered.contains(preferred));
    assert(first.contains(preferred));
    let position = choose|position: int| 0 <= position < first.len() && first[position] == preferred;
    assert(chosen[position] == preferred);
}

/// Every leader has a place in turn order.
proof fn window_reaches(leaders: Seq<LeaderView>, round: int, place: int) -> (offset: int)
    requires
        round >= 0,
        0 <= place < leaders.len(),
    ensures
        0 <= offset < leaders.len(),
        window(leaders, round)[offset] == leaders[place],
{
    let count = leaders.len() as int;
    let start = round % count;
    vstd::arithmetic::div_mod::lemma_mod_bound(round, count);
    if place >= start {
        vstd::arithmetic::div_mod::lemma_small_mod(place as nat, count as nat);
        place - start
    } else {
        vstd::arithmetic::div_mod::lemma_fundamental_div_mod_converse(
            place + count,
            count,
            1,
            place,
        );
        place - start + count
    }
}

/// A fanout that covers all leaders reaches every one of them, healthy or not.
pub proof fn full_fanout_reaches_everyone(
    leaders: Seq<LeaderView>,
    health: Map<Seq<char>, LeaderHealth>,
    fanout: int,
    round: int,
    leader: LeaderView,
)
    requires
        round >= 0,
        fanout >= leaders.len(),
        leaders.contains(leader),
    ensures
        targets(leaders, health, fanout, round).contains(leader),
{
    let place = choose|place: int| 0 <= place < leaders.len() && leaders[place] == leader;
    let offset = window_reaches(leaders, round, place);
    assert(window(leaders, round)[offset] == leader);
}

/// Returns the leader with the given public key; of several the first.
pub fn leader_by_id<'a>(leaders: &'a Vec<Leader>, leader_id: &String) -> (found: Option<&'a Leader>)
    ensures
        match found {
            Some(leader) => exists|i: int|
                {
                    &&& 0 <= i < leaders@.len()
                    &&& *leader == #[trigger] leaders@[i]
                    &&& leaders@[i].public_key@ == leader_id@
                    &&& forall|j: int| 0 <= j < i ==> (#[trigger] leaders@[j]).public_key@ != leader_id@
                },
            None => forall|i: int|
                0 <= i < leaders@.len() ==> (#[trigger] leaders@[i]).public_key@ != leader_id@,
        },
{
    let mut i: usize = 0;
    while i < leaders.len()
        invariant
            i <= leaders@.len(),
            forall|j: int| 0 <= j < i ==> (#[trigger] leaders@[j]).public_key@ != leader_id@,
        decreases leaders.len() - i,
    {
        if leaders[i].public_key == *leader_id {
            return Some(&leaders[i]);
        }
        i += 1;
    }
    None
}

/// Where a leader comes to stand when leaders are sorted out: behind those in front of it on its
/// side.
proof fn sorted_out_place(
    leaders: Seq<LeaderView>,
    health: Map<Seq<char>, LeaderHealth>,
    wanted: bool,
    place: int,
)
    requires
        0 <= place < leaders.len(),
        healthy(leaders[place], health) == wanted,
    ensures
        with_health(leaders.take(place), health, wanted).len() < with_health(
            leaders,
            health,
            wanted,
        ).len(),
        with_health(leaders, health, wanted)[with_health(
            leaders.take(place),
            health,
            wanted,
        ).len() as int] == leaders[place],
{
    let upto = leaders.take(place + 1);
    assert(upto.drop_last() =~= leaders.take(place));
    assert(upto.last() == leaders[place]);
    with_health_grows(leaders, health, wanted, place + 1);
    let front = with_health(leaders.take(place), health, wanted);
    assert(with_health(upto, health, wanted) == front.push(leaders[place]));
    assert(with_health(upto, health, wanted)[front.len() as int] == leaders[place]);
}

proof fn sorted_out_order(
    leaders: Seq<LeaderView>,
    health: Map<Seq<char>, LeaderHealth>,
    wanted: bool,
    left: int,
    right: int,
)
    requires
        0 <= left < right < leaders.len(),
        healthy(leaders[left], health) == wanted,
    ensures
        with_health(leaders.take(left), health, wanted).len() < with_health(
            leaders.take(right),
            health,
            wanted,
        ).len(),
{
    let front = leaders.take(right);
    assert(front[left] == leaders[left]);
    assert(front.take(left) =~= leaders.take(left));
    sorted_out_place(front, health, wanted, left);
}

/// The leader that comes `offset` behind the one whose turn the round is.
pub open spec fn in_turn(leaders: Seq<LeaderView>, round: int, offset: int) -> LeaderView {
    leaders[(round + offset) % leaders.len() as int]
}

proof fn window_is_in_turn(leaders: Seq<LeaderView>, round: int, offset: int)
    requires
        round >= 0,
        0 <= offset < leaders.len(),
    ensures
        window(leaders, round)[offset] == in_turn(leaders, round, offset),
{
    vstd::arithmetic::div_mod::lemma_add_mod_noop_right(offset, round, leaders.len() as int);
    assert((round % leaders.len() as int + offset) % leaders.len() as int == (round + offset)
        % leaders.len() as int);
}

/// What a call of [`leader_targets`] answers when the fanout covers all leaders: all of them in
/// turn, the one at `round` modulo their number first.
pub proof fn full_fanout_goes_round(
    leaders: Vec<Leader>,
    health: HealthMap,
    leader_fanout: usize,
    round: u64,
    chosen: Vec<Leader>,
    offset: int,
)
    requires
        call_ensures(leader_targets, (&leaders, &health, leader_fanout, round), chosen),
        leader_fanout >= leaders@.len(),
        0 <= offset < leaders@.len(),
    ensures
        chosen@.len() == leaders@.len(),
        chosen@[offset]@ == leaders@[(round + offset) % leaders@.len() as int]@,
{
    let views = leader_views(leaders@);
    window_is_in_turn(views, round as int, offset);
    assert(leader_views(chosen@).len() == chosen@.len());
    assert(window(views, round as int).len() == leaders@.len());
    assert(leader_views(chosen@)[offset] == window(views, round as int)[offset]);
    vstd::arithmetic::div_mod::lemma_mod_bound(round + offset, leaders@.len() as int);
}

/// What a call of [`leader_targets`] answers when the fanout is partial: as many leaders as it asks
/// for, and no healthy one behind an unhealthy one. Of two leaders that are healthy alike, the one
/// that comes later in turn is chosen only behind the other.
pub proof fn partial_fanout_goes_round(
    leaders: Vec<Leader>,
    health: HealthMap,
    leader_fanout: usize,
    round: u64,
    chosen: Vec<Leader>,
    sooner: int,
    later: int,
)
    requires
        call_ensures(leader_targets, (&leaders, &health, leader_fanout, round), chosen),
        0 < leader_fanout < leaders@.len(),
        leader_views(leaders@).no_duplicates(),
        0 <= sooner < later < leaders@.len(),
        ({
            let views = leader_views(leaders@);
            healthy(in_turn(views, round as int, sooner), health@) == healthy(
                in_turn(views, round as int, later),
                health@,
            )
        }),
        leader_views(chosen@).contains(in_turn(leader_views(leaders@), round as int, later)),
    ensures
        chosen@.len() == leader_fanout,
        forall|i: int, j: int|
            0 <= i < j < chosen@.len() && healthy(#[trigger] chosen@[j]@, health@) ==> healthy(
                #[trigger] chosen@[i]@,
                health@,
            ),
        exists|i: int, j: int|
            0 <= i < j < chosen@.len() && #[trigger] chosen@[i]@ == in_turn(
                leader_views(leaders@),
                round as int,
                sooner,
            ) && #[trigger] chosen@[j]@ == in_turn(leader_views(leaders@), round as int, later),
{
    let views = leader_views(leaders@);
    let turn = round as int;
    let ordered = window(views, turn);
    let good = with_health(ordered, health@, true);
    let bad = with_health(ordered, health@, false);
    let all = preference(views, health@, turn);
    let picked = leader_views(chosen@);
    window_is_in_turn(views, turn, sooner);
    window_is_in_turn(views, turn, later);
    window_is_distinct(views, turn);
    with_health_selects(ordered, health@, true);
    with_health_selects(ordered, health@, false);
    health_splits_leaders(ordered, health@);
    assert(picked == all.take(leader_fanout as int));
    assert(picked.len() == leader_fanout);
    assert(all.no_duplicates()) by {
        assert forall|i: int, j: int| 0 <= i < all.len() && 0 <= j < all.len() && i != j implies all[i]
            != all[j] by {
            if i < good.len() {
                assert(good.contains(good[i]));
            } else {
                assert(bad.contains(bad[i - good.len()]));
            }
            if j < good.len() {
                assert(good.contains(good[j]));
            } else {
                assert(bad.contains(bad[j - good.len()]));
            }
        }
    }
    assert forall|i: int, j: int|
        0 <= i < j < chosen@.len() && healthy(#[trigger] chosen@[j]@, health@) implies healthy(
        #[trigger] chosen@[i]@,
        health@,
    ) by {
        assert(picked[i] == chosen@[i]@);
        assert(picked[j] == chosen@[j]@);
        assert(picked[i] == all[i]);
        assert(picked[j] == all[j]);
        if j >= good.len() {
            assert(bad.contains(bad[j - good.len()]));
        }
        assert(good.contains(good[i]));
    }
    let wanted = healthy(ordered[sooner], health@);
    sorted_out_place(ordered, health@, wanted, sooner);
    sorted_out_place(ordered, health@, wanted, later);
    sorted_out_order(ordered, health@, wanted, sooner, later);
    let start = if wanted {
        0
    } else {
        good.len() as int
    };
    let i = start + with_health(ordered.take(sooner), health@, wanted).len();
    let j = start + with_health(ordered.take(later), health@, wanted).len();
    assert(all[i] == ordered[sooner]);
    assert(all[j] == ordered[later]);
    let at = choose|at: int| 0 <= at < picked.len() && picked[at] == ordered[later];
    assert(picked[at] == all[at]);
    assert(at == j);
    assert(picked[i] == all[i]);
    assert(picked[i] == chosen@[i]@);
    assert(picked[j] == chosen@[j]@);
}

/// What a call of [`leader_targets`] answers for a fanout of zero: nobody if the leader whose turn
/// it is is unhealthy, and everyone otherwise.
pub proof fn zero_fanout_is_all_or_nothing(
    leaders: Vec<Leader>,
    health: HealthMap,
    round: u64,
    chosen: Vec<Leader>,
)
    requires
        call_ensures(leader_targets, (&leaders, &health, 0usize, round), chosen),
        leaders@.len() > 0,
    ensures
        healthy(leaders@[round as int % leaders@.len() as int]@, health@) ==> chosen@.len()
            == leaders@.len(),
        !healthy(leaders@[round as int % leaders@.len() as int]@, health@) ==> chosen@.len() == 0,
{
    let views = leader_views(leaders@);
    window_is_in_turn(views, round as int, 0);
    vstd::arithmetic::div_mod::lemma_mod_bound(round as int, leaders@.len() as int);
    health_splits_leaders(window(views, round as int), health@);
    assert(leader_views(chosen@).len() == chosen@.len());
}

/// The leaders of a round in turn, as [`leader_window`] lists them: the one at `round` modulo their
/// number first, and each behind the one whose turn was before.
pub proof fn window_goes_round(
    leaders: Vec<Leader>,
    round: u64,
    ordered: Vec<Leader>,
    offset: int,
)
    requires
        call_ensures(leader_window, (&leaders, round), ordered),
        leaders@.len() > 0,
        0 <= offset < leaders@.len(),
    ensures
        ordered@.len() == leaders@.len(),
        ordered@[offset]@ == leaders@[(round + offset) % leaders@.len() as int]@,
{
    let views = leader_views(leaders@);
    window_is_in_turn(views, round as int, offset);
    assert(leader_views(ordered@).len() == ordered@.len());
    assert(leader_views(ordered@)[offset] == window(views, round as int)[offset]);
    vstd::arithmetic::div_mod::lemma_mod_bound(round + offset, leaders@.len() as int);
}

/// A leader counts as healthy until it is known not to be.
pub proof fn unknown_leaders_are_healthy(leader: Leader, health: HealthMap, verdict: bool)
    requires
        call_ensures(is_healthy, (&leader, &health), verdict),
    ensures
        !health@.dom().contains(leader.public_key@) ==> verdict,
        health@.dom().contains(leader.public_key@) ==> verdict
            == health@[leader.public_key@].healthy,
{
}

} // verus!

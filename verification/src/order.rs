//! Lexicographic order on byte strings and texts, and a stable insertion sort.

use vstd::prelude::*;

verus! {

/// Lexicographic order of two sequences whose items are compared by `rank`.
pub open spec fn lex_at_most<T>(left: Seq<T>, right: Seq<T>, rank: spec_fn(T) -> int) -> bool
    decreases left.len(),
{
    if left.len() == 0 {
        true
    } else if right.len() == 0 {
        false
    } else if rank(left[0]) != rank(right[0]) {
        rank(left[0]) < rank(right[0])
    } else {
        lex_at_most(left.drop_first(), right.drop_first(), rank)
    }
}

/// Order of byte strings.
pub open spec fn bytes_at_most(left: Seq<u8>, right: Seq<u8>) -> bool {
    lex_at_most(left, right, |byte: u8| byte as int)
}

/// Order of texts by code point.
pub open spec fn text_at_most(left: Seq<char>, right: Seq<char>) -> bool {
    lex_at_most(left, right, |ch: char| ch as int)
}

/// Any two sequences compare in at least one direction.
pub proof fn lex_is_total<T>(left: Seq<T>, right: Seq<T>, rank: spec_fn(T) -> int)
    ensures
        lex_at_most(left, right, rank) || lex_at_most(right, left, rank),
    decreases left.len(),
{
    if left.len() > 0 && right.len() > 0 && rank(left[0]) == rank(right[0]) {
        lex_is_total(left.drop_first(), right.drop_first(), rank);
    }
}

/// The order is transitive.
pub proof fn lex_is_transitive<T>(a: Seq<T>, b: Seq<T>, c: Seq<T>, rank: spec_fn(T) -> int)
    requires
        lex_at_most(a, b, rank),
        lex_at_most(b, c, rank),
    ensures
        lex_at_most(a, c, rank),
    decreases a.len(),
{
    if a.len() > 0 && b.len() > 0 && c.len() > 0 && rank(a[0]) == rank(b[0]) && rank(b[0]) == rank(
        c[0],
    ) {
        lex_is_transitive(a.drop_first(), b.drop_first(), c.drop_first(), rank);
    }
}

/// Sequences that compare in both directions are equal, if `rank` tells items apart.
pub proof fn lex_is_antisymmetric<T>(left: Seq<T>, right: Seq<T>, rank: spec_fn(T) -> int)
    requires
        lex_at_most(left, right, rank),
        lex_at_most(right, left, rank),
        forall|x: T, y: T| #[trigger] rank(x) == #[trigger] rank(y) ==> x == y,
    ensures
        left == right,
    decreases left.len(),
{
    if left.len() > 0 && right.len() > 0 {
        lex_is_antisymmetric(left.drop_first(), right.drop_first(), rank);
        assert(left =~= seq![left[0]] + left.drop_first());
        assert(right =~= seq![right[0]] + right.drop_first());
    } else {
        assert(left =~= right);
    }
}

/// Skipping a common prefix does not change how two sequences compare.
proof fn lex_skips_prefix<T>(left: Seq<T>, right: Seq<T>, rank: spec_fn(T) -> int, count: int)
    requires
        0 <= count <= left.len(),
        count <= right.len(),
        forall|i: int| 0 <= i < count ==> left[i] == right[i],
    ensures
        lex_at_most(left, right, rank) == lex_at_most(left.skip(count), right.skip(count), rank),
    decreases count,
{
    if count > 0 {
        lex_skips_prefix(left.drop_first(), right.drop_first(), rank, count - 1);
        assert(left.drop_first().skip(count - 1) =~= left.skip(count));
        assert(right.drop_first().skip(count - 1) =~= right.skip(count));
    } else {
        assert(left.skip(0) =~= left);
        assert(right.skip(0) =~= right);
    }
}

/// Returns whether `left` orders at or before `right`.
pub fn bytes_le(left: &Vec<u8>, right: &Vec<u8>) -> (ordered: bool)
    ensures
        ordered == bytes_at_most(left@, right@),
{
    let ghost rank = |byte: u8| byte as int;
    let mut i: usize = 0;
    while i < left.len() && i < right.len() && left[i] == right[i]
        invariant
            i <= left.len(),
            i <= right.len(),
            forall|j: int| 0 <= j < i ==> left@[j] == right@[j],
        decreases left.len() - i,
    {
        i += 1;
    }
    proof {
        lex_skips_prefix(left@, right@, rank, i as int);
        if i < left.len() && i < right.len() {
            assert(left@.skip(i as int)[0] == left@[i as int]);
            assert(right@.skip(i as int)[0] == right@[i as int]);
        }
    }
    if i >= left.len() {
        true
    } else if i >= right.len() {
        false
    } else {
        left[i] < right[i]
    }
}

/// Returns whether `left` orders at or before `right`.
pub fn text_le(left: &str, right: &str) -> (ordered: bool)
    ensures
        ordered == text_at_most(left@, right@),
{
    let left = crate::text::chars_of(left);
    let right = crate::text::chars_of(right);
    let ghost rank = |ch: char| ch as int;
    let mut i: usize = 0;
    while i < left.len() && i < right.len() && left[i] == right[i]
        invariant
            i <= left.len(),
            i <= right.len(),
            forall|j: int| 0 <= j < i ==> left@[j] == right@[j],
        decreases left.len() - i,
    {
        i += 1;
    }
    proof {
        lex_skips_prefix(left@, right@, rank, i as int);
        if i < left.len() && i < right.len() {
            assert(left@.skip(i as int)[0] == left@[i as int]);
            assert(right@.skip(i as int)[0] == right@[i as int]);
        }
    }
    if i >= left.len() {
        true
    } else if i >= right.len() {
        false
    } else {
        left[i] < right[i]
    }
}

/// Returns whether two byte strings are equal.
pub fn bytes_eq(left: &Vec<u8>, right: &Vec<u8>) -> (equal: bool)
    ensures
        equal == (left@ == right@),
{
    if left.len() != right.len() {
        return false;
    }
    let mut i: usize = 0;
    while i < left.len()
        invariant
            i <= left.len(),
            left.len() == right.len(),
            forall|j: int| 0 <= j < i ==> left@[j] == right@[j],
        decreases left.len() - i,
    {
        if left[i] != right[i] {
            return false;
        }
        i += 1;
    }
    proof {
        assert(left@ =~= right@);
    }
    true
}

/// Items with a total order.
pub trait Ranked: Sized {
    /// Whether `self` orders at or before `other`.
    spec fn at_most(&self, other: &Self) -> bool;

    /// Any two items compare.
    proof fn total(left: &Self, right: &Self)
        ensures
            left.at_most(right) || right.at_most(left),
    ;

    /// The order is transitive.
    proof fn transitive(a: &Self, b: &Self, c: &Self)
        requires
            a.at_most(b),
            b.at_most(c),
        ensures
            a.at_most(c),
    ;

    /// Returns whether `self` orders at or before `other`.
    fn le(&self, other: &Self) -> (ordered: bool)
        ensures
            ordered == self.at_most(other),
    ;
}

/// Whether every item orders at or before every later one.
pub open spec fn ascending<T: Ranked>(items: Seq<T>) -> bool {
    forall|i: int, j: int| 0 <= i < j < items.len() ==> #[trigger] items[i].at_most(&#[trigger] items[j])
}

/// The items that order exactly like a given one.
pub open spec fn alike<T: Ranked>(item: T) -> spec_fn(T) -> bool {
    |other: T| item.at_most(&other) && other.at_most(&item)
}

/// Whether `sorted` holds the items in ascending order, and those that order alike in the order in
/// which they were given.
pub open spec fn sorts<T: Ranked>(items: Seq<T>, sorted: Seq<T>) -> bool {
    &&& ascending(sorted)
    &&& sorted.len() == items.len()
    &&& sorted.to_multiset() == items.to_multiset()
    &&& forall|item: T| sorted.filter(#[trigger] alike(item)) == items.filter(alike(item))
}

/// Where no item passes, nothing is left.
proof fn nothing_passes<T>(items: Seq<T>, pass: spec_fn(T) -> bool)
    requires
        forall|i: int| 0 <= i < items.len() ==> !pass(#[trigger] items[i]),
    ensures
        items.filter(pass) == Seq::<T>::empty(),
    decreases items.len(),
{
    reveal(Seq::filter);
    if items.len() > 0 {
        nothing_passes(items.drop_last(), pass);
    }
}

/// What passes of one item and a list: the item, if it passes, and what passes of the list.
proof fn first_passes<T>(first: T, rest: Seq<T>, pass: spec_fn(T) -> bool)
    ensures
        (seq![first] + rest).filter(pass) == (if pass(first) {
            seq![first]
        } else {
            Seq::<T>::empty()
        }) + rest.filter(pass),
{
    Seq::filter_distributes_over_add(seq![first], rest, pass);
    one_passes(first, pass);
}

proof fn one_passes<T>(item: T, pass: spec_fn(T) -> bool)
    ensures
        seq![item].filter(pass) == if pass(item) {
            seq![item]
        } else {
            Seq::<T>::empty()
        },
{
    reveal(Seq::filter);
    assert(seq![item].drop_last() =~= Seq::<T>::empty());
    assert(Seq::<T>::empty().filter(pass) =~= Seq::<T>::empty());
    if pass(item) {
        assert(Seq::<T>::empty().push(item) =~= seq![item]);
    }
}

/// Placing an item before the first that it orders at or before keeps every list of items that
/// order alike, with the item in front.
proof fn placing_keeps_alike<T: Ranked>(placed: Seq<T>, item: T, at: int, like: T)
    requires
        0 <= at <= placed.len(),
        forall|k: int| 0 <= k < at ==> !item.at_most(&#[trigger] placed[k]),
    ensures
        placed.insert(at, item).filter(alike(like)) == (seq![item] + placed).filter(alike(like)),
{
    let pass = alike(like);
    let front = placed.take(at);
    let back = placed.skip(at);
    assert(placed =~= front + back);
    assert(placed.insert(at, item) =~= front + (seq![item] + back));
    Seq::filter_distributes_over_add(front, back, pass);
    Seq::filter_distributes_over_add(front, seq![item] + back, pass);
    first_passes(item, back, pass);
    first_passes(item, placed, pass);
    if pass(item) {
        assert forall|k: int| 0 <= k < front.len() implies !pass(#[trigger] front[k]) by {
            if pass(front[k]) {
                T::transitive(&item, &like, &front[k]);
                assert(front[k] == placed[k]);
            }
        }
        nothing_passes(front, pass);
    }
}

/// Sorts items in ascending order, keeping every one of them. Items that order alike keep their
/// order.
pub fn sort<T: Ranked>(items: Vec<T>) -> (sorted: Vec<T>)
    ensures
        sorts(items@, sorted@),
{
    let mut rest = items;
    let mut sorted: Vec<T> = Vec::new();
    proof {
        broadcast use vstd::seq_lib::group_to_multiset_ensures;

        assert(rest@ + sorted@ =~= items@);
        assert(rest@.to_multiset() =~= rest@.to_multiset().add(sorted@.to_multiset()));
    }
    while rest.len() > 0
        invariant
            ascending(sorted@),
            rest@.to_multiset().add(sorted@.to_multiset()) == items@.to_multiset(),
            rest@.len() + sorted@.len() == items@.len(),
            forall|like: T|
                (rest@ + sorted@).filter(#[trigger] alike(like)) == items@.filter(alike(like)),
        decreases rest.len(),
    {
        let ghost before = rest@;
        let ghost placed = sorted@;
        let item = rest.pop().unwrap();
        let mut at: usize = 0;
        while at < sorted.len() && !item.le(&sorted[at])
            invariant
                sorted@ == placed,
                at <= sorted.len(),
                forall|k: int| 0 <= k < at ==> !item.at_most(&#[trigger] sorted@[k]),
            ensures
                sorted@ == placed,
                at <= sorted.len(),
                forall|k: int| 0 <= k < at ==> !item.at_most(&#[trigger] sorted@[k]),
                at < sorted.len() ==> item.at_most(&sorted@[at as int]),
            decreases sorted.len() - at,
        {
            at = at + 1;
        }
        sorted.insert(at, item);
        proof {
            broadcast use vstd::seq_lib::group_to_multiset_ensures;

            assert(before =~= rest@.push(item));
            assert(rest@.to_multiset().add(sorted@.to_multiset()) =~= before.to_multiset().add(
                placed.to_multiset(),
            ));
            assert forall|i: int, j: int|
                0 <= i < j < sorted@.len() implies #[trigger] sorted@[i].at_most(
                &#[trigger] sorted@[j],
            ) by {
                if i < at && j == at {
                    T::total(&placed[i], &item);
                } else if i == at && j > at {
                    if j - 1 > at {
                        T::transitive(&item, &placed[at as int], &placed[j - 1]);
                    }
                } else if i < at && j > at {
                    assert(placed[i].at_most(&placed[j - 1]));
                } else if i > at {
                    assert(placed[i - 1].at_most(&placed[j - 1]));
                } else {
                    assert(placed[i].at_most(&placed[j]));
                }
            }
            assert forall|like: T|
                (rest@ + sorted@).filter(#[trigger] alike(like)) == items@.filter(
                    alike(like),
                ) by {
                let pass = alike(like);
                placing_keeps_alike(placed, item, at as int, like);
                assert(before + placed =~= rest@ + (seq![item] + placed));
                Seq::filter_distributes_over_add(rest@, seq![item] + placed, pass);
                Seq::filter_distributes_over_add(rest@, sorted@, pass);
            }
        }
    }
    proof {
        broadcast use vstd::seq_lib::group_to_multiset_ensures;

        assert(rest@ =~= Seq::<T>::empty());
        assert(rest@ + sorted@ =~= sorted@);
        assert(sorted@.to_multiset() =~= items@.to_multiset());
    }
    sorted
}

/// Sorting has one result: two lists that sort the same items are the same list.
pub proof fn sorting_is_determined<T: Ranked>(items: Seq<T>, left: Seq<T>, right: Seq<T>)
    requires
        sorts(items, left),
        sorts(items, right),
    ensures
        left == right,
{
    same_groups_same_list(left, right);
}

/// Ascending lists with the same items of every rank, in the same order, are the same list.
proof fn same_groups_same_list<T: Ranked>(left: Seq<T>, right: Seq<T>)
    requires
        ascending(left),
        ascending(right),
        left.len() == right.len(),
        forall|item: T| left.filter(#[trigger] alike(item)) == right.filter(alike(item)),
    ensures
        left == right,
    decreases left.len(),
{
    if left.len() == 0 {
        assert(left =~= right);
    } else {
        let first = left[0];
        let other = right[0];
        let rest = left.drop_first();
        let others = right.drop_first();
        assert(left =~= seq![first] + rest);
        assert(right =~= seq![other] + others);
        T::total(&first, &first);
        T::total(&other, &other);
        // The first item of each list stands at or before some item of the other.
        first_passes(first, rest, alike(first));
        first_passes(other, others, alike(other));
        assert(left.filter(alike(first))[0] == first);
        assert(right.filter(alike(other))[0] == other);
        passed_is_listed(right, alike(first), 0);
        passed_is_listed(left, alike(other), 0);
        let there = choose|i: int| 0 <= i < right.len() && right[i] == first;
        let here = choose|i: int| 0 <= i < left.len() && left[i] == other;
        assert(other.at_most(&first)) by {
            if there > 0 {
                assert(right[0].at_most(&right[there]));
            }
        }
        assert(first.at_most(&other)) by {
            if here > 0 {
                assert(left[0].at_most(&left[here]));
            }
        }
        first_passes(other, others, alike(first));
        assert(right.filter(alike(first))[0] == other);
        assert(first == other);
        assert forall|item: T|
            rest.filter(#[trigger] alike(item)) == others.filter(alike(item)) by {
            first_passes(first, rest, alike(item));
            first_passes(other, others, alike(item));
            let head = if alike(item)(first) {
                seq![first]
            } else {
                Seq::<T>::empty()
            };
            let count = head.len() as int;
            assert((head + rest.filter(alike(item))).skip(count) =~= rest.filter(alike(item)));
            assert((head + others.filter(alike(item))).skip(count) =~= others.filter(alike(item)));
        }
        assert forall|i: int, j: int| 0 <= i < j < rest.len() implies #[trigger] rest[i].at_most(
            &#[trigger] rest[j],
        ) by {
            assert(left[i + 1].at_most(&left[j + 1]));
        }
        assert forall|i: int, j: int|
            0 <= i < j < others.len() implies #[trigger] others[i].at_most(&#[trigger] others[j]) by {
            assert(right[i + 1].at_most(&right[j + 1]));
        }
        same_groups_same_list(rest, others);
    }
}

/// What passes of a list is in the list.
proof fn passed_is_listed<T>(items: Seq<T>, pass: spec_fn(T) -> bool, at: int)
    requires
        0 <= at < items.filter(pass).len(),
    ensures
        items.contains(items.filter(pass)[at]),
    decreases items.len(),
{
    reveal(Seq::filter);
    if items.len() > 0 {
        let front = items.drop_last();
        if at < front.filter(pass).len() {
            passed_is_listed(front, pass, at);
            let i = choose|i: int| 0 <= i < front.len() && front[i] == front.filter(pass)[at];
            assert(items[i] == items.filter(pass)[at]);
        } else {
            assert(items[items.len() - 1] == items.last());
        }
    }
}

/// Two items of a list have two places in any reordering of it.
pub(crate) proof fn both_are_placed<T>(list: Seq<T>, reordered: Seq<T>, i: int, j: int) -> (places: (
    int,
    int,
))
    requires
        list.to_multiset() == reordered.to_multiset(),
        0 <= i < j < list.len(),
    ensures
        0 <= places.0 < reordered.len(),
        0 <= places.1 < reordered.len(),
        places.0 != places.1,
        reordered[places.0] == list[i],
        reordered[places.1] == list[j],
{
    broadcast use vstd::seq_lib::group_to_multiset_ensures;

    assert(list.contains(list[i]) && list.contains(list[j]));
    assert(reordered.to_multiset().count(list[i]) > 0);
    assert(reordered.to_multiset().count(list[j]) > 0);
    assert(reordered.contains(list[i]) && reordered.contains(list[j]));
    let a = choose|a: int| 0 <= a < reordered.len() && reordered[a] == list[i];
    let b = if list[i] == list[j] {
        let rest = list.remove(i);
        assert(rest[j - 1] == list[j]);
        assert(rest.contains(list[i]));
        assert(rest.to_multiset() == list.to_multiset().remove(list[i]));
        assert(rest.to_multiset().count(list[i]) > 0);
        let others = reordered.remove(a);
        assert(others.to_multiset() == reordered.to_multiset().remove(list[i]));
        assert(others.contains(list[i]));
        let c = choose|c: int| 0 <= c < others.len() && others[c] == list[i];
        if c < a {
            c
        } else {
            c + 1
        }
    } else {
        choose|b: int| 0 <= b < reordered.len() && reordered[b] == list[j]
    };
    (a, b)
}

/// The first difference decides: of two sequences that agree up to a place, the one with the lower
/// item there comes strictly first. A sequence comes before everything that it begins.
pub proof fn first_difference_decides<T>(
    left: Seq<T>,
    right: Seq<T>,
    rank: spec_fn(T) -> int,
    at: int,
)
    ensures
        0 <= at < left.len() && at < right.len() && left.take(at) == right.take(at) && rank(left[at])
            < rank(right[at]) ==> lex_at_most(left, right, rank) && !lex_at_most(right, left, rank),
        left.is_prefix_of(right) ==> lex_at_most(left, right, rank),
        left.is_prefix_of(right) && left.len() < right.len() ==> !lex_at_most(right, left, rank),
    decreases left.len(),
{
    if left.len() > 0 && right.len() > 0 {
        let front = left.drop_first();
        let back = right.drop_first();
        if 0 < at < left.len() && at < right.len() && left.take(at) == right.take(at) {
            assert(left.take(at)[0] == right.take(at)[0]);
            assert(front.take(at - 1) =~= left.take(at).drop_first());
            assert(back.take(at - 1) =~= right.take(at).drop_first());
            first_difference_decides(front, back, rank, at - 1);
        }
        if left.is_prefix_of(right) {
            assert(left[0] == right[0]);
            assert(front.is_prefix_of(back));
            first_difference_decides(front, back, rank, 0);
        }
    }
}

/// What [`sort`] gives back is in order, holds exactly what it was given, and is no other list: sorting
/// a sorted list changes nothing.
pub proof fn sorting_is_idempotent<T: Ranked>(items: Vec<T>, sorted: Vec<T>, again: Vec<T>)
    requires
        call_ensures(sort::<T>, (items,), sorted),
        call_ensures(sort::<T>, (sorted,), again),
    ensures
        forall|i: int, j: int|
            0 <= i < j < sorted@.len() ==> #[trigger] sorted@[i].at_most(&#[trigger] sorted@[j]),
        sorted@.to_multiset() == items@.to_multiset(),
        again@ == sorted@,
{
    assert(sorts(sorted@, sorted@));
    sorting_is_determined(sorted@, again@, sorted@);
}

} // verus!

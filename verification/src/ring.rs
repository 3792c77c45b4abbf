//! Walking a ring: every position is followed by the next, and the last by the first.

use vstd::prelude::*;

verus! {

/// The position after `index` in a ring of `size`.
pub open spec fn successor(index: int, size: int) -> int {
    if index + 1 < size {
        index + 1
    } else {
        0
    }
}

/// The position `steps` after `start` in a ring of `size`.
pub open spec fn position(start: int, steps: int, size: int) -> int {
    (start + steps) % size
}

/// How many of the first `steps` positions of a walk from `start` are at `index`.
pub open spec fn visits(index: int, start: int, steps: int, size: int) -> int {
    (steps + size - 1 - distance(start, index, size)) / size
}

/// How many steps lead from `start` to `index`.
pub open spec fn distance(start: int, index: int, size: int) -> int {
    if index >= start {
        index - start
    } else {
        index + size - start
    }
}

/// Returns the position after `index` in a ring of `size`.
pub fn next_index(index: usize, size: usize) -> (next: usize)
    requires
        index < size,
    ensures
        next == successor(index as int, size as int),
{
    if index + 1 < size {
        index + 1
    } else {
        0
    }
}

/// One step more leads to the successor.
pub proof fn step(start: int, steps: int, size: int)
    requires
        0 <= start < size,
        0 <= steps,
    ensures
        0 <= position(start, steps, size) < size,
        position(start, steps + 1, size) == successor(position(start, steps, size), size),
        position(start, 0, size) == start,
{
    let q = (start + steps) / size;
    let r = (start + steps) % size;
    vstd::arithmetic::div_mod::lemma_fundamental_div_mod(start + steps, size);
    vstd::arithmetic::div_mod::lemma_mod_bound(start + steps, size);
    vstd::arithmetic::div_mod::lemma_small_mod(start as nat, size as nat);
    assert(size * q == q * size) by (nonlinear_arith);
    if r + 1 < size {
        vstd::arithmetic::div_mod::lemma_fundamental_div_mod_converse(
            start + steps + 1,
            size,
            q,
            r + 1,
        );
    } else {
        assert((q + 1) * size == q * size + size) by (nonlinear_arith);
        vstd::arithmetic::div_mod::lemma_fundamental_div_mod_converse(
            start + steps + 1,
            size,
            q + 1,
            0,
        );
    }
}

/// Every step visits exactly the position that it is at, and a position is visited again only after
/// a full round.
pub proof fn visits_step(index: int, start: int, steps: int, size: int)
    requires
        0 <= start < size,
        0 <= index < size,
        0 <= steps,
    ensures
        visits(index, start, 0, size) == 0,
        0 <= visits(index, start, steps, size),
        index == position(start, steps, size) ==> {
            &&& visits(index, start, steps, size) == steps / size
            &&& visits(index, start, steps + 1, size) == steps / size + 1
        },
        index != position(start, steps, size) ==> visits(index, start, steps + 1, size) == visits(
            index,
            start,
            steps,
            size,
        ),
{
    let d = distance(start, index, size);
    let q = steps / size;
    let r = steps % size;
    vstd::arithmetic::div_mod::lemma_fundamental_div_mod(steps, size);
    vstd::arithmetic::div_mod::lemma_mod_bound(steps, size);
    vstd::arithmetic::div_mod::lemma_div_pos_is_pos(steps, size);
    assert(size * q == q * size) by (nonlinear_arith);
    assert((q + 1) * size == q * size + size) by (nonlinear_arith);
    vstd::arithmetic::div_mod::lemma_fundamental_div_mod_converse(
        size - 1 - d,
        size,
        0,
        size - 1 - d,
    );
    // The position after `steps` steps is `r` steps from the start.
    let whole = if start + r < size {
        0int
    } else {
        1int
    };
    assert((q + whole) * size == q * size + whole * size) by (nonlinear_arith);
    vstd::arithmetic::div_mod::lemma_fundamental_div_mod_converse(
        start + steps,
        size,
        q + whole,
        start + r - whole * size,
    );
    assert((index == position(start, steps, size)) == (d == r));
    if d < r {
        vstd::arithmetic::div_mod::lemma_fundamental_div_mod_converse(
            steps + size - 1 - d,
            size,
            q + 1,
            r - 1 - d,
        );
        vstd::arithmetic::div_mod::lemma_fundamental_div_mod_converse(
            steps + size - d,
            size,
            q + 1,
            r - d,
        );
    } else {
        vstd::arithmetic::div_mod::lemma_fundamental_div_mod_converse(
            steps + size - 1 - d,
            size,
            q,
            r + size - 1 - d,
        );
        if d == r {
            vstd::arithmetic::div_mod::lemma_fundamental_div_mod_converse(
                steps + size - d,
                size,
                q + 1,
                0,
            );
        } else {
            vstd::arithmetic::div_mod::lemma_fundamental_div_mod_converse(
                steps + size - d,
                size,
                q,
                r + size - d,
            );
        }
    }
}

/// Longer walks visit no position less often.
pub proof fn visits_grow(index: int, start: int, fewer: int, more: int, size: int)
    requires
        0 <= start < size,
        0 <= index < size,
        0 <= fewer <= more,
    ensures
        visits(index, start, fewer, size) <= visits(index, start, more, size),
{
    vstd::arithmetic::div_mod::lemma_div_is_ordered(
        fewer + size - 1 - distance(start, index, size),
        more + size - 1 - distance(start, index, size),
        size,
    );
}

/// A walk that goes on where another stopped is one walk.
pub proof fn walks_compose(start: int, first: int, second: int, size: int)
    requires
        0 <= start < size,
        0 <= first,
        0 <= second,
    ensures
        position(position(start, first, size), second, size) == position(
            start,
            first + second,
            size,
        ),
    decreases second,
{
    step(start, first, size);
    if second > 0 {
        walks_compose(start, first, second - 1, size);
        step(position(start, first, size), second - 1, size);
        step(start, first + second - 1, size);
    } else {
        step(position(start, first, size), 0, size);
    }
}

/// The visits of a walk that goes on where another stopped add up.
pub proof fn visits_compose(index: int, start: int, first: int, second: int, size: int)
    requires
        0 <= start < size,
        0 <= index < size,
        0 <= first,
        0 <= second,
    ensures
        visits(index, start, first, size) + visits(
            index,
            position(start, first, size),
            second,
            size,
        ) == visits(index, start, first + second, size),
    decreases second,
{
    step(start, first, size);
    let middle = position(start, first, size);
    if second > 0 {
        visits_compose(index, start, first, second - 1, size);
        visits_step(index, middle, second - 1, size);
        visits_step(index, start, first + second - 1, size);
        walks_compose(start, first, second - 1, size);
    } else {
        visits_step(index, middle, 0, size);
    }
}

} // verus!

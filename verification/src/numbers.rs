//! Rounding division.

use vstd::prelude::*;

verus! {

/// The quotient rounded up.
pub open spec fn ceil_div(value: int, divisor: int) -> int
    recommends
        value >= 0,
        divisor > 0,
{
    (value + divisor - 1) / divisor
}

/// Divides, rounding up.
pub fn div_ceil(value: usize, divisor: usize) -> (quotient: usize)
    requires
        divisor > 0,
    ensures
        quotient == ceil_div(value as int, divisor as int),
{
    let whole: usize = value / divisor;
    let rest: usize = value % divisor;
    proof {
        rounding_up(value as int, divisor as int);
    }
    if rest == 0 {
        whole
    } else {
        proof {
            assert(whole < usize::MAX) by (nonlinear_arith)
                requires
                    whole == value / divisor,
                    rest == value % divisor,
                    rest > 0,
                    divisor > 0,
                    value <= usize::MAX,
            {
                assert(value == divisor * whole + rest);
                assert(divisor * whole >= whole);
            }
        }
        whole + 1
    }
}

/// Rounding up is the floor, plus one unless the division is exact.
pub proof fn rounding_up(value: int, divisor: int)
    requires
        value >= 0,
        divisor > 0,
    ensures
        value % divisor == 0 ==> ceil_div(value, divisor) == value / divisor,
        value % divisor != 0 ==> ceil_div(value, divisor) == value / divisor + 1,
{
    let whole = value / divisor;
    let rest = value % divisor;
    vstd::arithmetic::div_mod::lemma_fundamental_div_mod(value, divisor);
    vstd::arithmetic::div_mod::lemma_mod_bound(value, divisor);
    if rest == 0 {
        vstd::arithmetic::div_mod::lemma_fundamental_div_mod_converse(
            value + divisor - 1,
            divisor,
            whole,
            divisor - 1,
        );
    } else {
        assert(value + divisor - 1 == divisor * (whole + 1) + (rest - 1)) by (nonlinear_arith)
            requires
                value == divisor * whole + rest,
        ;
        vstd::arithmetic::div_mod::lemma_fundamental_div_mod_converse(
            value + divisor - 1,
            divisor,
            whole + 1,
            rest - 1,
        );
    }
}

/// A quotient rounded up covers the value, and overshoots it by less than one divisor.
pub proof fn rounding_up_covers(value: int, divisor: int)
    requires
        value >= 0,
        divisor > 0,
    ensures
        divisor * ceil_div(value, divisor) >= value,
        divisor * ceil_div(value, divisor) < value + divisor,
        ceil_div(value, divisor) >= 0,
        value > 0 ==> ceil_div(value, divisor) >= 1,
{
    rounding_up(value, divisor);
    vstd::arithmetic::div_mod::lemma_fundamental_div_mod(value, divisor);
    vstd::arithmetic::div_mod::lemma_mod_bound(value, divisor);
    vstd::arithmetic::div_mod::lemma_div_pos_is_pos(value, divisor);
    let whole = value / divisor;
    assert(divisor * (whole + 1) == divisor * whole + divisor) by (nonlinear_arith);
    if value > 0 && value % divisor == 0 {
        assert(whole >= 1) by (nonlinear_arith)
            requires
                value > 0,
                divisor > 0,
                value == divisor * whole,
        ;
    }
}

/// What [`div_ceil`] gives is the smallest number of divisors that covers the value.
pub proof fn rounded_quotient_is_smallest(value: usize, divisor: usize, quotient: usize, other: int)
    requires
        call_ensures(div_ceil, (value, divisor), quotient),
        divisor > 0,
    ensures
        divisor * quotient >= value,
        0 <= other < quotient ==> divisor * other < value,
{
    let size = divisor as int;
    rounding_up_covers(value as int, size);
    if 0 <= other < quotient {
        assert(size * other <= size * quotient - size) by (nonlinear_arith)
            requires
                other + 1 <= quotient,
                size > 0,
        ;
    }
}

} // verus!

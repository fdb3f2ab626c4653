//! Arithmetic that stops at a bound.
use vstd::prelude::*;

verus! {

/// `a - b`, but no less than 0.
pub open spec fn minus(a: int, b: int) -> int {
    if a > b {
        a - b
    } else {
        0
    }
}

/// The larger of two numbers.
pub open spec fn at_least(a: int, b: int) -> int {
    if a > b {
        a
    } else {
        b
    }
}

/// The smaller of two numbers.
pub open spec fn at_most(a: int, b: int) -> int {
    if a < b {
        a
    } else {
        b
    }
}

/// What the bounded operations give: a difference that is never negative, and
/// one of two numbers that is not less, or not more, than either.
pub proof fn bounds_hold(a: int, b: int)
    ensures
        minus(a, b) >= 0,
        a >= b ==> minus(a, b) + b == a,
        a < b ==> minus(a, b) == 0,
        at_least(a, b) >= a && at_least(a, b) >= b && (at_least(a, b) == a || at_least(a, b) == b),
        at_most(a, b) <= a && at_most(a, b) <= b && (at_most(a, b) == a || at_most(a, b) == b),
{
}

} // verus!

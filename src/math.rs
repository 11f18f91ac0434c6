//! Exact integer primitives shared by the engines.
use vstd::prelude::*;

verus! {

/// `r` is the floor square root of `x`: the largest integer whose square does
/// not exceed `x`.
pub open spec fn is_floor_sqrt(x: int, r: int) -> bool {
    0 <= r && r * r <= x && x < (r + 1) * (r + 1)
}

/// The floor square root of a non-negative `x`.
pub open spec fn floor_sqrt(x: int) -> int {
    choose|r: int| is_floor_sqrt(x, r)
}

/// There is at most one floor square root.
pub proof fn lemma_floor_sqrt_unique(x: int, r: int, s: int)
    requires
        is_floor_sqrt(x, r),
        is_floor_sqrt(x, s),
    ensures
        r == s,
{
    if r < s {
        assert((r + 1) * (r + 1) <= s * s) by (nonlinear_arith)
            requires
                0 <= r < s,
        ;
    } else if s < r {
        assert((s + 1) * (s + 1) <= r * r) by (nonlinear_arith)
            requires
                0 <= s < r,
        ;
    }
}

/// Every non-negative integer has a floor square root.
pub proof fn lemma_floor_sqrt_exists(x: int)
    requires
        0 <= x,
    ensures
        is_floor_sqrt(x, floor_sqrt(x)),
    decreases x,
{
    if x == 0 {
        assert(is_floor_sqrt(0, 0));
    } else {
        lemma_floor_sqrt_exists(x - 1);
        let r = floor_sqrt(x - 1);
        if x < (r + 1) * (r + 1) {
            assert(is_floor_sqrt(x, r));
        } else {
            assert(is_floor_sqrt(x, r + 1)) by (nonlinear_arith)
                requires
                    0 <= r,
                    x - 1 < (r + 1) * (r + 1),
                    x >= (r + 1) * (r + 1),
            ;
        }
    }
}

/// Any floor square root of `x` is the one `floor_sqrt` names.
pub proof fn lemma_floor_sqrt_is(x: int, r: int)
    requires
        is_floor_sqrt(x, r),
    ensures
        floor_sqrt(x) == r,
{
    assert(exists|t: int| is_floor_sqrt(x, t));
    lemma_floor_sqrt_unique(x, r, floor_sqrt(x));
}

/// The floor square root of `x`, found by binary search over `[1, x]`.
pub fn int_sqrt(x: u128) -> (r: u128)
    ensures
        is_floor_sqrt(x as int, r as int),
        r == floor_sqrt(x as int),
{
    if x <= 1 {
        assert(is_floor_sqrt(x as int, x as int)) by (nonlinear_arith)
            requires
                x <= 1,
        ;
        proof {
            lemma_floor_sqrt_is(x as int, x as int);
        }
        return x;
    }
    let mut left: u128 = 1;
    let mut right: u128 = x;
    assert(x < (x + 1) * (x + 1)) by (nonlinear_arith)
        requires
            x > 1,
    ;
    while left <= right
        invariant
            1 <= left <= right + 1,
            right <= x,
            (left - 1) * (left - 1) <= x,
            x < (right + 1) * (right + 1),
        decreases right + 1 - left,
    {
        let mid: u128 = left + (right - left) / 2;
        match mid.checked_mul(mid) {
            Some(sq) => {
                if sq == x {
                    assert(x < (mid + 1) * (mid + 1)) by (nonlinear_arith)
                        requires
                            mid * mid == x,
                            0 <= mid,
                    ;
                    proof {
                        lemma_floor_sqrt_is(x as int, mid as int);
                    }
                    return mid;
                } else if sq < x {
                    assert(mid <= mid * mid) by (nonlinear_arith)
                        requires
                            mid >= 1,
                    ;
                    left = mid + 1;
                } else {
                    right = mid - 1;
                }
            },
            None => {
                right = mid - 1;
            },
        }
    }
    proof {
        lemma_floor_sqrt_is(x as int, right as int);
    }
    right
}

} // verus!

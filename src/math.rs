use vstd::prelude::*;

verus! {

/// `r` is the floor of the square root of `x`.
pub open spec fn is_floor_sqrt(r: int, x: int) -> bool {
    0 <= r && r * r <= x && x < (r + 1) * (r + 1)
}

/// The floor of the square root of `x`, counted up from zero.
pub open spec fn floor_sqrt(x: nat) -> nat
    decreases x,
{
    if x == 0 {
        0
    } else {
        let r = floor_sqrt((x - 1) as nat);
        if (r + 1) * (r + 1) <= x {
            r + 1
        } else {
            r
        }
    }
}

/// `floor_sqrt` is the floor of the square root.
pub proof fn lemma_floor_sqrt(x: nat)
    ensures
        is_floor_sqrt(floor_sqrt(x) as int, x as int),
    decreases x,
{
    if x > 0 {
        let r = floor_sqrt((x - 1) as nat) as int;
        lemma_floor_sqrt((x - 1) as nat);
        if (r + 1) * (r + 1) <= x {
            assert(x < (r + 2) * (r + 2)) by (nonlinear_arith)
                requires
                    (r + 1) * (r + 1) <= x,
                    x - 1 < (r + 1) * (r + 1),
                    r >= 0,
            ;
        }
    }
}

/// The floor of the square root is the only such value.
pub proof fn lemma_floor_sqrt_unique(r: int, x: nat)
    requires
        is_floor_sqrt(r, x as int),
    ensures
        r == floor_sqrt(x),
{
    lemma_floor_sqrt(x);
    let s = floor_sqrt(x) as int;
    if r < s {
        assert((r + 1) * (r + 1) <= s * s) by (nonlinear_arith)
            requires
                r + 1 <= s,
                r >= 0,
        ;
    } else if r > s {
        assert((s + 1) * (s + 1) <= r * r) by (nonlinear_arith)
            requires
                s + 1 <= r,
                s >= 0,
        ;
    }
}

/// The floor of a square root grows with its argument.
pub proof fn lemma_floor_sqrt_monotone(x1: nat, x2: nat)
    requires
        x1 <= x2,
    ensures
        floor_sqrt(x1) <= floor_sqrt(x2),
{
    lemma_floor_sqrt(x1);
    lemma_floor_sqrt(x2);
    let r1 = floor_sqrt(x1) as int;
    let r2 = floor_sqrt(x2) as int;
    if r1 > r2 {
        assert((r2 + 1) * (r2 + 1) <= r1 * r1) by (nonlinear_arith)
            requires
                r1 >= r2 + 1,
                r2 >= 0,
        ;
    }
}

/// The product of two `u64` values fits in a `u128`.
pub proof fn lemma_mul_u64_fits(a: u64, b: u64)
    ensures
        0 <= a * b <= u64::MAX * u64::MAX,
        u64::MAX * u64::MAX < u128::MAX,
{
    assert(0 <= a * b <= u64::MAX * u64::MAX) by (nonlinear_arith)
        requires
            a <= u64::MAX,
            b <= u64::MAX,
    ;
}

/// Integer square root by binary search: the largest `r` with `r * r <= x`.
pub fn integer_sqrt_u128(x: u128) -> (r: u128)
    ensures
        r == floor_sqrt(x as nat),
{
    if x <= 1 {
        assert(x * x <= x && x < (x + 1) * (x + 1)) by (nonlinear_arith)
            requires
                x <= 1,
        ;
        proof {
            lemma_floor_sqrt_unique(x as int, x as nat);
        }
        return x;
    }
    assert(x < (x + 1) * (x + 1)) by (nonlinear_arith)
        requires
            x > 1,
    ;
    let mut left: u128 = 1;
    let mut right: u128 = x;
    while left <= right
        invariant
            1 <= left,
            left <= right + 1,
            right <= x,
            (left - 1) * (left - 1) <= x,
            x < (right + 1) * (right + 1),
        decreases right + 1 - left,
    {
        let mid: u128 = left + (right - left) / 2;
        let sq = mid.checked_mul(mid);
        match sq {
            Some(v) => {
                if v == x {
                    assert(x < (mid + 1) * (mid + 1)) by (nonlinear_arith)
                        requires
                            mid * mid == x,
                            mid >= 0,
                    ;
                    proof {
                        lemma_floor_sqrt_unique(mid as int, x as nat);
                    }
                    return mid;
                } else if v < x {
                    assert(mid < x) by (nonlinear_arith)
                        requires
                            mid * mid < x,
                            mid >= 1,
                    ;
                    left = mid + 1;
                } else {
                    right = mid - 1;
                }
            },
            None => {
                right = mid - 1;
            },
        }
    }
    proof {
        lemma_floor_sqrt_unique(left - 1, x as nat);
    }
    left - 1
}

} // verus!

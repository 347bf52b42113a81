//! Integer arithmetic that the fixed-point geometry rests on.

use vstd::prelude::*;

verus! {

/// `x` divided by `d`, rounded toward zero.
pub open spec fn toward_zero(x: int, d: int) -> int {
    if x >= 0 {
        x / d
    } else {
        -((-x) / d)
    }
}

/// `v` held to the range of a 64-bit integer.
pub open spec fn saturated(v: int) -> int {
    if v < i64::MIN {
        i64::MIN as int
    } else if v > i64::MAX {
        i64::MAX as int
    } else {
        v
    }
}

/// Whether `r` is the square root of `n`, rounded down.
pub open spec fn is_floor_sqrt(n: int, r: int) -> bool {
    0 <= r && r * r <= n < (r + 1) * (r + 1)
}

/// The square root of `n`, rounded down.
pub open spec fn floor_sqrt(n: int) -> int {
    choose|r: int| is_floor_sqrt(n, r)
}

/// A number has one rounded square root at most.
pub proof fn lemma_floor_sqrt_unique(n: int, r: int)
    requires
        is_floor_sqrt(n, r),
    ensures
        floor_sqrt(n) == r,
{
    let s = floor_sqrt(n);
    assert(is_floor_sqrt(n, s));
    assert(s == r) by (nonlinear_arith)
        requires
            0 <= r,
            r * r <= n < (r + 1) * (r + 1),
            0 <= s,
            s * s <= n < (s + 1) * (s + 1),
    ;
}

/// The square root of `n`, rounded down.
pub fn isqrt(n: u128) -> (r: u64)
    ensures
        is_floor_sqrt(n as int, r as int),
        r == floor_sqrt(n as int),
{
    let mut lo: u128 = 0;
    let mut hi: u128 = 0x1_0000_0000_0000_0000;
    proof {
        assert(0x1_0000_0000_0000_0000int * 0x1_0000_0000_0000_0000int
            == 0x1_0000_0000_0000_0000_0000_0000_0000_0000int) by (nonlinear_arith);
    }
    while hi - lo > 1
        invariant
            lo < hi <= 0x1_0000_0000_0000_0000,
            lo * lo <= n < hi * hi,
        decreases hi - lo,
    {
        let mid: u128 = lo + (hi - lo) / 2;
        proof {
            assert(mid * mid <= 0xffff_ffff_ffff_ffff * 0xffff_ffff_ffff_ffff) by (nonlinear_arith)
                requires
                    0 <= mid <= 0xffff_ffff_ffff_ffff,
            ;
            assert(0xffff_ffff_ffff_ffffint * 0xffff_ffff_ffff_ffffint
                < 0x1_0000_0000_0000_0000_0000_0000_0000_0000int) by (nonlinear_arith);
        }
        if mid * mid <= n {
            lo = mid;
        } else {
            hi = mid;
        }
    }
    proof {
        lemma_floor_sqrt_unique(n as int, lo as int);
    }
    lo as u64
}

/// `value * num / den`, rounded toward zero.
pub fn scaled(value: i64, num: u64, den: u64) -> (r: i128)
    requires
        den > 0,
    ensures
        r == toward_zero(value * num, den as int),
{
    let negative: bool = value < 0;
    let magnitude: u128 = if negative {
        (-(value as i128)) as u128
    } else {
        value as u128
    };
    proof {
        assert(0 <= magnitude * num <= 0x8000_0000_0000_0000 * 0xffff_ffff_ffff_ffff)
            by (nonlinear_arith)
            requires
                0 <= magnitude <= 0x8000_0000_0000_0000,
                0 <= num <= 0xffff_ffff_ffff_ffff,
        ;
        assert(0 <= (magnitude * num) / (den as int) <= magnitude * num) by (nonlinear_arith)
            requires
                0 <= magnitude * num,
                den >= 1,
        ;
        if negative {
            assert(-(value * num) == magnitude * num) by (nonlinear_arith)
                requires
                    magnitude == -value,
            ;
        } else {
            assert(value * num == magnitude * num) by (nonlinear_arith)
                requires
                    magnitude == value,
            ;
        }
        if magnitude * num == 0 {
            assert((0int / (den as int)) == 0) by (nonlinear_arith)
                requires
                    den >= 1,
            ;
        }
    }
    let quotient: u128 = (magnitude * (num as u128)) / (den as u128);
    if negative {
        -(quotient as i128)
    } else {
        quotient as i128
    }
}

/// `v` held to the range of a 64-bit integer.
pub fn saturate(v: i128) -> (r: i64)
    ensures
        r == saturated(v as int),
{
    if v < i64::MIN as i128 {
        i64::MIN
    } else if v > i64::MAX as i128 {
        i64::MAX
    } else {
        v as i64
    }
}

} // verus!

//! Integer arithmetic behind the fixed-point quantities.

use vstd::prelude::*;
use vstd::arithmetic::div_mod::lemma_fundamental_div_mod;
use vstd::arithmetic::div_mod::lemma_fundamental_div_mod_converse;

verus! {

/// How many raw steps make one unit: a length of one world unit, an angle of one
/// radian and a time of one second are all stored as `SCALE`.
pub const SCALE: i64 = 1_000_000;

/// `x` limited to the closed range from `lo` to `hi`.
pub open spec fn clamp(x: int, lo: int, hi: int) -> int {
    if x < lo {
        lo
    } else if x > hi {
        hi
    } else {
        x
    }
}

/// `r` is the integer square root of `n`: the largest number whose square does not
/// exceed `n`.
pub open spec fn is_sqrt_of(r: nat, n: nat) -> bool {
    r * r <= n < (r + 1) * (r + 1)
}

/// The integer square root of `n`.
pub open spec fn int_sqrt(n: nat) -> nat {
    choose|r: nat| is_sqrt_of(r, n)
}

/// Squaring keeps the order of natural numbers.
pub proof fn lemma_square_monotonic(a: nat, b: nat)
    requires
        a <= b,
    ensures
        a * a <= b * b,
{
    assert(a * a <= b * b) by (nonlinear_arith)
        requires
            a <= b,
    ;
}

/// A number has at most one integer square root, so whatever satisfies
/// `is_sqrt_of` is `int_sqrt`.
pub proof fn lemma_int_sqrt_unique(r: nat, n: nat)
    requires
        is_sqrt_of(r, n),
    ensures
        int_sqrt(n) == r,
{
    let s = int_sqrt(n);
    assert(is_sqrt_of(s, n));
    if s < r {
        lemma_square_monotonic(s + 1, r);
    } else if r < s {
        lemma_square_monotonic(r + 1, s);
    }
}

/// The quotient of `n` by a positive `d`, rounded toward negative infinity.
pub fn floor_div(n: i128, d: i128) -> (q: i128)
    requires
        d > 0,
    ensures
        q == n / d,
{
    if n >= 0 {
        n / d
    } else {
        let m: i128 = -(n + 1);
        let below: i128 = m / d;
        proof {
            let r: int = m as int % d as int;
            lemma_fundamental_div_mod(m as int, d as int);
            assert(m == d * below + r);
            assert((-below - 1) * d == -(d * below) - d) by (nonlinear_arith);
            assert(n == (-below - 1) * d + (d - 1 - r));
            lemma_fundamental_div_mod_converse(n as int, d as int, -below - 1, d - 1 - r);
        }
        -below - 1
    }
}

/// The integer square root, found by bisection.
pub fn isqrt(n: u128) -> (r: u64)
    ensures
        is_sqrt_of(r as nat, n as nat),
        r == int_sqrt(n as nat),
{
    let mut lo: u128 = 0;
    let mut hi: u128 = 0x1_0000_0000_0000_0000;
    assert(hi * hi > n) by (nonlinear_arith)
        requires
            hi == 0x1_0000_0000_0000_0000,
            n <= u128::MAX,
    ;
    while hi - lo > 1
        invariant
            lo < hi <= 0x1_0000_0000_0000_0000,
            lo * lo <= n < hi * hi,
        decreases hi - lo,
    {
        let mid: u128 = lo + (hi - lo) / 2;
        assert(mid * mid <= u128::MAX) by (nonlinear_arith)
            requires
                mid < 0x1_0000_0000_0000_0000,
        ;
        if mid * mid <= n {
            lo = mid;
        } else {
            hi = mid;
        }
    }
    proof {
        assert(hi == lo + 1);
        lemma_int_sqrt_unique(lo as nat, n as nat);
    }
    lo as u64
}

} // verus!

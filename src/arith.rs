//! Integer helpers: truncating division, floor square root, clamping.
use vstd::prelude::*;
use vstd::arithmetic::div_mod::lemma_fundamental_div_mod;

verus! {

/// Division rounded toward zero, for a positive divisor.
pub open spec fn div_trunc(a: int, b: int) -> int {
    if a >= 0 {
        a / b
    } else {
        -((-a) / b)
    }
}

/// `r` is the square root of `n`, rounded down.
pub open spec fn is_sqrt_floor(r: int, n: int) -> bool {
    0 <= r && r * r <= n && n < (r + 1) * (r + 1)
}

/// The square root of a non-negative `n`, rounded down.
pub open spec fn sqrt_floor(n: int) -> int {
    choose|r: int| is_sqrt_floor(r, n)
}

/// Truncating division leaves a remainder of the numerator's sign that is
/// smaller than the divisor.
pub proof fn lemma_div_trunc(a: int, b: int)
    requires
        b > 0,
    ensures
        ({
            let rem = a - b * div_trunc(a, b);
            -b < rem < b && (a >= 0 ==> rem >= 0) && (a <= 0 ==> rem <= 0)
        }),
        div_trunc(-a, b) == -div_trunc(a, b),
        a >= 0 ==> 0 <= div_trunc(a, b) <= a,
        a <= 0 ==> a <= div_trunc(a, b) <= 0,
{
    lemma_fundamental_div_mod(a, b);
    lemma_fundamental_div_mod(-a, b);
    assert(0 <= a % b < b);
    assert(0 <= (-a) % b < b);
    if a >= 0 {
        assert(a / b >= 0) by (nonlinear_arith)
            requires a >= 0, b > 0, a == b * (a / b) + a % b, 0 <= a % b < b;
        assert(a / b <= a) by (nonlinear_arith)
            requires a >= 0, b > 0, a == b * (a / b) + a % b, 0 <= a % b < b, a / b >= 0;
    }
    if a <= 0 {
        let na = -a;
        assert(na / b >= 0) by (nonlinear_arith)
            requires na >= 0, b > 0, na == b * (na / b) + na % b, 0 <= na % b < b;
        assert(na / b <= na) by (nonlinear_arith)
            requires na >= 0, b > 0, na == b * (na / b) + na % b, 0 <= na % b < b, na / b >= 0;
        assert(b * (-(na / b)) == -(b * (na / b))) by (nonlinear_arith);
    }
    if a == 0 {
        assert(0int / b == 0);
    }
}

/// The floor square root is unique.
pub proof fn lemma_sqrt_floor_unique(r: int, n: int)
    requires
        is_sqrt_floor(r, n),
    ensures
        sqrt_floor(n) == r,
{
    let s = sqrt_floor(n);
    assert(is_sqrt_floor(s, n));
    if s < r {
        assert((s + 1) * (s + 1) <= r * r) by (nonlinear_arith)
            requires 0 <= s, s + 1 <= r;
    } else if r < s {
        assert((r + 1) * (r + 1) <= s * s) by (nonlinear_arith)
            requires 0 <= r, r + 1 <= s;
    }
}

/// Truncating division of `a` by a positive `b`.
pub fn div_toward_zero(a: i128, b: i128) -> (q: i128)
    requires
        b > 0,
        a > i128::MIN,
    ensures
        q == div_trunc(a as int, b as int),
{
    if a >= 0 {
        a / b
    } else {
        let na: i128 = -a;
        -(na / b)
    }
}

/// Square root of `n`, rounded down.
pub fn isqrt(n: i128) -> (r: i128)
    requires
        0 <= n < 0x10_0000_0000_0000_0000,
    ensures
        r == sqrt_floor(n as int),
        is_sqrt_floor(r as int, n as int),
{
    let mut lo: i128 = 0;
    let mut hi: i128 = 0x10_0000_0000;
    assert(hi * hi > n);
    while hi - lo > 1
        invariant
            0 <= lo < hi <= 0x10_0000_0000,
            lo * lo <= n,
            n < hi * hi,
        decreases hi - lo,
    {
        let mid: i128 = lo + (hi - lo) / 2;
        assert(mid * mid <= 0x10_0000_0000 * 0x10_0000_0000) by (nonlinear_arith)
            requires 0 <= mid <= 0x10_0000_0000;
        if mid * mid <= n {
            lo = mid;
        } else {
            hi = mid;
        }
    }
    proof {
        lemma_sqrt_floor_unique(lo as int, n as int);
    }
    lo
}

} // verus!

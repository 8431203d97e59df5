//! Integer division and square roots with exact statements.

use vstd::prelude::*;

verus! {

/// The integer that lies on the same side of `n / d` as `t`, nearest to it:
/// the ceiling of `n / d` when the quotient does not exceed `t`, else the floor.
/// Rounding this way never carries a value past `t`.
pub open spec fn round_toward(n: int, d: int, t: int) -> int {
    if n <= t * d {
        -((-n) / d)
    } else {
        n / d
    }
}

/// The distance between two integers.
pub open spec fn abs_diff(a: int, b: int) -> nat {
    if a >= b {
        (a - b) as nat
    } else {
        (b - a) as nat
    }
}

/// `r` is the floor of the square root of `n`.
pub open spec fn is_floor_sqrt(n: int, r: int) -> bool {
    0 <= r && r * r <= n && n < (r + 1) * (r + 1)
}

/// The floor of the square root of `n`.
pub open spec fn floor_sqrt(n: nat) -> nat
    decreases n,
{
    if n == 0 {
        0
    } else {
        let r = floor_sqrt((n - 1) as nat);
        if (r + 1) * (r + 1) <= n {
            (r + 1) as nat
        } else {
            r
        }
    }
}

pub proof fn lemma_floor_sqrt_is_floor_sqrt(n: nat)
    ensures
        is_floor_sqrt(n as int, floor_sqrt(n) as int),
    decreases n,
{
    if n > 0 {
        lemma_floor_sqrt_is_floor_sqrt((n - 1) as nat);
        let r = floor_sqrt((n - 1) as nat) as int;
        assert(r * r <= n - 1 && n - 1 < (r + 1) * (r + 1));
        if (r + 1) * (r + 1) <= n {
            assert(n < (r + 2) * (r + 2)) by (nonlinear_arith)
                requires
                    n - 1 < (r + 1) * (r + 1),
                    r >= 0,
            {}
        }
    }
}

pub proof fn lemma_floor_sqrt_unique(n: int, a: int, b: int)
    requires
        is_floor_sqrt(n, a),
        is_floor_sqrt(n, b),
    ensures
        a == b,
{
    if a < b {
        assert((a + 1) * (a + 1) <= b * b) by (nonlinear_arith)
            requires
                0 <= a < b,
        {}
    } else if b < a {
        assert((b + 1) * (b + 1) <= a * a) by (nonlinear_arith)
            requires
                0 <= b < a,
        {}
    }
}

/// The ceiling of the square root of `n`.
pub open spec fn ceil_sqrt(n: nat) -> int {
    let r = floor_sqrt(n) as int;
    if r * r == n {
        r
    } else {
        r + 1
    }
}

/// The ceiling of a square root lies at or above the root and less than one
/// above it.
pub proof fn lemma_ceil_sqrt_bounds(n: nat)
    ensures
        n <= ceil_sqrt(n) * ceil_sqrt(n),
        n > 0 ==> (ceil_sqrt(n) - 1) * (ceil_sqrt(n) - 1) < n,
        ceil_sqrt(n) >= 0,
{
    lemma_floor_sqrt_is_floor_sqrt(n);
    let r = floor_sqrt(n) as int;
    if r * r == n && n > 0 {
        assert((r - 1) * (r - 1) < n) by (nonlinear_arith)
            requires
                r >= 0,
                r * r == n,
                n > 0,
        {}
    }
}

/// Bounds on a floor quotient: `a * d <= n < b * d` puts `n / d` in `[a, b)`.
pub proof fn lemma_floor_between(n: int, d: int, a: int, b: int)
    requires
        d > 0,
        a * d <= n,
        n < b * d,
    ensures
        a <= n / d < b,
{
    let q = n / d;
    assert(n == d * q + n % d && 0 <= n % d < d) by {
        vstd::arithmetic::div_mod::lemma_fundamental_div_mod(n, d);
    }
    assert(a <= q) by (nonlinear_arith)
        requires
            d > 0,
            a * d <= n,
            n == d * q + n % d,
            n % d < d,
    {}
    assert(q < b) by (nonlinear_arith)
        requires
            d > 0,
            n < b * d,
            n == d * q + n % d,
            0 <= n % d,
    {}
}

/// Bounds on a ceiling quotient: `a * d < n <= b * d` puts the ceiling of
/// `n / d` in `(a, b]`.
pub proof fn lemma_ceil_between(n: int, d: int, a: int, b: int)
    requires
        d > 0,
        a * d < n,
        n <= b * d,
    ensures
        a < -((-n) / d) <= b,
{
    assert((-b) * d <= -n && -n < (-a) * d) by (nonlinear_arith)
        requires
            a * d < n,
            n <= b * d,
    {}
    lemma_floor_between(-n, d, -b, -a);
}

/// Floor of `n / d` for a positive divisor.
pub fn floor_div(n: i128, d: i128) -> (q: i128)
    requires
        d > 0,
        n > i128::MIN,
    ensures
        q == n / d,
{
    if n >= 0 {
        n / d
    } else {
        let m = -n;
        let qm = m / d;
        let rm = m % d;
        proof {
            vstd::arithmetic::div_mod::lemma_fundamental_div_mod(m as int, d as int);
            assert(0 <= qm);
        }
        if rm == 0 {
            proof {
                assert(n == (-qm) * d && n < (-qm + 1) * d) by (nonlinear_arith)
                    requires
                        m == d * qm + rm,
                        rm == 0,
                        n == -m,
                        d > 0,
                {}
                lemma_floor_between(n as int, d as int, -qm, -qm + 1);
            }
            -qm
        } else {
            proof {
                assert((-qm - 1) * d <= n && n < (-qm) * d) by (nonlinear_arith)
                    requires
                        m == d * qm + rm,
                        0 < rm < d,
                        n == -m,
                {}
                lemma_floor_between(n as int, d as int, -qm - 1, -qm);
            }
            -qm - 1
        }
    }
}

/// Largest magnitude accepted by [`div_toward`] for its arguments.
pub const DIV_LIMIT: i128 = 0x1000_0000_0000_0000_0000_0000_0000;

/// Rounds `n / d` toward `t`; see [`round_toward`].
pub fn div_toward(n: i128, d: i128, t: i128) -> (q: i128)
    requires
        0 < d < DIV_LIMIT,
        -DIV_LIMIT < n < DIV_LIMIT,
        -DIV_LIMIT < t < DIV_LIMIT,
        -DIV_LIMIT < t * d < DIV_LIMIT,
    ensures
        q == round_toward(n as int, d as int, t as int),
{
    if n <= t * d {
        let f = floor_div(-n, d);
        proof {
            lemma_quotient_magnitude(-n as int, d as int);
        }
        -f
    } else {
        floor_div(n, d)
    }
}

/// A floor quotient by a positive divisor is no larger in magnitude than the
/// dividend, give or take one.
pub proof fn lemma_quotient_magnitude(n: int, d: int)
    requires
        d > 0,
    ensures
        n >= 0 ==> 0 <= n / d <= n,
        n < 0 ==> n <= n / d < 0,
{
    if n >= 0 {
        assert(n < (n + 1) * d) by (nonlinear_arith)
            requires
                n >= 0,
                d > 0,
        {}
        lemma_floor_between(n, d, 0, n + 1);
    } else {
        assert(n * d <= n) by (nonlinear_arith)
            requires
                n < 0,
                d > 0,
        {}
        lemma_floor_between(n, d, n, 0);
    }
}

/// Ceiling of the square root of `n`.
pub fn ceil_isqrt(n: u128) -> (r: u128)
    requires
        n < 0x1_0000_0000_0000_0000_0000_0000_0000,
    ensures
        r == ceil_sqrt(n as nat),
        r <= 0x1_0000_0000_0000_0000,
{
    let f = isqrt(n);
    proof {
        assert(f * f <= 0x1_0000_0000_0000_0000_0000_0000_0000);
    }
    if f * f == n {
        f
    } else {
        f + 1
    }
}

/// Floor of the square root of `n`, found by bisection.
pub fn isqrt(n: u128) -> (r: u128)
    ensures
        r == floor_sqrt(n as nat),
        is_floor_sqrt(n as int, r as int),
        r < 0x1_0000_0000_0000_0000,
{
    let mut lo: u128 = 0;
    let mut hi: u128 = 0x1_0000_0000_0000_0000;
    proof {
        assert(n < hi * hi) by (nonlinear_arith)
            requires
                hi == 0x1_0000_0000_0000_0000u128,
                n <= u128::MAX,
        {}
    }
    while hi - lo > 1
        invariant
            lo < hi <= 0x1_0000_0000_0000_0000,
            lo * lo <= n,
            n < hi * hi,
        decreases hi - lo,
    {
        let mid = lo + (hi - lo) / 2;
        proof {
            assert(mid * mid <= u128::MAX) by (nonlinear_arith)
                requires
                    mid < 0x1_0000_0000_0000_0000,
            {}
        }
        if mid * mid <= n {
            lo = mid;
        } else {
            hi = mid;
        }
    }
    proof {
        assert(hi == lo + 1);
        lemma_floor_sqrt_is_floor_sqrt(n as nat);
        lemma_floor_sqrt_unique(n as int, lo as int, floor_sqrt(n as nat) as int);
    }
    lo
}

} // verus!

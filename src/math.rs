use vstd::prelude::*;

verus! {

/// The wide unsigned integer in which every quantity is held.
pub type U256 = u128;

/// One whole in basis points.
pub const BPS_DENOMINATOR: u128 = 10_000;

/// One whole in 18-decimal fixed point.
pub const E18: u128 = 1_000_000_000_000_000_000;

/// The largest value of [`U256`], as a mathematical integer.
pub open spec fn u256_max() -> int {
    u128::MAX as int
}

/// `r` is the floor of the square root of `x`.
pub open spec fn is_floor_sqrt(x: int, r: int) -> bool {
    0 <= r && r * r <= x && x < (r + 1) * (r + 1)
}

/// The floor of the square root of `x`.
pub open spec fn floor_sqrt(x: int) -> int {
    choose|r: int| is_floor_sqrt(x, r)
}

/// At most one integer is the floor square root of a given `x`.
pub proof fn lemma_floor_sqrt_unique(x: int, r1: int, r2: int)
    requires
        is_floor_sqrt(x, r1),
        is_floor_sqrt(x, r2),
    ensures
        r1 == r2,
{
    if r1 < r2 {
        assert((r1 + 1) * (r1 + 1) <= r2 * r2) by (nonlinear_arith)
            requires 0 <= r1, r1 + 1 <= r2;
    } else if r2 < r1 {
        assert((r2 + 1) * (r2 + 1) <= r1 * r1) by (nonlinear_arith)
            requires 0 <= r2, r2 + 1 <= r1;
    }
}

/// Whoever satisfies `is_floor_sqrt` is `floor_sqrt`.
pub proof fn lemma_floor_sqrt_is(x: int, r: int)
    requires
        is_floor_sqrt(x, r),
    ensures
        floor_sqrt(x) == r,
{
    lemma_floor_sqrt_unique(x, floor_sqrt(x), r);
}

/// Floor division brackets its numerator.
pub proof fn lemma_div_bounds(n: int, d: int)
    requires
        0 <= n,
        0 < d,
    ensures
        0 <= n / d,
        (n / d) * d <= n,
        n < (n / d + 1) * d,
{
    vstd::arithmetic::div_mod::lemma_fundamental_div_mod(n, d);
    vstd::arithmetic::div_mod::lemma_mod_pos_bound(n, d);
    vstd::arithmetic::div_mod::lemma_div_pos_is_pos(n, d);
    assert((n / d) * d == d * (n / d)) by (nonlinear_arith);
    assert((n / d + 1) * d == d * (n / d) + d) by (nonlinear_arith);
}

/// `n <= m * d` bounds the quotient `n / d` by `m`.
pub proof fn lemma_div_at_most(n: int, d: int, m: int)
    requires
        0 <= n,
        0 < d,
        n <= m * d,
    ensures
        n / d <= m,
{
    lemma_div_bounds(n, d);
    let q = n / d;
    assert(q <= m) by (nonlinear_arith)
        requires q * d <= n, n <= m * d, 0 < d;
}

/// `q * d <= n` makes `q` at most the quotient `n / d`.
pub proof fn lemma_div_at_least(n: int, d: int, q: int)
    requires
        0 <= n,
        0 < d,
        q * d <= n,
    ensures
        q <= n / d,
{
    lemma_div_bounds(n, d);
    let p = n / d;
    assert(q <= p) by (nonlinear_arith)
        requires q * d <= n, n < (p + 1) * d, 0 < d;
}

/// One Newton step from `s` never falls below the floor square root:
/// `x < (s + 1)^2` implies `x < (s' + 1)^2` for `s' = (x / s + s) / 2`.
proof fn lemma_newton_step_stays_above(x: int, s: int)
    requires
        0 <= x,
        1 <= s,
    ensures
        x < ((x / s + s) / 2 + 1) * ((x / s + s) / 2 + 1),
{
    let a = x / s;
    let t = (a + s) / 2;
    assert(x < (a + 1) * s) by (nonlinear_arith)
        requires a == x / s, 1 <= s, 0 <= x;
    assert(2 * (t + 1) >= a + s + 1);
    assert(4 * (a + 1) * s <= (a + 1 + s) * (a + 1 + s)) by (nonlinear_arith);
    assert(4 * (t + 1) * (t + 1) >= (a + s + 1) * (a + s + 1)) by (nonlinear_arith)
        requires 2 * (t + 1) >= a + s + 1, a + s + 1 >= 0;
    assert(x < (t + 1) * (t + 1)) by (nonlinear_arith)
        requires
            x < (a + 1) * s,
            4 * (a + 1) * s <= (a + 1 + s) * (a + 1 + s),
            4 * (t + 1) * (t + 1) >= (a + s + 1) * (a + s + 1);
}

/// Floor of the square root of `x`, by Newton's method; zero for zero.
pub fn integer_sqrt(x: U256) -> (r: U256)
    ensures
        is_floor_sqrt(x as int, r as int),
        r == floor_sqrt(x as int),
{
    if x == 0 {
        assert(is_floor_sqrt(0, 0)) by (nonlinear_arith);
        proof { lemma_floor_sqrt_is(0, 0); }
        return 0;
    }
    let mut r: u128 = x;
    let mut s: u128 = x / 2 + x % 2;
    proof {
        assert(x < (s + 1) * (s + 1)) by (nonlinear_arith)
            requires s as int == (x as int + 1) / 2, x >= 1;
        assert(x < (r + 1) * (r + 1)) by (nonlinear_arith)
            requires r == x, x >= 1;
    }
    while s < r
        invariant
            1 <= x,
            1 <= s,
            1 <= r <= x,
            x < (r + 1) * (r + 1),
            x < (s + 1) * (s + 1),
            s >= r ==> r * r <= x,
        decreases r,
    {
        let q: u128 = x / s;
        proof {
            // s + x / s <= s * (x / s) + 1 <= x + 1, with equality ruled out
            // because s < x here and s == 1 would force x <= 3.
            assert(q * s <= x) by (nonlinear_arith)
                requires q == x / s, 1 <= s;
            assert(q as int + s as int <= u128::MAX) by (nonlinear_arith)
                requires q == x / s, 1 <= s, s < x, q * s <= x, x <= u128::MAX,
                    x < (s + 1) * (s + 1);
            lemma_newton_step_stays_above(x as int, s as int);
        }
        let next: u128 = (q + s) / 2;
        proof {
            if next >= s {
                assert(s * s <= x) by (nonlinear_arith)
                    requires q == x / s, 1 <= s, (q + s) / 2 >= s;
            }
        }
        r = s;
        s = next;
    }
    proof { lemma_floor_sqrt_is(x as int, r as int); }
    r
}


/// `a * b`, clamped to the largest [`U256`].
pub open spec fn saturated_product(a: int, b: int) -> int {
    if a * b > u256_max() {
        u256_max()
    } else {
        a * b
    }
}

/// `a + b`, clamped to the largest [`U256`].
pub open spec fn saturated_sum(a: int, b: int) -> int {
    if a + b > u256_max() {
        u256_max()
    } else {
        a + b
    }
}

/// Multiplies, clamping at the largest [`U256`] instead of wrapping.
pub fn mul_saturating(a: U256, b: U256) -> (r: U256)
    ensures
        r == saturated_product(a as int, b as int),
{
    match a.checked_mul(b) {
        Some(p) => p,
        None => u128::MAX,
    }
}

} // verus!

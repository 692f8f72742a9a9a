//! Binary floating-point rounding on integers.
//!
//! A few sizes are defined by floating-point formulas. They are computed
//! here on integers, with the roundings that the hardware would make:
//! after every operation the exact result is rounded to the nearest
//! number with 24 (single precision) or 53 (double precision)
//! significant bits, and halfway cases go to the even neighbour. All
//! values are non-negative and far from overflow and underflow, so a
//! number is an integer over a power of two.

use vstd::prelude::*;

verus! {

/// Two to the number of significant bits in single precision.
pub const SINGLE: u128 = 0x100_0000;

/// Two to the number of significant bits in double precision.
pub const DOUBLE: u128 = 0x20_0000_0000_0000;

/// The integer nearest to `n / d`; halfway cases go to the even one.
pub open spec fn nearest(n: int, d: int) -> int {
    let q = n / d;
    let r = n % d;
    if 2 * r < d || (2 * r == d && q % 2 == 0) {
        q
    } else {
        q + 1
    }
}

/// The distance between neighbouring numbers around `x`, where `limit`
/// is two to the number of significant bits: the smallest power of two
/// that, `limit` times over, exceeds `x`.
pub open spec fn spacing(x: int, limit: int) -> int
    decreases x,
{
    if x < limit || limit < 2 {
        1
    } else {
        2 * spacing(x / 2, limit)
    }
}

/// `x` rounded to the nearest number with as many significant bits.
pub open spec fn rounded(x: int, limit: int) -> int {
    nearest(x, spacing(x, limit)) * spacing(x, limit)
}

/// The smallest power of two by which `n` must be multiplied to reach
/// `floor`.
pub open spec fn lift(n: int, floor: int) -> int
    decreases
            if n < floor {
                floor - n
            } else {
                0
            },
{
    if n <= 0 || n >= floor {
        1
    } else {
        2 * lift(2 * n, floor)
    }
}

/// Denominator of the double-precision quotient `n / d`.
pub open spec fn quotient_scale(n: int, d: int) -> int {
    lift(n, 0x10_0000_0000_0000 * d)
}

/// Numerator of the double-precision quotient `n / d`.
pub open spec fn quotient(n: int, d: int) -> int {
    nearest(n * quotient_scale(n, d), d)
}

/// `side * (n / d)` in double precision, as a multiple of one over the
/// quotient's denominator.
pub open spec fn scaled(side: int, n: int, d: int) -> int {
    rounded(side * quotient(n, d), DOUBLE as int)
}

/// `side * (n / d)` in double precision, cut off to an integer.
pub open spec fn scaled_floor(side: int, n: int, d: int) -> int {
    scaled(side, n, d) / quotient_scale(n, d)
}

/// `side * (n / d)` in double precision, rounded to an integer with
/// halfway cases going up.
pub open spec fn scaled_round(side: int, n: int, d: int) -> int {
    (2 * scaled(side, n, d) + quotient_scale(n, d)) / (2 * quotient_scale(n, d))
}

proof fn lemma_nearest(n: int, d: int)
    requires
        n >= 0,
        d > 0,
    ensures
        nearest(n, d) >= 0,
        2 * (nearest(n, d) * d) <= 2 * n + d,
        2 * (nearest(n, d) * d) >= 2 * n - d,
{
    let q = n / d;
    vstd::arithmetic::div_mod::lemma_fundamental_div_mod(n, d);
    assert(q * d == d * q) by (nonlinear_arith);
    assert((q + 1) * d == q * d + d) by (nonlinear_arith);
    assert(q >= 0) by (nonlinear_arith)
        requires
            n >= 0,
            d > 0,
            q == n / d,
    ;
}

proof fn lemma_spacing(x: int, limit: int)
    requires
        x >= 0,
        limit >= 2,
    ensures
        spacing(x, limit) >= 1,
        x < spacing(x, limit) * limit,
        x < limit ==> spacing(x, limit) == 1,
        x >= limit ==> spacing(x, limit) * limit <= 2 * x,
    decreases x,
{
    if x >= limit {
        let half = spacing(x / 2, limit);
        lemma_spacing(x / 2, limit);
        assert((2 * half) * limit == 2 * (half * limit)) by (nonlinear_arith);
        if x / 2 < limit {
            assert(half * limit == limit) by (nonlinear_arith)
                requires
                    half == 1,
            ;
        }
    } else {
        assert(1 * limit == limit);
    }
}

proof fn lemma_rounded(x: int, limit: int)
    requires
        x >= 0,
        limit >= 2,
    ensures
        rounded(x, limit) >= 0,
        2 * rounded(x, limit) <= 2 * x + spacing(x, limit),
        2 * rounded(x, limit) >= 2 * x - spacing(x, limit),
{
    lemma_spacing(x, limit);
    lemma_nearest(x, spacing(x, limit));
    assert(nearest(x, spacing(x, limit)) * spacing(x, limit) >= 0) by (nonlinear_arith)
        requires
            nearest(x, spacing(x, limit)) >= 0,
            spacing(x, limit) >= 1,
    ;
}

proof fn lemma_lift(n: int, floor: int)
    requires
        n >= 1,
    ensures
        lift(n, floor) >= 1,
        n * lift(n, floor) >= floor,
        n < floor ==> n * lift(n, floor) < 2 * floor,
    decreases
            if n < floor {
                floor - n
            } else {
                0
            },
{
    if n < floor {
        lemma_lift(2 * n, floor);
        let l = lift(2 * n, floor);
        assert(n * (2 * l) == (2 * n) * l) by (nonlinear_arith);
        if 2 * n >= floor {
            assert((2 * n) * l == 2 * n) by (nonlinear_arith)
                requires
                    l == 1,
            ;
        }
    } else {
        assert(n * 1 == n);
    }
}

/// `nearest` on machine integers.
fn nearest_of(n: u128, d: u128) -> (q: u128)
    requires
        d > 0,
        n < u128::MAX,
    ensures
        q == nearest(n as int, d as int),
{
    let q: u128 = n / d;
    let r: u128 = n % d;
    proof {
        assert(q <= n) by (nonlinear_arith)
            requires
                q == n / d,
                d > 0,
        ;
    }
    if r < d - r || (r == d - r && q % 2 == 0) {
        q
    } else {
        q + 1
    }
}

/// Rounds `x` to the significant bits that `limit` stands for.
pub fn round_bits(x: u128, limit: u128) -> (y: u128)
    requires
        x <= u128::MAX / 4,
        2 <= limit,
    ensures
        y == rounded(x as int, limit as int),
{
    let mut unit: u128 = 1;
    let mut rest: u128 = x;
    proof {
        assert(1 * spacing(x as int, limit as int) == spacing(x as int, limit as int));
        assert(1 * x == x);
    }
    while rest >= limit
        invariant
            unit >= 1,
            limit >= 2,
            x <= u128::MAX / 4,
            unit * rest <= x,
            spacing(x as int, limit as int) == unit * spacing(rest as int, limit as int),
        decreases rest,
    {
        proof {
            assert(unit * 2 <= x && (unit * 2) * (rest / 2) <= x) by (nonlinear_arith)
                requires
                    unit * rest <= x,
                    rest >= 2,
                    unit >= 1,
            ;
            let half = spacing(rest as int / 2, limit as int);
            assert(unit * (2 * half) == (unit * 2) * half) by (nonlinear_arith);
        }
        unit = unit * 2;
        rest = rest / 2;
    }
    proof {
        assert(unit * 1 == unit);
        lemma_spacing(x as int, limit as int);
        lemma_rounded(x as int, limit as int);
        if x >= limit {
            assert(unit <= x) by (nonlinear_arith)
                requires
                    unit * limit <= 2 * x,
                    limit >= 2,
                    unit >= 1,
            ;
        }
    }
    nearest_of(x, unit) * unit
}

/// The double-precision quotient `n / d` as numerator and denominator.
fn quotient_of(n: u32, d: u32) -> (q: (u128, u128))
    requires
        1 <= n,
        1 <= d,
    ensures
        q.0 == quotient(n as int, d as int),
        q.1 == quotient_scale(n as int, d as int),
        q.1 >= 1,
        q.0 <= 0x20_0000_0000_0000,
        q.1 <= 0x20_0000_0000_0000 * d,
{
    let floor: u128 = 0x10_0000_0000_0000 * d as u128;
    let mut scale: u128 = 1;
    let mut lifted: u128 = n as u128;
    proof {
        assert(n * 1 == n);
        assert(1 * lift(n as int, floor as int) == lift(n as int, floor as int));
    }
    while lifted < floor
        invariant
            1 <= n,
            1 <= d,
            scale >= 1,
            lifted >= 1,
            floor == 0x10_0000_0000_0000 * d,
            lifted == n * scale,
            lift(n as int, floor as int) == scale * lift(lifted as int, floor as int),
        decreases 2 * floor - lifted,
    {
        proof {
            let more = lift(2 * lifted, floor as int);
            assert(scale * (2 * more) == (scale * 2) * more) by (nonlinear_arith);
            assert(n * (scale * 2) == (n * scale) * 2) by (nonlinear_arith);
            assert(scale <= n * scale) by (nonlinear_arith)
                requires
                    n >= 1,
            ;
        }
        scale = scale * 2;
        lifted = lifted * 2;
    }
    proof {
        assert(scale * 1 == scale);
        let floor = floor as int;
        lemma_lift(n as int, floor);
        lemma_nearest(lifted as int, d as int);
        assert(scale <= n * scale) by (nonlinear_arith)
            requires
                n >= 1,
        ;
        let q = nearest(lifted as int, d as int);
        assert(q <= 0x20_0000_0000_0000) by (nonlinear_arith)
            requires
                2 * (q * d) <= 2 * lifted + d,
                lifted < 2 * (0x10_0000_0000_0000 * d),
                d >= 1,
        ;
    }
    (nearest_of(lifted, d as u128), scale)
}

/// Scales `side` by the double-precision quotient `n / d` and cuts the
/// product off to an integer.
pub fn scale_floor(side: u32, n: u32, d: u32) -> (result: u128)
    requires
        1 <= n,
        1 <= d,
    ensures
        result == scaled_floor(side as int, n as int, d as int),
{
    let (numerator, scale) = quotient_of(n, d);
    proof {
        assert(side * numerator <= 0x1_0000_0000 * 0x20_0000_0000_0000) by (nonlinear_arith)
            requires
                side <= 0x1_0000_0000,
                numerator <= 0x20_0000_0000_0000,
        ;
    }
    round_bits(side as u128 * numerator, DOUBLE) / scale
}

/// Scales `side` by the double-precision quotient `n / d` and rounds the
/// product to an integer, halfway cases up.
pub fn scale_round(side: u32, n: u32, d: u32) -> (result: u128)
    requires
        1 <= n,
        1 <= d,
    ensures
        result == scaled_round(side as int, n as int, d as int),
{
    let (numerator, scale) = quotient_of(n, d);
    proof {
        assert(side * numerator <= 0x1_0000_0000 * 0x20_0000_0000_0000) by (nonlinear_arith)
            requires
                side <= 0x1_0000_0000,
                numerator <= 0x20_0000_0000_0000,
        ;
        let x = side * numerator;
        lemma_rounded(x, DOUBLE as int);
        lemma_spacing(x, DOUBLE as int);
    }
    (2 * round_bits(side as u128 * numerator, DOUBLE) + scale) / (2 * scale)
}

/// A side scaled in double precision stays within a bound that it meets
/// in exact arithmetic: if `side * n / d` is at most `bound`, so are the
/// products that are cut off or rounded to an integer.
pub proof fn scaling_respects_bounds(side: int, n: int, d: int, bound: int)
    requires
        1 <= side <= 0x1_0000,
        1 <= n < 0x8000_0000,
        1 <= d <= 0xffff_ffff,
        0 <= bound < 0x8000_0000,
        side * n <= bound * d,
    ensures
        0 <= scaled_floor(side, n, d) <= bound,
        0 <= scaled_round(side, n, d) <= bound,
{
    let floor = 0x10_0000_0000_0000 * d;
    let s = quotient_scale(n, d);
    let m = quotient(n, d);
    lemma_lift(n, floor);
    assert(n * s >= 0) by (nonlinear_arith)
        requires
            n >= 1,
            s >= 1,
    ;
    lemma_nearest(n * s, d);
    assert(s >= 0x20_0000) by (nonlinear_arith)
        requires
            n * s >= 0x10_0000_0000_0000 * d,
            n < 0x8000_0000,
            d >= 1,
            s >= 1,
    ;
    let p = side * m;
    assert(p >= 0) by (nonlinear_arith)
        requires
            side >= 1,
            m >= 0,
            p == side * m,
    ;
    assert(2 * p <= 2 * (bound * s) + side) by (nonlinear_arith)
        requires
            p == side * m,
            2 * (m * d) <= 2 * (n * s) + d,
            side * n <= bound * d,
            side >= 1,
            s >= 1,
            d >= 1,
    {
        assert((side * m) * d == side * (m * d));
        assert(side * (2 * (m * d)) <= side * (2 * (n * s) + d));
        assert((side * n) * s <= (bound * d) * s);
        assert(side * (n * s) == (side * n) * s);
        assert((bound * d) * s == (bound * s) * d);
        assert(2 * (p * d) <= (2 * (bound * s) + side) * d);
    }
    let u = spacing(p, DOUBLE as int);
    let k = rounded(p, DOUBLE as int);
    lemma_spacing(p, DOUBLE as int);
    lemma_rounded(p, DOUBLE as int);
    assert(bound * s <= 0x8000_0000 * s) by (nonlinear_arith)
        requires
            bound < 0x8000_0000,
            s >= 1,
    ;
    assert(2 * k < 2 * (bound * s) + s);
    assert(k / s <= bound && k / s >= 0) by (nonlinear_arith)
        requires
            k >= 0,
            s >= 1,
            2 * k < 2 * (bound * s) + s,
    ;
    assert((2 * k + s) / (2 * s) <= bound && (2 * k + s) / (2 * s) >= 0) by (nonlinear_arith)
        requires
            k >= 0,
            s >= 1,
            2 * k < 2 * (bound * s) + s,
    ;
}

/// Rounding changes a number by at most half of itself.
pub proof fn rounding_error_is_small(x: int, limit: int)
    requires
        x >= 0,
        limit >= 4,
    ensures
        0 <= rounded(x, limit) <= x + x / 2,
{
    lemma_spacing(x, limit);
    lemma_rounded(x, limit);
    if x < limit {
        assert(nearest(x, 1) == x);
        assert(x * 1 == x);
    } else {
        assert(spacing(x, limit) * 4 <= 2 * x) by (nonlinear_arith)
            requires
                spacing(x, limit) * limit <= 2 * x,
                limit >= 4,
                spacing(x, limit) >= 1,
        ;
    }
}

/// Rounding to at least 24 significant bits changes a number by at most
/// its 16777216th part.
pub proof fn rounding_is_close(x: int, limit: int)
    requires
        x >= 0,
        limit >= SINGLE,
    ensures
        x * 0xff_ffff <= rounded(x, limit) * 0x100_0000 <= x * 0x100_0001,
        x < limit ==> rounded(x, limit) == x,
{
    lemma_spacing(x, limit);
    lemma_rounded(x, limit);
    if x < limit {
        assert(nearest(x, 1) == x);
        assert(x * 1 == x);
    } else {
        assert(spacing(x, limit) * 0x100_0000 <= 2 * x) by (nonlinear_arith)
            requires
                spacing(x, limit) * limit <= 2 * x,
                limit >= 0x100_0000,
                spacing(x, limit) >= 1,
        ;
        let r = rounded(x, limit);
        assert(x * 0xff_ffff <= r * 0x100_0000 <= x * 0x100_0001) by (nonlinear_arith)
            requires
                spacing(x, limit) * 0x100_0000 <= 2 * x,
                2 * r <= 2 * x + spacing(x, limit),
                2 * r >= 2 * x - spacing(x, limit),
        ;
    }
}

proof fn lemma_spacing_is(x: int, limit: int, e: nat)
    requires
        x >= 0,
        limit >= 2,
        x < vstd::arithmetic::power2::pow2(e) * limit,
        e > 0 ==> vstd::arithmetic::power2::pow2(e) * limit <= 2 * x,
    ensures
        spacing(x, limit) == vstd::arithmetic::power2::pow2(e),
    decreases e,
{
    vstd::arithmetic::power2::lemma2_to64();
    if e > 0 {
        let below = (e - 1) as nat;
        let half = vstd::arithmetic::power2::pow2(below);
        vstd::arithmetic::power2::lemma_pow2_unfold(e);
        vstd::arithmetic::power2::lemma_pow2_pos(below);
        assert((2 * half) * limit == 2 * (half * limit)) by (nonlinear_arith);
        assert(half * limit >= limit) by (nonlinear_arith)
            requires
                half >= 1,
                limit >= 2,
        ;
        if below > 0 {
            vstd::arithmetic::power2::lemma_pow2_unfold(below);
            let quarter = vstd::arithmetic::power2::pow2((below - 1) as nat);
            assert((2 * quarter) * limit == 2 * (quarter * limit)) by (nonlinear_arith);
        }
        lemma_spacing_is(x / 2, limit, below);
    } else {
        assert(1 * limit == limit);
    }
}

/// A number is rounded to the nearest multiple of the distance between
/// its neighbours, and to the even one of two that are equally near. That
/// distance is one below the limit, and doubles wherever the number
/// reaches another power of two times the limit.
pub proof fn rounding_is_to_nearest_even(x: int, limit: int, e: nat, m: int)
    requires
        x >= 0,
        limit >= 2,
        ({
            let unit = vstd::arithmetic::power2::pow2(e);
            &&& x < unit * limit
            &&& e > 0 ==> unit * limit <= 2 * x
            &&& 2 * (m * unit - x) <= unit
            &&& 2 * (x - m * unit) <= unit
            &&& 2 * (m * unit - x) == unit || 2 * (x - m * unit) == unit ==> m % 2 == 0
        }),
    ensures
        rounded(x, limit) == m * vstd::arithmetic::power2::pow2(e),
{
    let unit = vstd::arithmetic::power2::pow2(e) as int;
    lemma_spacing_is(x, limit, e);
    vstd::arithmetic::power2::lemma_pow2_pos(e);
    let q = x / unit;
    let r = x % unit;
    vstd::arithmetic::div_mod::lemma_fundamental_div_mod(x, unit);
    assert(unit * q == q * unit) by (nonlinear_arith);
    assert((q + 1) * unit == q * unit + unit) by (nonlinear_arith);
    assert(q <= m <= q + 1) by (nonlinear_arith)
        requires
            x == q * unit + r,
            0 <= r < unit,
            2 * (m * unit - x) <= unit,
            2 * (x - m * unit) <= unit,
    ;
    if m == q {
        assert(m * unit == q * unit);
    } else {
        assert(m * unit == (q + 1) * unit);
    }
}

/// A side scaled in double precision is the exact product `side * n / d`,
/// cut off or rounded to an integer, but for an error of at most one
/// thousandth: it matters only where the product is that close to an
/// integer or to the middle between two.
pub proof fn scaling_is_close(side: int, n: int, d: int)
    requires
        1 <= side <= 0x1_0000,
        1 <= n < 0x8000_0000,
        1 <= d <= 0xffff_ffff,
        side * n <= 0x8000_0000 * d,
    ensures
        1000 * (scaled_floor(side, n, d) * d) <= 1000 * (side * n) + d,
        1000 * ((scaled_floor(side, n, d) + 1) * d) > 1000 * (side * n) - d,
        2000 * (scaled_round(side, n, d) * d) <= 2000 * (side * n) + 1002 * d,
        2000 * (scaled_round(side, n, d) * d) > 2000 * (side * n) - 1002 * d,
{
    let floor = 0x10_0000_0000_0000 * d;
    let s = quotient_scale(n, d);
    let m = quotient(n, d);
    lemma_lift(n, floor);
    assert(n * s >= 0) by (nonlinear_arith)
        requires
            n >= 1,
            s >= 1,
    ;
    lemma_nearest(n * s, d);
    assert(s >= 0x20_0000) by (nonlinear_arith)
        requires
            n * s >= 0x10_0000_0000_0000 * d,
            n < 0x8000_0000,
            d >= 1,
            s >= 1,
    ;
    assert(side * 0x20_0000 <= s) by (nonlinear_arith)
        requires
            n * s >= 0x10_0000_0000_0000 * d,
            side * n <= 0x8000_0000 * d,
            n >= 1,
            side >= 1,
            d >= 1,
    {
        assert((side * n) * 0x20_0000 <= (0x8000_0000 * d) * 0x20_0000);
        assert((side * 0x20_0000) * n <= s * n);
    }
    let p = side * m;
    let exact = side * n;
    assert(p >= 0) by (nonlinear_arith)
        requires
            side >= 1,
            m >= 0,
            p == side * m,
    ;
    assert(2 * (p * d) <= 2 * (exact * s) + side * d && 2 * (p * d) >= 2 * (exact * s) - side * d)
        by (nonlinear_arith)
        requires
            p == side * m,
            exact == side * n,
            2 * (m * d) <= 2 * (n * s) + d,
            2 * (m * d) >= 2 * (n * s) - d,
            side >= 1,
    {
        assert((side * m) * d == side * (m * d));
        assert((side * n) * s == side * (n * s));
        assert(side * (2 * (m * d)) <= side * (2 * (n * s) + d));
        assert(side * (2 * (m * d)) >= side * (2 * (n * s) - d));
    }
    assert(p <= 0x8000_0001 * s) by (nonlinear_arith)
        requires
            2 * (p * d) <= 2 * (exact * s) + side * d,
            exact <= 0x8000_0000 * d,
            side * 0x20_0000 <= s,
            side >= 1,
            s >= 1,
            d >= 1,
    {
        assert(exact * s <= (0x8000_0000 * d) * s);
        assert((0x8000_0000 * d) * s == (0x8000_0000 * s) * d);
        assert(side * d <= s * d);
        assert(2 * (p * d) <= 2 * ((0x8000_0000 * s) * d) + s * d);
        assert((2 * p) * d <= (2 * (0x8000_0000 * s) + s) * d);
        assert(2 * p <= 2 * (0x8000_0000 * s) + s);
    }
    let u = spacing(p, DOUBLE as int);
    let k = rounded(p, DOUBLE as int);
    lemma_spacing(p, DOUBLE as int);
    lemma_rounded(p, DOUBLE as int);
    assert(u * 0x8_0000 <= s);
    assert(1000 * (k * d) <= 1000 * (exact * s) + s * d && 1000 * (k * d) >= 1000 * (exact * s) - s
        * d) by (nonlinear_arith)
        requires
            2 * k <= 2 * p + u,
            2 * k >= 2 * p - u,
            2 * (p * d) <= 2 * (exact * s) + side * d,
            2 * (p * d) >= 2 * (exact * s) - side * d,
            u * 0x8_0000 <= s,
            side * 0x20_0000 <= s,
            d >= 1,
            s >= 1,
    {
        assert((2 * k) * d <= (2 * p + u) * d);
        assert((2 * k) * d >= (2 * p - u) * d);
        assert((u * 0x8_0000) * d <= s * d);
        assert((side * 0x20_0000) * d <= s * d);
    }
    lemma_cut(k, s, exact, d);
}

proof fn lemma_cut(k: int, s: int, exact: int, d: int)
    requires
        k >= 0,
        s >= 1,
        d >= 1,
        1000 * (k * d) <= 1000 * (exact * s) + s * d,
        1000 * (k * d) >= 1000 * (exact * s) - s * d,
    ensures
        1000 * ((k / s) * d) <= 1000 * exact + d,
        1000 * ((k / s + 1) * d) > 1000 * exact - d,
        2000 * (((2 * k + s) / (2 * s)) * d) <= 2000 * exact + 1002 * d,
        2000 * (((2 * k + s) / (2 * s)) * d) > 2000 * exact - 1002 * d,
{
    let r = k / s;
    let t = (2 * k + s) / (2 * s);
    assert(r * s <= k < (r + 1) * s) by (nonlinear_arith)
        requires
            s >= 1,
            r == k / s,
    ;
    assert(t * (2 * s) <= 2 * k + s < (t + 1) * (2 * s)) by (nonlinear_arith)
        requires
            s >= 1,
            t == (2 * k + s) / (2 * s),
    ;
    assert(1000 * (r * d) <= 1000 * exact + d) by (nonlinear_arith)
        requires
            r * s <= k,
            1000 * (k * d) <= 1000 * (exact * s) + s * d,
            s >= 1,
            d >= 1,
    {
        assert((r * s) * d <= k * d);
        assert((1000 * (r * d)) * s <= (1000 * exact + d) * s);
    }
    assert(1000 * ((r + 1) * d) > 1000 * exact - d) by (nonlinear_arith)
        requires
            k < (r + 1) * s,
            1000 * (k * d) >= 1000 * (exact * s) - s * d,
            s >= 1,
            d >= 1,
    {
        assert(k * d < ((r + 1) * s) * d);
        assert((1000 * ((r + 1) * d)) * s > (1000 * exact - d) * s);
    }
    assert(2000 * (t * d) <= 2000 * exact + 1002 * d) by (nonlinear_arith)
        requires
            t * (2 * s) <= 2 * k + s,
            1000 * (k * d) <= 1000 * (exact * s) + s * d,
            s >= 1,
            d >= 1,
    {
        assert((t * (2 * s)) * d <= (2 * k + s) * d);
        assert((2000 * (t * d)) * s <= (2000 * exact + 1002 * d) * s);
    }
    assert(2000 * (t * d) > 2000 * exact - 1002 * d) by (nonlinear_arith)
        requires
            2 * k + s < (t + 1) * (2 * s),
            1000 * (k * d) >= 1000 * (exact * s) - s * d,
            s >= 1,
            d >= 1,
    {
        assert((2 * k + s) * d < ((t + 1) * (2 * s)) * d);
        assert((2000 * (t * d)) * s > (2000 * exact - 1002 * d) * s);
    }
}

proof fn lemma_lift_is(n: int, floor: int, e: nat)
    requires
        n >= 1,
        n * vstd::arithmetic::power2::pow2(e) >= floor,
        e > 0 ==> n * vstd::arithmetic::power2::pow2((e - 1) as nat) < floor,
    ensures
        lift(n, floor) == vstd::arithmetic::power2::pow2(e),
    decreases e,
{
    vstd::arithmetic::power2::lemma2_to64();
    if e > 0 {
        let below = (e - 1) as nat;
        let half = vstd::arithmetic::power2::pow2(below) as int;
        vstd::arithmetic::power2::lemma_pow2_unfold(e);
        vstd::arithmetic::power2::lemma_pow2_pos(below);
        assert(n * (2 * half) == (2 * n) * half) by (nonlinear_arith);
        assert(n <= n * half) by (nonlinear_arith)
            requires
                n >= 1,
                half >= 1,
        ;
        if below > 0 {
            vstd::arithmetic::power2::lemma_pow2_unfold(below);
            let quarter = vstd::arithmetic::power2::pow2((below - 1) as nat) as int;
            assert(n * (2 * quarter) == (2 * n) * quarter) by (nonlinear_arith);
        }
        lemma_lift_is(2 * n, floor, below);
    } else {
        assert(n * 1 == n);
    }
}

/// The double-precision quotient of two numbers: the numerator is shifted
/// until the quotient has 53 significant bits, and the quotient `m` is
/// then the nearest integer, the even one of two. The side times that
/// quotient is rounded once more, to `x`, and then cut off or rounded to a
/// whole number.
pub proof fn scaling_rounds_twice(side: int, n: int, d: int, e: nat, m: int)
    requires
        side >= 0,
        1 <= n,
        1 <= d,
        m >= 0,
        ({
            let scale = vstd::arithmetic::power2::pow2(e);
            &&& n * scale >= 0x10_0000_0000_0000 * d
            &&& e > 0 ==> n * vstd::arithmetic::power2::pow2((e - 1) as nat) < 0x10_0000_0000_0000
                * d
            &&& 2 * (m * d - n * scale) <= d
            &&& 2 * (n * scale - m * d) <= d
            &&& 2 * (m * d - n * scale) == d || 2 * (n * scale - m * d) == d ==> m % 2 == 0
        }),
    ensures
        ({
            let scale = vstd::arithmetic::power2::pow2(e);
            let x = rounded(side * m, DOUBLE as int);
            &&& scaled_floor(side, n, d) * scale <= x < (scaled_floor(side, n, d) + 1) * scale
            &&& (2 * scaled_round(side, n, d) - 1) * scale <= 2 * x < (2 * scaled_round(side, n, d)
                + 1) * scale
        }),
{
    let scale = vstd::arithmetic::power2::pow2(e) as int;
    vstd::arithmetic::power2::lemma_pow2_pos(e);
    lemma_lift_is(n, 0x10_0000_0000_0000 * d, e);
    let t = n * scale;
    let q = t / d;
    let r = t % d;
    vstd::arithmetic::div_mod::lemma_fundamental_div_mod(t, d);
    assert(d * q == q * d) by (nonlinear_arith);
    assert((q + 1) * d == q * d + d) by (nonlinear_arith);
    assert(q <= m <= q + 1) by (nonlinear_arith)
        requires
            t == q * d + r,
            0 <= r < d,
            2 * (m * d - t) <= d,
            2 * (t - m * d) <= d,
    ;
    if m == q {
        assert(m * d == q * d);
    } else {
        assert(m * d == (q + 1) * d);
    }
    assert(quotient(n, d) == m);
    let x = rounded(side * m, DOUBLE as int);
    let cut = x / scale;
    assert(cut * scale <= x < (cut + 1) * scale) by (nonlinear_arith)
        requires
            scale >= 1,
            cut == x / scale,
    ;
    let near = (2 * x + scale) / (2 * scale);
    assert((2 * near - 1) * scale <= 2 * x < (2 * near + 1) * scale) by (nonlinear_arith)
        requires
            scale >= 1,
            near == (2 * x + scale) / (2 * scale),
    ;
}

} // verus!

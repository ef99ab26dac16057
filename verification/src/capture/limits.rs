//! The sizes that the software encoder accepts.
//!
//! A size beyond the limits is scaled by a ratio below one, computed in double
//! precision. Double arithmetic is written here in integers: a double is an
//! integer of 53 bits times a power of two, and every operation gives the
//! nearest one, ties to even.
use vstd::prelude::*;

verus! {

/// The most pixels along the longer side.
pub const H264_SOFTWARE_MAX_LONG_DIMENSION: u32 = 3840;

/// The most pixels along the shorter side.
pub const H264_SOFTWARE_MAX_SHORT_DIMENSION: u32 = 2160;

/// The smallest integer of 53 bits.
pub const MANTISSA_MIN: u64 = 0x10_0000_0000_0000;

/// The integer next to `n / d`, the even one of two equally near.
pub open spec fn nearest_even(n: int, d: int) -> int {
    let q = n / d;
    let r = n % d;
    if 2 * r > d || (2 * r == d && q % 2 == 1) {
        q + 1
    } else {
        q
    }
}

/// The power of two that lifts `n / d` to at least 53 bits.
pub open spec fn lift(n: int, d: int) -> int
    decreases 2 * (d * MANTISSA_MIN) - n,
{
    if n <= 0 || n >= d * MANTISSA_MIN {
        1
    } else {
        2 * lift(2 * n, d)
    }
}

/// The power of two by which a product of more than 53 bits is rounded.
pub open spec fn unit_of(p: int) -> int
    decreases p,
{
    if p < 2 * MANTISSA_MIN {
        1
    } else {
        2 * unit_of(p / 2)
    }
}

/// The mantissa of the double that is nearest to `n / d`, for `0 < n < d`; its
/// exponent undoes `lift(n, d)`.
pub open spec fn mantissa(n: int, d: int) -> int {
    nearest_even(n * lift(n, d), d)
}

/// `p` rounded to 53 significant bits.
pub open spec fn rounded(p: int) -> int {
    nearest_even(p, unit_of(p)) * unit_of(p)
}

/// `w` times the double nearest to `n / d`, as a double, rounded down to an
/// integer.
pub open spec fn times_ratio(w: int, n: int, d: int) -> int {
    rounded(w * mantissa(n, d)) / lift(n, d)
}

/// `v` without its lowest bit.
pub open spec fn even(v: int) -> int {
    v - v % 2
}

/// The larger of the two sides.
pub open spec fn long_side(w: int, h: int) -> int {
    if w >= h {
        w
    } else {
        h
    }
}

/// The smaller of the two sides.
pub open spec fn short_side(w: int, h: int) -> int {
    if w <= h {
        w
    } else {
        h
    }
}

/// Whether the encoder accepts the size as it is.
pub open spec fn within_limits(w: int, h: int) -> bool {
    long_side(w, h) <= H264_SOFTWARE_MAX_LONG_DIMENSION && short_side(w, h)
        <= H264_SOFTWARE_MAX_SHORT_DIMENSION
}

/// The smaller of the two ratios by which a limit is exceeded.
pub open spec fn limiting_ratio(w: int, h: int) -> (int, int) {
    let long = long_side(w, h);
    let short = short_side(w, h);
    if H264_SOFTWARE_MAX_LONG_DIMENSION * short <= H264_SOFTWARE_MAX_SHORT_DIMENSION * long {
        (H264_SOFTWARE_MAX_LONG_DIMENSION as int, long)
    } else {
        (H264_SOFTWARE_MAX_SHORT_DIMENSION as int, short)
    }
}

/// A scaled side: even, and at least two.
pub open spec fn scaled_side(v: int) -> int {
    if v >= 2 {
        even(v)
    } else {
        2
    }
}

/// The size that is used where `(w, h)` is asked for.
pub open spec fn clamped(w: int, h: int) -> (int, int) {
    let w = even(w);
    let h = even(h);
    if w == 0 || h == 0 || within_limits(w, h) {
        (w, h)
    } else {
        let (n, d) = limiting_ratio(w, h);
        (scaled_side(times_ratio(w, n, d)), scaled_side(times_ratio(h, n, d)))
    }
}

proof fn lemma_nearest(n: int, d: int)
    requires
        0 <= n,
        0 < d,
    ensures
        2 * n - d <= 2 * (nearest_even(n, d) * d) <= 2 * n + d,
        0 <= nearest_even(n, d),
{
    let q = n / d;
    let r = n % d;
    vstd::arithmetic::div_mod::lemma_fundamental_div_mod(n, d);
    assert((q + 1) * d == q * d + d) by (nonlinear_arith);
    assert(q * d == d * q) by (nonlinear_arith);
    assert(0 <= q) by (nonlinear_arith)
        requires
            0 <= n,
            0 < d,
            q == n / d,
    ;
}

proof fn lemma_lift(n: int, d: int)
    requires
        0 < n < d,
    ensures
        lift(n, d) >= 1,
        d * MANTISSA_MIN <= n * lift(n, d) < 2 * (d * MANTISSA_MIN),
{
    lemma_lift_step(n, d);
}

proof fn lemma_lift_step(n: int, d: int)
    requires
        0 < n < 2 * (d * MANTISSA_MIN),
        0 < d,
    ensures
        lift(n, d) >= 1,
        d * MANTISSA_MIN <= n * lift(n, d) < 2 * (d * MANTISSA_MIN),
    decreases 2 * (d * MANTISSA_MIN) - n,
{
    if n < d * MANTISSA_MIN {
        lemma_lift_step(2 * n, d);
        assert(2 * n * lift(2 * n, d) == n * (2 * lift(2 * n, d))) by (nonlinear_arith);
    } else {
        assert(n * 1 == n);
    }
}

proof fn lemma_unit(p: int)
    requires
        0 <= p,
    ensures
        1 <= unit_of(p),
        unit_of(p) * MANTISSA_MIN <= p || unit_of(p) == 1,
    decreases p,
{
    if p >= 2 * MANTISSA_MIN {
        lemma_unit(p / 2);
        assert(2 * unit_of(p / 2) * MANTISSA_MIN == 2 * (unit_of(p / 2) * MANTISSA_MIN))
            by (nonlinear_arith);
    }
}

/// The lift is large against the factor and against the rounding of the product.
proof fn lemma_errors_are_small(w: int, n: int, d: int)
    requires
        0 < w < 0x1_0000_0000,
        0 < n < d < 0x1_0000_0000,
        n <= 3840,
    ensures
        0 <= w * mantissa(n, d),
        lift(n, d) >= 0x100_0000_0000,
        1 <= unit_of(w * mantissa(n, d)) <= lift(n, d) / 0x10_0000,
        2 * (n * lift(n, d)) - d <= 2 * (mantissa(n, d) * d) <= 2 * (n * lift(n, d)) + d,
{
    let k = lift(n, d);
    let m = mantissa(n, d);
    let p = w * m;
    let unit = unit_of(p);
    lemma_lift(n, d);
    assert(0 <= n * k) by (nonlinear_arith)
        requires
            0 < n,
            1 <= k,
    ;
    lemma_nearest(n * k, d);
    assert(0 <= w * m) by (nonlinear_arith)
        requires
            0 < w,
            0 <= m,
    ;
    lemma_unit(p);
    assert(2 * p <= 2 * (w * k) + w) by (nonlinear_arith)
        requires
            2 * (m * d) <= 2 * (n * k) + d,
            p == w * m,
            0 < w,
            0 < n < d,
            1 <= k,
    ;
    assert(k * 3840 >= d * MANTISSA_MIN) by (nonlinear_arith)
        requires
            d * MANTISSA_MIN <= n * k,
            n <= 3840,
            1 <= k,
    ;
    assert(k >= 0x100_0000_0000) by (nonlinear_arith)
        requires
            k * 3840 >= d * MANTISSA_MIN,
            d >= 1,
            MANTISSA_MIN == 0x10_0000_0000_0000,
    ;
    assert(w * k <= 0xffff_ffff * k) by (nonlinear_arith)
        requires
            w <= 0xffff_ffff,
            1 <= k,
    ;
    assert(unit * MANTISSA_MIN <= p || unit == 1);
    assert(unit <= k / 0x10_0000) by (nonlinear_arith)
        requires
            2 * (unit * MANTISSA_MIN) <= 2 * (0xffff_ffff * k) + w || unit == 1,
            MANTISSA_MIN == 0x10_0000_0000_0000,
            w < 0x1_0000_0000,
            k >= 0x100_0000_0000,
    ;
}

/// Where the exact result is at most `limit`, so is the computed one.
proof fn lemma_times_ratio_limit(w: int, n: int, d: int, limit: int)
    requires
        0 < w < 0x1_0000_0000,
        0 < n < d < 0x1_0000_0000,
        n <= 3840,
        0 < limit < 0x1_0000_0000,
        w * n <= limit * d,
    ensures
        0 <= times_ratio(w, n, d) <= limit,
{
    let k = lift(n, d);
    let m = mantissa(n, d);
    let p = w * m;
    let unit = unit_of(p);
    lemma_errors_are_small(w, n, d);
    lemma_nearest(p, unit);
    // 2 * m * d <= 2 * n * k + d, so 2 * p * d <= 2 * limit * d * k + w * d
    assert(2 * (p * d) <= 2 * (limit * d * k) + w * d) by (nonlinear_arith)
        requires
            2 * (m * d) <= 2 * (n * k) + d,
            w * n <= limit * d,
            p == w * m,
            0 < w,
            1 <= k,
    ;
    assert(2 * p <= 2 * (limit * k) + w) by (nonlinear_arith)
        requires
            2 * (p * d) <= 2 * (limit * d * k) + w * d,
            0 < d,
    ;
    let q = rounded(p);
    assert(2 * q <= 2 * p + unit);
    assert(2 * q < 2 * (limit * k) + 2 * k);
    assert(0 <= q) by (nonlinear_arith)
        requires
            q == nearest_even(p, unit) * unit,
            0 <= nearest_even(p, unit),
            1 <= unit,
    ;
    assert(0 <= q / k <= limit) by (nonlinear_arith)
        requires
            0 <= q,
            q < limit * k + k,
            1 <= k,
    ;
}

/// The computed result lies less than two below the exact one.
proof fn lemma_times_ratio_lower(w: int, n: int, d: int)
    requires
        0 < w < 0x1_0000_0000,
        0 < n < d < 0x1_0000_0000,
        n <= 3840,
    ensures
        times_ratio(w, n, d) * d > w * n - 2 * d,
{
    let k = lift(n, d);
    let m = mantissa(n, d);
    let p = w * m;
    let unit = unit_of(p);
    let q = rounded(p);
    let v = times_ratio(w, n, d);
    lemma_errors_are_small(w, n, d);
    lemma_nearest(p, unit);
    assert(2 * q >= 2 * p - unit);
    assert(v * k > q - k) by (nonlinear_arith)
        requires
            v == q / k,
            1 <= k,
    ;
    // 2 * m * d >= 2 * n * k - d, so 2 * p * d >= 2 * w * n * k - w * d
    assert(2 * (p * d) >= 2 * (w * n * k) - w * d) by (nonlinear_arith)
        requires
            2 * (m * d) >= 2 * (n * k) - d,
            p == w * m,
            0 < w,
    ;
    assert(2 * (v * k) > 2 * p - unit - 2 * k);
    assert(2 * (v * k * d) > 2 * (p * d) - unit * d - 2 * (k * d)) by (nonlinear_arith)
        requires
            2 * (v * k) > 2 * p - unit - 2 * k,
            0 < d,
    ;
    assert(w * d + unit * d <= 2 * (k * d)) by (nonlinear_arith)
        requires
            w + unit <= 2 * k,
            0 < d,
    ;
    assert(k * (v * d) > k * (w * n - 2 * d)) by (nonlinear_arith)
        requires
            2 * (v * k * d) > 2 * (w * n * k) - 4 * (k * d),
    ;
    assert(v * d > w * n - 2 * d) by (nonlinear_arith)
        requires
            k * (v * d) > k * (w * n - 2 * d),
            1 <= k,
    ;
}

proof fn lemma_nearest_monotone(p: int, q: int, d: int)
    requires
        0 <= p <= q,
        0 < d,
    ensures
        nearest_even(p, d) <= nearest_even(q, d),
{
    vstd::arithmetic::div_mod::lemma_fundamental_div_mod(p, d);
    vstd::arithmetic::div_mod::lemma_fundamental_div_mod(q, d);
    vstd::arithmetic::div_mod::lemma_div_is_ordered(p, q, d);
}

proof fn lemma_unit_upper(p: int)
    requires
        0 <= p,
    ensures
        p < 2 * (MANTISSA_MIN * unit_of(p)),
    decreases p,
{
    if p >= 2 * MANTISSA_MIN {
        lemma_unit_upper(p / 2);
        assert(MANTISSA_MIN * (2 * unit_of(p / 2)) == 2 * (MANTISSA_MIN * unit_of(p / 2)))
            by (nonlinear_arith);
    }
}

proof fn lemma_unit_order(p: int, q: int)
    requires
        0 <= p <= q,
    ensures
        unit_of(p) == unit_of(q) || 2 * unit_of(p) <= unit_of(q),
    decreases q,
{
    if q >= 2 * MANTISSA_MIN {
        lemma_unit(q / 2);
        if p >= 2 * MANTISSA_MIN {
            lemma_unit_order(p / 2, q / 2);
        }
    }
}

proof fn lemma_rounded_monotone(p: int, q: int)
    requires
        0 <= p <= q,
    ensures
        rounded(p) <= rounded(q),
{
    let u = unit_of(p);
    let v = unit_of(q);
    let low = nearest_even(p, u);
    let high = nearest_even(q, v);
    lemma_unit(p);
    lemma_unit(q);
    lemma_unit_order(p, q);
    lemma_unit_upper(p);
    if u == v {
        lemma_nearest_monotone(p, q, u);
        assert(low * u <= high * u) by (nonlinear_arith)
            requires
                low <= high,
                1 <= u,
        ;
    } else {
        assert(p / u < 2 * MANTISSA_MIN) by (nonlinear_arith)
            requires
                p < 2 * (MANTISSA_MIN * u),
                1 <= u,
        ;
        assert(q / v >= MANTISSA_MIN) by (nonlinear_arith)
            requires
                v * MANTISSA_MIN <= q,
                1 <= v,
        ;
        assert(low * u <= high * v) by (nonlinear_arith)
            requires
                low <= 2 * MANTISSA_MIN,
                high >= MANTISSA_MIN,
                2 * u <= v,
                1 <= u,
        ;
    }
}

proof fn lemma_times_ratio_monotone(w: int, h: int, n: int, d: int)
    requires
        0 <= w <= h,
        0 < n < d,
    ensures
        times_ratio(w, n, d) <= times_ratio(h, n, d),
{
    let k = lift(n, d);
    let m = mantissa(n, d);
    lemma_lift(n, d);
    lemma_mantissa_range(n, d);
    assert(0 <= w * m <= h * m) by (nonlinear_arith)
        requires
            0 <= w <= h,
            0 <= m,
    ;
    lemma_rounded_monotone(w * m, h * m);
    vstd::arithmetic::div_mod::lemma_div_is_ordered(rounded(w * m), rounded(h * m), k);
}

fn nearest_even_of(n: u128, d: u128) -> (r: u128)
    requires
        0 < d <= 0x1_0000_0000_0000_0000_0000_0000,
        n <= 0x1_0000_0000_0000_0000_0000_0000,
    ensures
        r == nearest_even(n as int, d as int),
{
    let q: u128 = n / d;
    let r: u128 = n % d;
    proof {
        assert(n as int / d as int <= n) by (nonlinear_arith)
            requires
                0 < d,
                0 <= n,
        ;
    }
    if 2 * r > d || (2 * r == d && q % 2 == 1) {
        q + 1
    } else {
        q
    }
}

/// The mantissa of `n / d` and the power of two that lifts it.
fn ratio(n: u32, d: u32) -> (r: (u128, u128))
    requires
        0 < n < d,
    ensures
        r.0 == mantissa(n as int, d as int),
        r.1 == lift(n as int, d as int),
        1 <= r.1,
{
    assert(d <= d * MANTISSA_MIN <= 0xffff_ffff * 0x10_0000_0000_0000) by (nonlinear_arith)
        requires
            MANTISSA_MIN == 0x10_0000_0000_0000,
            d <= 0xffff_ffff,
    ;
    let floor: u128 = d as u128 * MANTISSA_MIN as u128;
    let mut lifted: u128 = n as u128;
    let mut power: u128 = 1;
    while lifted < floor
        invariant
            0 < n < d,
            floor == d * MANTISSA_MIN,
            floor <= 0xffff_ffff * 0x10_0000_0000_0000,
            0 < lifted < 2 * floor,
            1 <= power <= lifted,
            lifted == n * power,
            lift(n as int, d as int) == power * lift(lifted as int, d as int),
        decreases 2 * floor - lifted,
    {
        proof {
            assert(n * (2 * power) == 2 * (n * power)) by (nonlinear_arith);
            let further = lift(2 * lifted as int, d as int);
            assert(power * (2 * further) == (2 * power) * further) by (nonlinear_arith);
        }
        lifted = 2 * lifted;
        power = 2 * power;
    }
    (nearest_even_of(lifted, d as u128), power)
}

/// The power of two by which `p` is rounded to 53 bits.
fn rounding_unit(p: u128) -> (r: u128)
    requires
        p <= 0x1_0000_0000_0000_0000_0000_0000,
    ensures
        r == unit_of(p as int),
        1 <= r,
        r == 1 || r * MANTISSA_MIN <= p,
{
    let mut rest: u128 = p;
    let mut unit: u128 = 1;
    while rest >= 2 * MANTISSA_MIN as u128
        invariant
            p <= 0x1_0000_0000_0000_0000_0000_0000,
            1 <= unit,
            unit * rest <= p,
            unit_of(p as int) == unit * unit_of(rest as int),
        decreases rest,
    {
        proof {
            let half = rest as int / 2;
            assert((2 * unit) * half <= unit * rest) by (nonlinear_arith)
                requires
                    2 * half <= rest,
                    1 <= unit,
            ;
            assert(unit * (2 * unit_of(half)) == (2 * unit) * unit_of(half)) by (nonlinear_arith);
            assert(unit <= unit * rest) by (nonlinear_arith)
                requires
                    rest >= 1,
                    1 <= unit,
            ;
        }
        rest = rest / 2;
        unit = 2 * unit;
    }
    proof {
        lemma_unit(p as int);
    }
    unit
}

fn scale_side(
    w: u32,
    mantissa_and_power: (u128, u128),
    Ghost(n): Ghost<int>,
    Ghost(d): Ghost<int>,
) -> (r: u32)
    requires
        0 < w,
        0 < n < d < 0x1_0000_0000,
        n <= 3840,
        mantissa_and_power.0 == mantissa(n, d),
        mantissa_and_power.1 == lift(n, d),
        1 <= mantissa_and_power.1,
    ensures
        r == scaled_side(times_ratio(w as int, n, d)),
{
    let m: u128 = mantissa_and_power.0;
    let power: u128 = mantissa_and_power.1;
    proof {
        lemma_mantissa_range(n, d);
        assert(0 <= w * m <= 0xffff_ffff * 0x20_0000_0000_0001) by (nonlinear_arith)
            requires
                w <= 0xffff_ffff,
                m <= 0x20_0000_0000_0001,
        ;
        assert(w * n <= w * d) by (nonlinear_arith)
            requires
                0 < w,
                n < d,
        ;
        lemma_times_ratio_limit(w as int, n, d, w as int);
    }
    let p: u128 = w as u128 * m;
    let unit: u128 = rounding_unit(p);
    let near: u128 = nearest_even_of(p, unit);
    proof {
        lemma_nearest(p as int, unit as int);
    }
    let v: u32 = ((near * unit) / power) as u32;
    let at_least_two: u32 = if v >= 2 {
        v
    } else {
        2
    };
    at_least_two - at_least_two % 2
}

proof fn lemma_mantissa_range(n: int, d: int)
    requires
        0 < n < d,
    ensures
        0 <= mantissa(n, d) <= 0x20_0000_0000_0001,
{
    lemma_lift(n, d);
    let k = lift(n, d);
    lemma_nearest(n * k, d);
    let m = mantissa(n, d);
    assert(m <= 0x20_0000_0000_0001) by (nonlinear_arith)
        requires
            2 * (m * d) <= 2 * (n * k) + d,
            n * k < 2 * (d * MANTISSA_MIN),
            MANTISSA_MIN == 0x10_0000_0000_0000,
            0 < d,
    ;
}

/// Brings a size within the limits of the software encoder: even sides, and a
/// size that is too large scaled down by the ratio that fits both limits.
pub fn clamp_to_h264_software_limits(width: u32, height: u32) -> (r: (u32, u32))
    ensures
        (r.0 as int, r.1 as int) == clamped(width as int, height as int),
{
    let width: u32 = width - width % 2;
    let height: u32 = height - height % 2;
    if width == 0 || height == 0 {
        return (width, height);
    }
    let (long, short): (u32, u32) = if width >= height {
        (width, height)
    } else {
        (height, width)
    };
    if long <= H264_SOFTWARE_MAX_LONG_DIMENSION && short <= H264_SOFTWARE_MAX_SHORT_DIMENSION {
        return (width, height);
    }
    let by_long = H264_SOFTWARE_MAX_LONG_DIMENSION as u64 * short as u64
        <= H264_SOFTWARE_MAX_SHORT_DIMENSION as u64 * long as u64;
    let (n, d): (u32, u32) = if by_long {
        (H264_SOFTWARE_MAX_LONG_DIMENSION, long)
    } else {
        (H264_SOFTWARE_MAX_SHORT_DIMENSION, short)
    };
    let scale = ratio(n, d);
    (
        scale_side(width, scale, Ghost(n as int), Ghost(d as int)),
        scale_side(height, scale, Ghost(n as int), Ghost(d as int)),
    )
}

/// What is used is always even and within the limits, and never more than was
/// asked for, except that a scaled side keeps two pixels.
pub proof fn clamped_sizes_are_accepted(w: int, h: int)
    requires
        0 <= w <= u32::MAX,
        0 <= h <= u32::MAX,
    ensures
        ({
            let (cw, ch) = clamped(w, h);
            &&& cw % 2 == 0 && ch % 2 == 0
            &&& cw == 0 || ch == 0 || within_limits(cw, ch)
            &&& 0 <= cw <= w && 0 <= ch <= h
        }),
{
    let ew = even(w);
    let eh = even(h);
    if ew != 0 && eh != 0 && !within_limits(ew, eh) {
        let (n, d) = limiting_ratio(ew, eh);
        let long = long_side(ew, eh);
        let short = short_side(ew, eh);
        assert(0 < n < d);
        if 3840 * short <= 2160 * long {
            assert(long * n == 3840 * d && short * n == 3840 * short);
        } else {
            assert(long * n == 2160 * long && short * n == 2160 * d);
        }
        assert(ew * n <= ew * d) by (nonlinear_arith)
            requires
                0 < ew,
                n < d,
        ;
        assert(eh * n <= eh * d) by (nonlinear_arith)
            requires
                0 < eh,
                n < d,
        ;
        lemma_times_ratio_limit(ew, n, d, ew);
        lemma_times_ratio_limit(eh, n, d, eh);
        lemma_times_ratio_limit(long, n, d, 3840);
        lemma_times_ratio_limit(short, n, d, 2160);
    }
}

/// A size that was clamped once is kept: a client that asks again for the size
/// it was given gets the same size.
pub proof fn clamping_is_idempotent(w: int, h: int)
    requires
        0 <= w <= u32::MAX,
        0 <= h <= u32::MAX,
    ensures
        clamped(clamped(w, h).0, clamped(w, h).1) == clamped(w, h),
{
    clamped_sizes_are_accepted(w, h);
}

/// The side that is at most the other stays so.
pub proof fn clamping_keeps_the_order_of_the_sides(w: int, h: int)
    requires
        0 <= w <= u32::MAX,
        0 <= h <= u32::MAX,
    ensures
        w <= h ==> clamped(w, h).0 <= clamped(w, h).1,
        h <= w ==> clamped(w, h).1 <= clamped(w, h).0,
{
    let ew = even(w);
    let eh = even(h);
    if ew != 0 && eh != 0 && !within_limits(ew, eh) {
        let (n, d) = limiting_ratio(ew, eh);
        if w <= h {
            lemma_times_ratio_monotone(ew, eh, n, d);
        }
        if h <= w {
            lemma_times_ratio_monotone(eh, ew, n, d);
        }
    }
}

/// A side scaled by `n / d`: less than three pixels below the exact value and less
/// than one above it, except that two pixels are kept.
pub open spec fn is_scaled(from: int, to: int, n: int, d: int) -> bool {
    &&& from * n - 3 * d < to * d
    &&& to * d < from * n + d || to == 2
}

/// A size that is too large keeps its shape and uses up a limit: both sides are
/// scaled by the same ratio, that of a limit to the side that exceeds it most, and
/// that side comes out at the limit or two pixels below.
pub proof fn clamping_keeps_the_shape(w: int, h: int)
    requires
        0 <= w <= u32::MAX,
        0 <= h <= u32::MAX,
        even(w) != 0,
        even(h) != 0,
        !within_limits(even(w), even(h)),
    ensures
        ({
            let (n, d) = limiting_ratio(even(w), even(h));
            let (cw, ch) = clamped(w, h);
            &&& is_scaled(even(w), cw, n, d)
            &&& is_scaled(even(h), ch, n, d)
            &&& d == even(w) && n - 2 <= cw <= n || d == even(h) && n - 2 <= ch <= n
        }),
{
    let ew = even(w);
    let eh = even(h);
    let (n, d) = limiting_ratio(ew, eh);
    lemma_side_is_scaled(ew, n, d);
    lemma_side_is_scaled(eh, n, d);
    let at = scaled_side(times_ratio(d, n, d));
    lemma_side_is_scaled(d, n, d);
    assert(n - 3 < at) by (nonlinear_arith)
        requires
            d * n - 3 * d < at * d,
            0 < d,
    ;
    assert(d * n <= n * d) by (nonlinear_arith);
    lemma_times_ratio_limit(d, n, d, n);
}

proof fn lemma_side_is_scaled(s: int, n: int, d: int)
    requires
        0 < s < 0x1_0000_0000,
        0 < n < d < 0x1_0000_0000,
        n <= 3840,
    ensures
        is_scaled(s, scaled_side(times_ratio(s, n, d)), n, d),
{
    let v = times_ratio(s, n, d);
    let to = scaled_side(v);
    lemma_times_ratio_lower(s, n, d);
    assert(s * n - 3 * d < to * d) by (nonlinear_arith)
        requires
            s * n - 2 * d < v * d,
            v - 1 <= to,
            0 < d,
    ;
    // the exact value, rounded up, bounds the computed one
    let up = (s * n + d - 1) / d;
    assert(up * d < s * n + d && s * n <= up * d && 0 < up) by (nonlinear_arith)
        requires
            up == (s * n + d - 1) / d,
            0 < s,
            0 < n,
            0 < d,
    ;
    assert(up <= s) by (nonlinear_arith)
        requires
            up * d < s * n + d,
            n < d,
            0 < s,
            0 < d,
    ;
    lemma_times_ratio_limit(s, n, d, up);
    if v >= 2 {
        assert(to * d <= up * d) by (nonlinear_arith)
            requires
                to <= up,
                0 < d,
        ;
    }
}

/// An even size within the limits is used as it is.
pub proof fn accepted_sizes_are_kept(w: int, h: int)
    requires
        0 <= w <= u32::MAX,
        0 <= h <= u32::MAX,
        w % 2 == 0,
        h % 2 == 0,
        within_limits(w, h),
    ensures
        clamped(w, h) == (w, h),
{
}

/// The computed result is the exact one, rounded down, up to a 128th of a pixel.
pub proof fn scaling_is_exact_to_a_128th(w: int, n: int, d: int)
    requires
        0 < w < 0x1_0000_0000,
        0 < n < d < 0x1_0000_0000,
        n <= 3840,
    ensures
        128 * (w * n) - 129 * d < 128 * (times_ratio(w, n, d) * d) <= 128 * (w * n) + d,
{
    let k = lift(n, d);
    let m = mantissa(n, d);
    let p = w * m;
    let unit = unit_of(p);
    let q = rounded(p);
    let v = times_ratio(w, n, d);
    lemma_errors_are_small(w, n, d);
    lemma_nearest(p, unit);
    assert(v * k <= q < v * k + k) by (nonlinear_arith)
        requires
            v == q / k,
            1 <= k,
    ;
    let exact = w * n * k;
    assert(2 * exact - w * d <= 2 * (p * d) <= 2 * exact + w * d) by (nonlinear_arith)
        requires
            2 * (n * k) - d <= 2 * (m * d) <= 2 * (n * k) + d,
            p == w * m,
            exact == w * n * k,
            0 < w,
    ;
    assert(2 * (v * k * d) > 2 * (p * d) - unit * d - 2 * (k * d)) by (nonlinear_arith)
        requires
            2 * q >= 2 * p - unit,
            q < v * k + k,
            0 < d,
    ;
    assert(2 * (v * k * d) <= 2 * (p * d) + unit * d) by (nonlinear_arith)
        requires
            2 * q <= 2 * p + unit,
            v * k <= q,
            0 < d,
    ;
    assert(64 * (w * d + unit * d) <= k * d) by (nonlinear_arith)
        requires
            64 * (w + unit) <= k,
            0 < d,
    ;
    assert(k * (128 * (v * d)) == 128 * (v * k * d)) by (nonlinear_arith);
    assert(k * (128 * (w * n)) == 128 * exact) by (nonlinear_arith)
        requires
            exact == w * n * k,
    ;
    assert(k * (128 * (w * n) - 129 * d) == 128 * exact - 129 * (k * d)) by (nonlinear_arith)
        requires
            k * (128 * (w * n)) == 128 * exact,
    ;
    assert(k * (128 * (w * n) + d) == 128 * exact + k * d) by (nonlinear_arith)
        requires
            k * (128 * (w * n)) == 128 * exact,
    ;
    assert(k * (128 * (v * d)) > k * (128 * (w * n) - 129 * d));
    assert(k * (128 * (v * d)) <= k * (128 * (w * n) + d));
    assert(128 * (v * d) > 128 * (w * n) - 129 * d) by (nonlinear_arith)
        requires
            k * (128 * (v * d)) > k * (128 * (w * n) - 129 * d),
            1 <= k,
    ;
    assert(128 * (v * d) <= 128 * (w * n) + d) by (nonlinear_arith)
        requires
            k * (128 * (v * d)) <= k * (128 * (w * n) + d),
            1 <= k,
    ;
}

} // verus!

//! Headings. A heading is kept as a direction vector of length
//! `HEADING_UNIT` up to rounding, so that turning a pose toward a point and
//! placing a handle along a heading are integer arithmetic. The angle of a
//! heading, where one is wanted, is the angle of its vector from the
//! positive x axis.

use vstd::prelude::*;
use crate::field::FieldPosition;
use crate::math::{
    div_toward_zero, div_trunc, floor_sqrt, is_floor_sqrt, isqrt, lemma_floor_sqrt,
    lemma_floor_sqrt_unique, lemma_square_monotonic, magnitude,
};

verus! {

/// Length of a heading vector that stands for a direction.
pub const HEADING_UNIT: i32 = 1_000_000;

/// A direction on the field: the vector `(x, y)`, of length `HEADING_UNIT`
/// where it was made by this library. The angle of the heading is the angle
/// of that vector, counted from the positive x axis.
#[derive(Clone, Copy, Debug, PartialEq, Eq, Structural)]
pub struct Heading {
    pub x: i32,
    pub y: i32,
}

/// One component of the heading along the vector `(d, other)`: `d` scaled so
/// that the vector's length becomes `HEADING_UNIT`, rounded toward zero. The
/// length is measured in units of `1 / HEADING_UNIT`, so that the heading
/// along a short vector is as precise as the one along a long vector.
pub open spec fn heading_component(d: int, other: int) -> int {
    let unit = HEADING_UNIT as int;
    div_toward_zero(d * unit * unit, floor_sqrt((d * d + other * other) * unit * unit))
}

/// The heading that points along the vector `(dx, dy)`; the zero heading for
/// the null vector, which has no direction.
pub open spec fn heading_along(dx: int, dy: int) -> (int, int) {
    if dx == 0 && dy == 0 {
        (HEADING_UNIT as int, 0)
    } else {
        (heading_component(dx, dy), heading_component(dy, dx))
    }
}

impl Heading {
    /// The heading of zero rotation: along the positive x axis.
    pub open spec fn spec_zero() -> Heading {
        Heading { x: HEADING_UNIT, y: 0 }
    }

    /// The heading of zero rotation.
    pub fn zero() -> (h: Heading)
        ensures
            h == Self::spec_zero(),
    {
        Heading { x: HEADING_UNIT, y: 0 }
    }

    /// The heading from `from` toward `to`; the zero heading where the two
    /// are the same point.
    pub open spec fn spec_toward(from: FieldPosition, to: FieldPosition) -> Heading {
        Heading {
            x: heading_along(to.x - from.x, to.y - from.y).0 as i32,
            y: heading_along(to.x - from.x, to.y - from.y).1 as i32,
        }
    }

    /// The heading from `from` toward `to`.
    pub fn toward(from: &FieldPosition, to: &FieldPosition) -> (h: Heading)
        ensures
            h == Self::spec_toward(*from, *to),
            (h.x as int, h.y as int) == heading_along(to.x - from.x, to.y - from.y),
            -HEADING_UNIT <= h.x <= HEADING_UNIT,
            -HEADING_UNIT <= h.y <= HEADING_UNIT,
    {
        let dx: i64 = to.x as i64 - from.x as i64;
        let dy: i64 = to.y as i64 - from.y as i64;
        if dx == 0 && dy == 0 {
            return Heading::zero();
        }
        let unit: u128 = HEADING_UNIT as u128;
        let square: u128 = to.dist_squared(from);
        let length: u64 = isqrt(square * unit * unit);
        proof {
            lemma_heading_component_bounded(dx as int, dy as int, length as int);
            lemma_heading_component_bounded(dy as int, dx as int, length as int);
        }
        let x: i128 = div_trunc(dx as i128 * HEADING_UNIT as i128 * HEADING_UNIT as i128, length as i128);
        let y: i128 = div_trunc(dy as i128 * HEADING_UNIT as i128 * HEADING_UNIT as i128, length as i128);
        Heading { x: x as i32, y: y as i32 }
    }
}

/// A heading component is at most `HEADING_UNIT` in magnitude, and the length
/// it is divided by is positive.
proof fn lemma_heading_component_bounded(d: int, other: int, length: int)
    requires
        d != 0 || other != 0,
        is_floor_sqrt((d * d + other * other) * (HEADING_UNIT as int) * (HEADING_UNIT as int), length),
    ensures
        length >= HEADING_UNIT,
        -HEADING_UNIT <= heading_component(d, other) <= HEADING_UNIT,
{
    let unit = HEADING_UNIT as int;
    let total = (d * d + other * other) * unit * unit;
    let m = magnitude(d);
    let big = if magnitude(d) >= magnitude(other) { magnitude(d) } else { magnitude(other) };
    lemma_floor_sqrt_unique(total, length);
    // The length is at least `unit` times the larger magnitude.
    assert((big * unit) * (big * unit) <= total) by (nonlinear_arith)
        requires
            total == (d * d + other * other) * unit * unit,
            big == magnitude(d) || big == magnitude(other),
    ;
    if length < big * unit {
        lemma_square_monotonic(length + 1, big * unit);
    }
    assert(big >= 1);
    assert(big * unit >= unit) by (nonlinear_arith)
        requires
            big >= 1,
            unit > 0,
    ;
    assert(m * unit <= length) by (nonlinear_arith)
        requires
            m <= big,
            big * unit <= length,
            unit > 0,
    ;
    let q = (m * unit * unit) / length;
    assert(0 <= q <= unit) by (nonlinear_arith)
        requires
            q == (m * unit * unit) / length,
            0 <= m * unit <= length,
            length > 0,
            unit > 0,
    ;
    assert((-d) * unit * unit == -(d * unit * unit)) by (nonlinear_arith);
    assert(m * unit * unit == magnitude(d * unit * unit)) by (nonlinear_arith)
        requires
            m == magnitude(d),
            unit > 0,
    ;
}

/// The larger of two magnitudes.
pub open spec fn larger_magnitude(a: int, b: int) -> int {
    if magnitude(a) >= magnitude(b) {
        magnitude(a)
    } else {
        magnitude(b)
    }
}

/// How well a heading stands for the direction of the vector `(dx, dy)` that
/// it was made along. No component is longer than `HEADING_UNIT`, and the
/// longer one is at least as long as `HEADING_UNIT` over the square root of
/// two. Each component points the way its part of the vector points. And the
/// heading is parallel to the vector up to rounding: their cross product,
/// which is zero for parallel vectors, is smaller than the vector's longer
/// component, so the two directions differ by about a millionth of a radian
/// at most. Its length is `HEADING_UNIT` to within three.
pub proof fn lemma_heading_along(dx: int, dy: int)
    requires
        dx != 0 || dy != 0,
    ensures
        -HEADING_UNIT <= heading_along(dx, dy).0 <= HEADING_UNIT,
        -HEADING_UNIT <= heading_along(dx, dy).1 <= HEADING_UNIT,
        larger_magnitude(heading_along(dx, dy).0, heading_along(dx, dy).1) >= 707_106,
        dx >= 0 ==> heading_along(dx, dy).0 >= 0,
        dx <= 0 ==> heading_along(dx, dy).0 <= 0,
        dy >= 0 ==> heading_along(dx, dy).1 >= 0,
        dy <= 0 ==> heading_along(dx, dy).1 <= 0,
        magnitude(heading_along(dx, dy).0 * dy - heading_along(dx, dy).1 * dx) < larger_magnitude(dx, dy),
        (HEADING_UNIT - 3) * (HEADING_UNIT - 3) < heading_along(dx, dy).0 * heading_along(dx, dy).0
            + heading_along(dx, dy).1 * heading_along(dx, dy).1 < (HEADING_UNIT + 1) * (HEADING_UNIT + 1),
{
    let unit = HEADING_UNIT as int;
    let total = (dx * dx + dy * dy) * unit * unit;
    assert(total >= 0) by (nonlinear_arith)
        requires
            total == (dx * dx + dy * dy) * unit * unit,
    ;
    lemma_floor_sqrt(total);
    let n = floor_sqrt(total);
    lemma_heading_component_bounded(dx, dy, n);
    assert(total == (dy * dy + dx * dx) * unit * unit);
    lemma_heading_component_bounded(dy, dx, n);
    let a = magnitude(dx);
    let b = magnitude(dy);
    let mx = (a * unit * unit) / n;
    let my = (b * unit * unit) / n;
    lemma_component_magnitude(dx, n, mx);
    lemma_component_magnitude(dy, n, my);
    let hx = heading_along(dx, dy).0;
    let hy = heading_along(dx, dy).1;
    assert(hx == heading_component(dx, dy));
    assert(hy == heading_component(dy, dx));
    assert(hx == div_toward_zero(dx * unit * unit, n));
    assert(hy == div_toward_zero(dy * unit * unit, n));
    lemma_cross_product_small(a, b, n, mx, my, unit);
    lemma_signed_cross_product(dx, dy, hx, hy, mx, my);
    assert(a * a == dx * dx && b * b == dy * dy) by (nonlinear_arith)
        requires
            a == magnitude(dx),
            b == magnitude(dy),
    ;
    lemma_longer_component(a, b, n, mx, my, total);
    lemma_heading_length(a, b, n, mx, my, total);
    assert(hx * hx == mx * mx && hy * hy == my * my) by (nonlinear_arith)
        requires
            hx == mx || hx == -mx,
            hy == my || hy == -my,
    ;
}

/// A heading component from the magnitude of its part of the vector.
proof fn lemma_component_magnitude(d: int, n: int, m: int)
    by (nonlinear_arith)
    requires
        n > 0,
        m == (magnitude(d) * 1_000_000 * 1_000_000) / n,
    ensures
        m >= 0,
        d >= 0 ==> div_toward_zero(d * 1_000_000 * 1_000_000, n) == m,
        d <= 0 ==> div_toward_zero(d * 1_000_000 * 1_000_000, n) == -m,
        0 <= magnitude(d) * 1_000_000 * 1_000_000 - m * n < n,
{
}

/// The cross product of a vector and its heading, on magnitudes.
proof fn lemma_cross_product_small(a: int, b: int, n: int, mx: int, my: int, unit: int)
    requires
        a >= 0,
        b >= 0,
        a > 0 || b > 0,
        n > 0,
        mx >= 0,
        my >= 0,
        0 <= a * unit * unit - mx * n < n,
        0 <= b * unit * unit - my * n < n,
    ensures
        mx * b - my * a < larger_magnitude(a, b),
        my * a - mx * b < larger_magnitude(a, b),
{
    let ex = a * unit * unit - mx * n;
    let ey = b * unit * unit - my * n;
    let longer = larger_magnitude(a, b);
    assert(a * unit * unit == a * (unit * unit) && b * unit * unit == b * (unit * unit)) by (nonlinear_arith);
    lemma_cross_product_of_remainders(a, b, n, mx, my, unit * unit, ex, ey);
    lemma_remainder_product(n, ey, a, ex, b, longer, mx * b - my * a);
    lemma_remainder_product(n, ex, b, ey, a, longer, my * a - mx * b);
}

/// The cross product of a vector and its heading, times the length that
/// the heading was divided by, in terms of the remainders of the divisions.
proof fn lemma_cross_product_of_remainders(a: int, b: int, n: int, mx: int, my: int, scale: int, ex: int, ey: int)
    by (nonlinear_arith)
    requires
        ex == a * scale - mx * n,
        ey == b * scale - my * n,
    ensures
        n * (mx * b - my * a) == ey * a - ex * b,
        n * (my * a - mx * b) == ex * b - ey * a,
{
}

/// A difference `e * a - f * b` of products of remainders below `n` with
/// parts that are at most `longer` is below `n * longer`; so is a number
/// `c` with `n * c` equal to it below `longer`.
proof fn lemma_remainder_product(n: int, e: int, a: int, f: int, b: int, longer: int, c: int)
    by (nonlinear_arith)
    requires
        n > 0,
        0 <= e < n,
        0 <= f < n,
        0 <= a <= longer,
        0 <= b <= longer,
        longer > 0,
        n * c == e * a - f * b,
    ensures
        c < longer,
{
    assert(f * b >= 0);
    assert(e * a <= (n - 1) * a);
    assert((n - 1) * a <= (n - 1) * longer);
    assert(n * c <= (n - 1) * longer);
    assert((n - 1) * longer < n * longer);
    assert(n * c < n * longer);
}

/// The cross product of a vector and its heading, from the one on magnitudes.
proof fn lemma_signed_cross_product(dx: int, dy: int, hx: int, hy: int, mx: int, my: int)
    by (nonlinear_arith)
    requires
        dx >= 0 ==> hx == mx,
        dx <= 0 ==> hx == -mx,
        dy >= 0 ==> hy == my,
        dy <= 0 ==> hy == -my,
    ensures
        magnitude(hx * dy - hy * dx) == magnitude(mx * magnitude(dy) - my * magnitude(dx)),
{
}

/// The longer component of a heading is at least `HEADING_UNIT` over the
/// square root of two.
proof fn lemma_longer_component(a: int, b: int, n: int, mx: int, my: int, total: int)
    by (nonlinear_arith)
    requires
        a >= 0,
        b >= 0,
        a > 0 || b > 0,
        n > 0,
        n * n <= total,
        total == (a * a + b * b) * 1_000_000 * 1_000_000,
        0 <= a * 1_000_000 * 1_000_000 - mx * n < n,
        0 <= b * 1_000_000 * 1_000_000 - my * n < n,
        mx >= 0,
        my >= 0,
    ensures
        a >= b ==> mx >= 707_106,
        b >= a ==> my >= 707_106,
{
    if a >= b {
        lemma_longer_component_one(a, b, n, mx, total);
    }
    if b >= a {
        lemma_longer_component_one(b, a, n, my, total);
    }
}

/// One case of `lemma_longer_component`: `a` is the longer part.
proof fn lemma_longer_component_one(a: int, b: int, n: int, m: int, total: int)
    by (nonlinear_arith)
    requires
        a >= b,
        b >= 0,
        a > 0,
        n > 0,
        n * n <= total,
        total == (a * a + b * b) * 1_000_000 * 1_000_000 || total == (b * b + a * a) * 1_000_000 * 1_000_000,
        0 <= a * 1_000_000 * 1_000_000 - m * n < n,
        m >= 0,
    ensures
        m >= 707_106,
{
    // n is at most a million times the vector's length, which is at most
    // the square root of two times `a`.
    assert(n * n <= 2 * (a * 1_000_000) * (a * 1_000_000)) by {
        assert(b * b <= a * a);
    }
    if m < 707_106 {
        // Then a * 10^12 < (m + 1) * n <= 707_106 * n, and squaring gives
        // 10^12 < 2 * 707_106^2, which is false.
        assert(a * 1_000_000 * 1_000_000 < 707_106 * n) by {
            assert((m + 1) * n <= 707_106 * n);
        }
        let x = a * 1_000_000;
        assert(x * 1_000_000 < 707_106 * n);
        assert((x * 1_000_000) * (x * 1_000_000) < (707_106 * n) * (707_106 * n)) by {
            assert(0 <= x * 1_000_000);
        }
        assert((707_106 * n) * (707_106 * n) == 707_106 * 707_106 * (n * n));
        assert(707_106 * 707_106 * (n * n) <= 707_106 * 707_106 * (2 * x * x));
        assert((x * 1_000_000) * (x * 1_000_000) == 1_000_000 * 1_000_000 * (x * x));
        assert(1_000_000 * 1_000_000 * (x * x) < 2 * 707_106 * 707_106 * (x * x));
        assert(x * x > 0);
        assert(false);
    }
}

/// The length of a heading, squared, from the divisions that made it.
proof fn lemma_heading_length(a: int, b: int, n: int, mx: int, my: int, total: int)
    requires
        a >= 0,
        b >= 0,
        n >= 1_000_000,
        n * n <= total < (n + 1) * (n + 1),
        total == (a * a + b * b) * 1_000_000 * 1_000_000,
        0 <= a * 1_000_000 * 1_000_000 - mx * n < n,
        0 <= b * 1_000_000 * 1_000_000 - my * n < n,
        0 <= mx <= 1_000_000,
        0 <= my <= 1_000_000,
    ensures
        999_997 * 999_997 < mx * mx + my * my < 1_000_001 * 1_000_001,
{
    let unit = 1_000_000int;
    let p = a * unit * unit;
    let q = b * unit * unit;
    let square = mx * mx + my * my;
    assert(p * p + q * q == total * (unit * unit)) by (nonlinear_arith)
        requires
            p == a * unit * unit,
            q == b * unit * unit,
            total == (a * a + b * b) * unit * unit,
    ;
    // From above: the quotients are at most the exact values.
    lemma_product_square_below(mx, n, p);
    lemma_product_square_below(my, n, q);
    assert(square * (n * n) == (mx * n) * (mx * n) + (my * n) * (my * n)) by (nonlinear_arith)
        requires
            square == mx * mx + my * my,
    ;
    assert(square * (n * n) < ((unit + 1) * (unit + 1)) * (n * n)) by (nonlinear_arith)
        requires
            square * (n * n) <= total * (unit * unit),
            total < (n + 1) * (n + 1),
            n >= unit,
            unit > 0,
    {
        assert((n + 1) * unit <= (unit + 1) * n);
        assert(((n + 1) * unit) * ((n + 1) * unit) <= ((unit + 1) * n) * ((unit + 1) * n));
        assert(total * (unit * unit) < ((n + 1) * (n + 1)) * (unit * unit));
        assert(((n + 1) * (n + 1)) * (unit * unit) == ((n + 1) * unit) * ((n + 1) * unit));
        assert(((unit + 1) * n) * ((unit + 1) * n) == ((unit + 1) * (unit + 1)) * (n * n));
    }
    lemma_cancel_square(square, (unit + 1) * (unit + 1), n);
    // From below: the quotients are less than one short of the exact values.
    assert((mx + 1) * n == mx * n + n && (my + 1) * n == my * n + n && mx * n >= 0 && my * n >= 0)
        by (nonlinear_arith)
        requires
            mx >= 0,
            my >= 0,
            n > 0,
    ;
    lemma_product_square_above(mx + 1, n, p);
    lemma_product_square_above(my + 1, n, q);
    let over = (mx + 1) * (mx + 1) + (my + 1) * (my + 1);
    assert(over * (n * n) == ((mx + 1) * n) * ((mx + 1) * n) + ((my + 1) * n) * ((my + 1) * n))
        by (nonlinear_arith)
        requires
            over == (mx + 1) * (mx + 1) + (my + 1) * (my + 1),
    ;
    assert((unit * unit) * (n * n) < over * (n * n)) by (nonlinear_arith)
        requires
            total * (unit * unit) < over * (n * n),
            n * n <= total,
            unit > 0,
    {
        assert((n * n) * (unit * unit) <= total * (unit * unit));
    }
    lemma_cancel_square(unit * unit, over, n);
    assert(over == square + 2 * mx + 2 * my + 2) by (nonlinear_arith)
        requires
            over == (mx + 1) * (mx + 1) + (my + 1) * (my + 1),
            square == mx * mx + my * my,
    ;
}

/// With `m * n <= p`, all non-negative, the square of the product is at most
/// the square of `p`.
proof fn lemma_product_square_below(m: int, n: int, p: int)
    by (nonlinear_arith)
    requires
        0 <= m,
        0 < n,
        0 <= p - m * n,
    ensures
        (m * n) * (m * n) <= p * p,
{
}

/// With `m * n > p`, all non-negative, the square of the product is more
/// than the square of `p`.
proof fn lemma_product_square_above(m: int, n: int, p: int)
    by (nonlinear_arith)
    requires
        0 < m,
        0 < n,
        0 <= p < m * n,
    ensures
        (m * n) * (m * n) > p * p,
{
}

/// A strict inequality between multiples of a positive square holds between
/// the factors.
proof fn lemma_cancel_square(x: int, y: int, n: int)
    by (nonlinear_arith)
    requires
        n > 0,
        x * (n * n) < y * (n * n),
    ensures
        x < y,
{
}

} // verus!

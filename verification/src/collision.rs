//! Intersection of a circle with an axis-aligned rectangle.

use crate::decimal::{
    decimal_add, decimal_eq, decimal_le, decimal_max, decimal_min, decimal_mul, decimal_sub,
    Scalar,
};
use crate::units::{in_range, COORD_MAX, SCALE};
use vstd::prelude::*;

verus! {

/// The coordinate within `lo ..= hi` that is nearest to `c`: `c` itself where
/// it lies inside, else the bound it lies beyond. Of bounds given the wrong
/// way round, `lo` counts.
pub open spec fn nearest_coordinate(c: int, lo: int, hi: int) -> int {
    let capped = if c > hi { hi } else { c };
    if lo < capped {
        capped
    } else {
        lo
    }
}

/// Squared distance from the point `(cx, cy)` to the nearest point of the
/// rectangle with corners `(x1, y1)` and `(x2, y2)`.
pub open spec fn distance_squared(cx: int, cy: int, x1: int, y1: int, x2: int, y2: int) -> int {
    let dx = cx - nearest_coordinate(cx, x1, x2);
    let dy = cy - nearest_coordinate(cy, y1, y2);
    dx * dx + dy * dy
}

/// The outcome of testing the circle with center `(cx, cy)` and radius `r`
/// against the rectangle with corners `(x1, y1)` and `(x2, y2)`.
///
/// `None` where the nearest point of the rectangle is farther from the center
/// than `r`. Otherwise the pair says whether that nearest point lies on a
/// vertical edge (`x1` or `x2`) and whether it lies on a horizontal edge (`y1`
/// or `y2`); at a corner both hold.
pub open spec fn collision(cx: int, cy: int, r: int, x1: int, y1: int, x2: int, y2: int) -> Option<
    (bool, bool),
> {
    let nx = nearest_coordinate(cx, x1, x2);
    let ny = nearest_coordinate(cy, y1, y2);
    if distance_squared(cx, cy, x1, y1, x2, y2) <= r * r {
        Some((nx == x1 || nx == x2, ny == y1 || ny == y2))
    } else {
        None
    }
}

/// Squared distance from the point `(cx, cy)` to the point `(px, py)`, which
/// may lie anywhere between the grid points.
pub open spec fn distance_squared_to(cx: int, cy: int, px: real, py: real) -> real {
    (cx as real - px) * (cx as real - px) + (cy as real - py) * (cy as real - py)
}

/// Whether the point `(px, py)` belongs to the closed rectangle with corners
/// `(x1, y1)` and `(x2, y2)`.
pub open spec fn in_rectangle(px: real, py: real, x1: int, y1: int, x2: int, y2: int) -> bool {
    x1 as real <= px <= x2 as real && y1 as real <= py <= y2 as real
}

proof fn lemma_square_bound(d: int, bound: int)
    requires
        -bound <= d <= bound,
    ensures
        0 <= d * d <= bound * bound,
        d == 0 ==> d * d == 0,
{
    assert(0 <= d * d <= bound * bound && (d == 0 ==> d * d == 0)) by (nonlinear_arith)
        requires
            -bound <= d <= bound,
    ;
}

proof fn lemma_product_as_real(a: int, b: int)
    ensures
        (a * b) as real == (a as real) * (b as real),
{
    assert((a * b) as real == (a as real) * (b as real)) by (nonlinear_arith);
}

/// Along one axis, no coordinate of the interval is nearer to `c` than
/// `nearest_coordinate(c, lo, hi)`.
proof fn lemma_nearest_on_axis(c: int, lo: int, hi: int, p: real)
    requires
        lo <= hi,
        lo as real <= p <= hi as real,
    ensures
        (c as real - p) * (c as real - p) >= ((c - nearest_coordinate(c, lo, hi)) * (c
            - nearest_coordinate(c, lo, hi))) as real,
{
    let n = nearest_coordinate(c, lo, hi);
    let a = c as real - p;
    let b = (c - n) as real;
    assert((a >= b && b >= 0 as real) || (a <= b && b <= 0 as real));
    assert(a * a >= b * b) by (nonlinear_arith)
        requires
            (a >= b && b >= 0 as real) || (a <= b && b <= 0 as real),
    ;
    lemma_product_as_real(c - n, c - n);
}

/// No point of the rectangle is nearer to the center than the point found by
/// clamping the center into the rectangle, and that point belongs to it.
pub proof fn lemma_nearest_point_is_closest(
    cx: int,
    cy: int,
    x1: int,
    y1: int,
    x2: int,
    y2: int,
)
    requires
        x1 <= x2,
        y1 <= y2,
    ensures
        in_rectangle(
            nearest_coordinate(cx, x1, x2) as real,
            nearest_coordinate(cy, y1, y2) as real,
            x1,
            y1,
            x2,
            y2,
        ),
        distance_squared_to(
            cx,
            cy,
            nearest_coordinate(cx, x1, x2) as real,
            nearest_coordinate(cy, y1, y2) as real,
        ) == distance_squared(cx, cy, x1, y1, x2, y2) as real,
        forall|px: real, py: real|
            in_rectangle(px, py, x1, y1, x2, y2) ==> #[trigger] distance_squared_to(cx, cy, px, py)
                >= distance_squared(cx, cy, x1, y1, x2, y2) as real,
{
    let nx = nearest_coordinate(cx, x1, x2);
    let ny = nearest_coordinate(cy, y1, y2);
    lemma_product_as_real(cx - nx, cx - nx);
    lemma_product_as_real(cy - ny, cy - ny);
    assert forall|px: real, py: real| in_rectangle(px, py, x1, y1, x2, y2) implies #[trigger]
        distance_squared_to(cx, cy, px, py) >= distance_squared(cx, cy, x1, y1, x2, y2) as real by {
        lemma_nearest_on_axis(cx, x1, x2, px);
        lemma_nearest_on_axis(cy, y1, y2, py);
    }
}

/// The test reports no collision exactly when every point of the rectangle is
/// farther from the center than the radius; a point at exactly the radius
/// counts as a collision.
pub proof fn lemma_no_collision_iff_beyond_radius(
    cx: int,
    cy: int,
    r: int,
    x1: int,
    y1: int,
    x2: int,
    y2: int,
)
    requires
        x1 <= x2,
        y1 <= y2,
        r >= 0,
    ensures
        collision(cx, cy, r, x1, y1, x2, y2) is None <==> (forall|px: real, py: real|
            in_rectangle(px, py, x1, y1, x2, y2) ==> #[trigger] distance_squared_to(cx, cy, px, py)
                > (r * r) as real),
{
    lemma_nearest_point_is_closest(cx, cy, x1, y1, x2, y2);
    let nx = nearest_coordinate(cx, x1, x2);
    let ny = nearest_coordinate(cy, y1, y2);
    if collision(cx, cy, r, x1, y1, x2, y2) is Some {
        assert(in_rectangle(nx as real, ny as real, x1, y1, x2, y2));
        assert(!(distance_squared_to(cx, cy, nx as real, ny as real) > (r * r) as real));
    }
}

/// Tests the circle with center `(circle_x, circle_y)` and the given radius
/// against the rectangle with corners `(rect_x1, rect_y1)` and
/// `(rect_x2, rect_y2)`.
///
/// The center is clamped into the rectangle, and the circle touches the
/// rectangle when that nearest point is no farther from the center than the
/// radius. The comparisons are made on exact decimals, so that a nearest point
/// counts as lying on an edge only where it coincides with it.
pub fn check_circle_rectangle_collision(
    circle_x: i64,
    circle_y: i64,
    radius: i64,
    rect_x1: i64,
    rect_y1: i64,
    rect_x2: i64,
    rect_y2: i64,
) -> (hit: Option<(bool, bool)>)
    requires
        in_range(circle_x as int),
        in_range(circle_y as int),
        in_range(radius as int),
        in_range(rect_x1 as int),
        in_range(rect_y1 as int),
        in_range(rect_x2 as int),
        in_range(rect_y2 as int),
    ensures
        hit == collision(
            circle_x as int,
            circle_y as int,
            radius as int,
            rect_x1 as int,
            rect_y1 as int,
            rect_x2 as int,
            rect_y2 as int,
        ),
{
    let cx = Scalar::new(circle_x as i128, SCALE);
    let cy = Scalar::new(circle_y as i128, SCALE);
    let r = Scalar::new(radius as i128, SCALE);
    let x1 = Scalar::new(rect_x1 as i128, SCALE);
    let y1 = Scalar::new(rect_y1 as i128, SCALE);
    let x2 = Scalar::new(rect_x2 as i128, SCALE);
    let y2 = Scalar::new(rect_y2 as i128, SCALE);

    let nearest_x = decimal_max(x1, decimal_min(cx, x2));
    let nearest_y = decimal_max(y1, decimal_min(cy, y2));

    let distance_x = decimal_sub(cx, nearest_x);
    let distance_y = decimal_sub(cy, nearest_y);
    proof {
        lemma_square_bound(distance_x.mantissa as int, 2 * COORD_MAX);
        lemma_square_bound(distance_y.mantissa as int, 2 * COORD_MAX);
        lemma_square_bound(radius as int, COORD_MAX as int);
    }
    let distance_squared = decimal_add(
        decimal_mul(distance_x, distance_x),
        decimal_mul(distance_y, distance_y),
    );
    let radius_squared = decimal_mul(r, r);
    proof {
        let dx = distance_x.mantissa as int;
        let dy = distance_y.mantissa as int;
        assert(dx == circle_x - nearest_coordinate(circle_x as int, rect_x1 as int, rect_x2 as int));
        assert(dy == circle_y - nearest_coordinate(circle_y as int, rect_y1 as int, rect_y2 as int));
        assert(distance_squared.mantissa == dx * dx + dy * dy);
        assert(radius_squared.mantissa == radius * radius);
    }

    if decimal_le(distance_squared, radius_squared) {
        let collision_x = decimal_eq(nearest_x, x1) || decimal_eq(nearest_x, x2);
        let collision_y = decimal_eq(nearest_y, y1) || decimal_eq(nearest_y, y2);
        Some((collision_x, collision_y))
    } else {
        None
    }
}

} // verus!

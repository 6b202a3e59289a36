//! No light leaks through an occluder: a ray that marches towards an
//! occluder on its way to the light never gets past it, whichever way the
//! ray runs, as long as the occluder is not thinner along the ray than three
//! of the ray's smallest steps.

use vstd::prelude::*;
use vstd::arithmetic::div_mod::{
    lemma_div_is_ordered,
    lemma_div_pos_is_pos,
    lemma_fundamental_div_mod,
    lemma_mod_bound,
    lemma_multiply_divide_le,
};
use vstd::arithmetic::mul::{lemma_mul_inequality, lemma_mul_nonnegative};
use crate::math::{
    abs_diff,
    distance_squared_spec,
    floor_sqrt,
    lemma_distance_squared_bound,
    lemma_floor_sqrt_is_root,
    Vec2,
};
use crate::render::extract::ExtractedLightOccluder2d;
use crate::render::light_map::shadow::{
    coordinate_toward,
    occluded,
    point_toward,
    ray_reaches,
    MARCH_STEPS,
};
use crate::render::sdf::fragment::{
    axis_gap,
    lemma_distance_is_zero_inside,
    lemma_sdf_is_least,
    sdf,
};

verus! {

/// How far the ray has moved along one axis when it has come `progress`
/// far: `span` is the whole way along that axis, `length` the length of the
/// ray.
spec fn offset(span: int, progress: int, length: int) -> int {
    span * progress / length
}

/// Along one axis the ray moves no further between two samples than its
/// share of the way between them, and one step more for the rounding.
proof fn lemma_offsets_are_close(span: int, near: int, far: int, length: int)
    requires
        0 <= span,
        0 <= near <= far <= length,
        0 < length,
    ensures
        0 <= offset(span, near, length) <= offset(span, far, length) <= span,
        (offset(span, far, length) - offset(span, near, length)) * length < span * (far - near)
            + length,
{
    let u = offset(span, far, length);
    let v = offset(span, near, length);
    lemma_mul_nonnegative(span, near);
    lemma_mul_inequality(near, far, span);
    lemma_mul_inequality(far, length, span);
    assert(span * near == near * span && span * far == far * span && length * span == span
        * length) by (nonlinear_arith);
    lemma_div_pos_is_pos(span * near, length);
    lemma_div_is_ordered(span * near, span * far, length);
    lemma_multiply_divide_le(span * far, length, span);
    lemma_fundamental_div_mod(span * far, length);
    lemma_fundamental_div_mod(span * near, length);
    lemma_mod_bound(span * far, length);
    lemma_mod_bound(span * near, length);
    assert((u - v) * length == length * u - length * v) by (nonlinear_arith);
    assert(span * (far - near) == span * far - span * near) by (nonlinear_arith);
}

/// A coordinate of a sample lies `offset` from where the ray starts, on the
/// side of where it ends.
proof fn lemma_coordinate(from: i32, to: i32, progress: int, length: int)
    requires
        0 <= progress <= length,
        0 < length,
    ensures
        coordinate_toward(from as int, to as int, progress, length) == if to >= from {
            from + offset(to - from, progress, length)
        } else {
            from - offset(from - to, progress, length)
        },
        i32::MIN <= coordinate_toward(from as int, to as int, progress, length) <= i32::MAX,
{
    lemma_offsets_are_close(abs_diff(to as int, from as int), 0, progress, length);
}

/// Two numbers whose squares add up to no more than a third number's square
/// are each no more than that number.
proof fn lemma_leg_bound(a: int, b: int, c: int)
    requires
        0 <= a,
        0 <= b,
        0 <= c,
        a * a + b * b <= c * c,
    ensures
        a <= c,
        b <= c,
{
    assert(a <= c) by (nonlinear_arith)
        requires
            0 <= a,
            0 <= c,
            0 <= b * b,
            a * a + b * b <= c * c,
    ;
    assert(b <= c) by (nonlinear_arith)
        requires
            0 <= b,
            0 <= c,
            0 <= a * a,
            a * a + b * b <= c * c,
    ;
}

/// Where the ray moves `moved_x` and `moved_y` along the axes between two
/// samples that are `between` apart, the two samples are less than
/// `between + 3` apart in the plane.
proof fn lemma_moved_is_close(
    span_x: int,
    span_y: int,
    moved_x: int,
    moved_y: int,
    between: int,
    length: int,
)
    requires
        0 <= span_x,
        0 <= span_y,
        0 <= moved_x,
        0 <= moved_y,
        0 <= between <= length,
        0 < length,
        span_x * span_x + span_y * span_y < (length + 1) * (length + 1),
        moved_x * length < span_x * between + length,
        moved_y * length < span_y * between + length,
    ensures
        moved_x * moved_x + moved_y * moved_y < (between + 3) * (between + 3),
{
    // What is left of each move when the step for the rounding is taken off.
    let fx = if moved_x >= 1 {
        moved_x - 1
    } else {
        0
    };
    let fy = if moved_y >= 1 {
        moved_y - 1
    } else {
        0
    };
    assert(0 <= fx * length <= span_x * between) by (nonlinear_arith)
        requires
            0 <= span_x,
            0 <= between,
            0 < length,
            0 <= fx,
            fx == 0 || (fx + 1) * length < span_x * between + length,
    ;
    assert(0 <= fy * length <= span_y * between) by (nonlinear_arith)
        requires
            0 <= span_y,
            0 <= between,
            0 < length,
            0 <= fy,
            fy == 0 || (fy + 1) * length < span_y * between + length,
    ;
    let ax = fx * length;
    let ay = fy * length;
    let bx = span_x * between;
    let by = span_y * between;
    assert(ax * ax <= bx * bx) by (nonlinear_arith)
        requires
            0 <= ax <= bx,
    ;
    assert(ay * ay <= by * by) by (nonlinear_arith)
        requires
            0 <= ay <= by,
    ;
    let d2 = span_x * span_x + span_y * span_y;
    assert(bx * bx + by * by == d2 * (between * between)) by (nonlinear_arith)
        requires
            bx == span_x * between,
            by == span_y * between,
            d2 == span_x * span_x + span_y * span_y,
    ;
    assert(ax * ax + ay * ay == (fx * fx + fy * fy) * (length * length)) by (nonlinear_arith)
        requires
            ax == fx * length,
            ay == fy * length,
    ;
    let reach = length * (between + 1);
    assert((length + 1) * between <= reach) by (nonlinear_arith)
        requires
            reach == length * (between + 1),
            0 <= between <= length,
    ;
    let bound = (length + 1) * between;
    assert(d2 * (between * between) <= bound * bound) by (nonlinear_arith)
        requires
            0 <= d2 < (length + 1) * (length + 1),
            0 <= between,
            bound == (length + 1) * between,
    ;
    assert(bound * bound <= reach * reach) by (nonlinear_arith)
        requires
            0 <= bound <= reach,
    ;
    assert(reach * reach == ((between + 1) * (between + 1)) * (length * length))
        by (nonlinear_arith)
        requires
            reach == length * (between + 1),
    ;
    let f2 = fx * fx + fy * fy;
    let m2 = (between + 1) * (between + 1);
    let l2 = length * length;
    assert(l2 > 0) by (nonlinear_arith)
        requires
            l2 == length * length,
            length > 0,
    ;
    assert(f2 <= m2) by (nonlinear_arith)
        requires
            f2 * l2 <= m2 * l2,
            l2 > 0,
    ;
    lemma_leg_bound(fx, fy, between + 1);
    assert(moved_x * moved_x + moved_y * moved_y <= f2 + 2 * fx + 2 * fy + 2) by (nonlinear_arith)
        requires
            0 <= moved_x <= fx + 1,
            0 <= moved_y <= fy + 1,
            f2 == fx * fx + fy * fy,
    ;
    assert(m2 + 4 * (between + 1) + 2 < (between + 3) * (between + 3)) by (nonlinear_arith)
        requires
            m2 == (between + 1) * (between + 1),
    ;
}

/// From a sample of the ray, an occluder that holds a later sample is no
/// further than the way between the two samples, and two steps more for the
/// rounding.
proof fn lemma_occluder_ahead_is_near(
    pixel: Vec2,
    light: Vec2,
    occluder: ExtractedLightOccluder2d,
    near: int,
    far: int,
)
    requires
        0 <= near <= far <= floor_sqrt(distance_squared_spec(pixel, light) as nat),
        0 < floor_sqrt(distance_squared_spec(pixel, light) as nat),
        occluder.contains(point_toward(pixel, light, far)),
    ensures
        occluder.distance_to(point_toward(pixel, light, near)) <= far - near + 2,
{
    let d2 = distance_squared_spec(pixel, light);
    lemma_distance_squared_bound(pixel, light);
    lemma_floor_sqrt_is_root(d2 as nat);
    let length = floor_sqrt(d2 as nat) as int;
    let span_x = abs_diff(light.x as int, pixel.x as int);
    let span_y = abs_diff(light.y as int, pixel.y as int);
    assert(span_x * span_x + span_y * span_y == d2) by (nonlinear_arith)
        requires
            span_x == light.x - pixel.x || span_x == pixel.x - light.x,
            span_y == light.y - pixel.y || span_y == pixel.y - light.y,
            d2 == (pixel.x - light.x) * (pixel.x - light.x) + (pixel.y - light.y) * (pixel.y
                - light.y),
    ;
    lemma_coordinate(pixel.x, light.x, near, length);
    lemma_coordinate(pixel.x, light.x, far, length);
    lemma_coordinate(pixel.y, light.y, near, length);
    lemma_coordinate(pixel.y, light.y, far, length);
    lemma_offsets_are_close(span_x, near, far, length);
    lemma_offsets_are_close(span_y, near, far, length);
    let here = point_toward(pixel, light, near);
    let there = point_toward(pixel, light, far);
    let moved_x = offset(span_x, far, length) - offset(span_x, near, length);
    let moved_y = offset(span_y, far, length) - offset(span_y, near, length);
    assert(abs_diff(there.x as int, here.x as int) == moved_x);
    assert(abs_diff(there.y as int, here.y as int) == moved_y);
    lemma_moved_is_close(span_x, span_y, moved_x, moved_y, far - near, length);
    // The occluder holds the later sample, so it is no further than that.
    let gap_x = axis_gap(here.x as int, occluder.center.x as int, occluder.half_size.x as int);
    let gap_y = axis_gap(here.y as int, occluder.center.y as int, occluder.half_size.y as int);
    assert(0 <= gap_x <= moved_x);
    assert(0 <= gap_y <= moved_y);
    assert(gap_x * gap_x <= moved_x * moved_x) by (nonlinear_arith)
        requires
            0 <= gap_x <= moved_x,
    ;
    assert(gap_y * gap_y <= moved_y * moved_y) by (nonlinear_arith)
        requires
            0 <= gap_y <= moved_y,
    ;
    let squared = occluder.distance_squared_to(here);
    lemma_floor_sqrt_is_root(squared as nat);
    let distance = floor_sqrt(squared as nat) as int;
    let limit = far - near + 3;
    assert(distance < limit) by (nonlinear_arith)
        requires
            0 <= distance,
            0 <= limit,
            distance * distance <= squared,
            squared < limit * limit,
    ;
}

/// A ray that has not yet come past the first three samples that an occluder
/// holds does not get past them.
proof fn lemma_deep_occluder_stops_ray(
    pixel: Vec2,
    light: Vec2,
    occluders: Seq<ExtractedLightOccluder2d>,
    i: int,
    at: int,
    progress: nat,
    steps: nat,
)
    requires
        0 <= i < occluders.len(),
        0 <= at,
        at + 2 < floor_sqrt(distance_squared_spec(pixel, light) as nat),
        occluders[i].contains(point_toward(pixel, light, at)),
        occluders[i].contains(point_toward(pixel, light, at + 1)),
        occluders[i].contains(point_toward(pixel, light, at + 2)),
        progress <= at + 2,
    ensures
        !ray_reaches(pixel, light, occluders, progress, steps),
    decreases steps,
{
    if steps > 0 {
        let d2 = distance_squared_spec(pixel, light);
        lemma_distance_squared_bound(pixel, light);
        lemma_floor_sqrt_is_root(d2 as nat);
        let length = floor_sqrt(d2 as nat) as int;
        assert(progress * progress < d2) by (nonlinear_arith)
            requires
                0 <= progress < length,
                length * length <= d2,
        ;
        let position = point_toward(pixel, light, progress as int);
        lemma_sdf_is_least(position, occluders);
        let clearance = sdf(position, occluders);
        if progress >= at {
            lemma_distance_is_zero_inside(occluders[i], position);
            assert(clearance <= occluders[i].distance_to(position));
        } else {
            lemma_occluder_ahead_is_near(pixel, light, occluders[i], progress as int, at);
            assert(clearance <= occluders[i].distance_to(position));
            if clearance != 0 {
                lemma_deep_occluder_stops_ray(
                    pixel,
                    light,
                    occluders,
                    i,
                    at,
                    progress + clearance,
                    (steps - 1) as nat,
                );
            }
        }
    }
}

/// No light leaks through an occluder, whichever way the ray runs: where an
/// occluder holds three samples of the ray in a row, before the ray has come
/// to the light, the light does not reach the point that the ray set out
/// from.
pub proof fn lemma_occluder_on_ray_occludes(
    pixel: Vec2,
    light: Vec2,
    occluders: Seq<ExtractedLightOccluder2d>,
    i: int,
    at: int,
)
    requires
        0 <= i < occluders.len(),
        0 <= at,
        at + 2 < floor_sqrt(distance_squared_spec(pixel, light) as nat),
        occluders[i].contains(point_toward(pixel, light, at)),
        occluders[i].contains(point_toward(pixel, light, at + 1)),
        occluders[i].contains(point_toward(pixel, light, at + 2)),
    ensures
        occluded(pixel, light, occluders),
{
    lemma_deep_occluder_stops_ray(pixel, light, occluders, i, at, 0, MARCH_STEPS as nat);
}

} // verus!

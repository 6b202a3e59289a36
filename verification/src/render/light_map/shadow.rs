//! Shadows: whether an occluder lies between a point and a light.

use vstd::prelude::*;
use vstd::arithmetic::div_mod::{
    lemma_div_multiples_vanish,
    lemma_div_pos_is_pos,
    lemma_multiply_divide_le,
};
use crate::math::{
    abs_diff,
    distance_squared,
    distance_squared_spec,
    floor_sqrt,
    is_floor_sqrt,
    isqrt,
    lemma_distance_squared_bound,
    lemma_floor_sqrt_is_root,
    lemma_floor_sqrt_unique,
    Vec2,
};
use crate::render::extract::{ExtractedLightOccluder2d, ExtractedPointLight2d};
use crate::render::sdf::fragment::{
    axis_gap,
    lemma_sdf_inside_is_least,
    lemma_sdf_is_least,
    sdf,
    SDF_INFINITE,
};

verus! {

/// How many samples of the distance field a ray may take on its way from a
/// point to a light.
pub const MARCH_STEPS: u32 = 32;

/// One coordinate of the point that lies `progress` along the way from `from`
/// to `to`, a way that is `length` long; rounded towards `from`.
pub open spec fn coordinate_toward(from: int, to: int, progress: int, length: int) -> int {
    if to >= from {
        from + (to - from) * progress / length
    } else {
        from - (from - to) * progress / length
    }
}

/// The point that lies `progress` along the segment from `origin` to
/// `target`.
pub open spec fn point_toward(origin: Vec2, target: Vec2, progress: int) -> Vec2 {
    let length = floor_sqrt(distance_squared_spec(origin, target) as nat) as int;
    Vec2 {
        x: coordinate_toward(origin.x as int, target.x as int, progress, length) as i32,
        y: coordinate_toward(origin.y as int, target.y as int, progress, length) as i32,
    }
}

/// Whether a ray that has come `progress` far from `origin` arrives at
/// `target` within `steps` more samples of the distance field. At each
/// sample it advances by the distance to the nearest occluder; it is stopped
/// where that distance is zero.
pub open spec fn ray_reaches(
    origin: Vec2,
    target: Vec2,
    occluders: Seq<ExtractedLightOccluder2d>,
    progress: nat,
    steps: nat,
) -> bool
    decreases steps,
{
    if steps == 0 {
        false
    } else if progress * progress >= distance_squared_spec(origin, target) {
        true
    } else {
        let clearance = sdf(point_toward(origin, target, progress as int), occluders);
        if clearance == 0 {
            false
        } else {
            ray_reaches(origin, target, occluders, progress + clearance, (steps - 1) as nat)
        }
    }
}

/// Whether an occluder keeps the light centered at `light` from `pixel`.
pub open spec fn occluded(
    pixel: Vec2,
    light: Vec2,
    occluders: Seq<ExtractedLightOccluder2d>,
) -> bool {
    !ray_reaches(pixel, light, occluders, 0, MARCH_STEPS as nat)
}

impl ExtractedPointLight2d {
    /// Whether this light is in shadow at `pixel`.
    pub open spec fn shadowed_at(
        self,
        pixel: Vec2,
        occluders: Seq<ExtractedLightOccluder2d>,
    ) -> bool {
        self.cast_shadows != 0 && occluded(pixel, self.transform, occluders)
    }
}

/// Where the nearest occluder is at least as far from a point as the light
/// is, the light reaches the point.
pub proof fn lemma_open_ground_is_lit(
    pixel: Vec2,
    light: Vec2,
    occluders: Seq<ExtractedLightOccluder2d>,
)
    requires
        sdf(pixel, occluders) * sdf(pixel, occluders) >= distance_squared_spec(pixel, light),
    ensures
        !occluded(pixel, light, occluders),
{
    let d2 = distance_squared_spec(pixel, light);
    lemma_distance_squared_bound(pixel, light);
    reveal_with_fuel(ray_reaches, 3);
    if d2 > 0 {
        lemma_start_of_ray(pixel, light);
        let clearance = sdf(pixel, occluders);
        assert(clearance != 0) by (nonlinear_arith)
            requires
                clearance * clearance >= d2,
                d2 > 0,
        ;
        assert((0 + clearance) * (0 + clearance) >= d2);
    } else {
        assert(0nat * 0nat >= d2);
    }
}

/// Without occluders the distance field is [`SDF_INFINITE`] everywhere, and
/// no ray is stopped.
pub proof fn lemma_no_occluders_not_occluded(pixel: Vec2, light: Vec2)
    ensures
        sdf(pixel, Seq::<ExtractedLightOccluder2d>::empty()) == SDF_INFINITE,
        !occluded(pixel, light, Seq::<ExtractedLightOccluder2d>::empty()),
{
    let d2 = distance_squared_spec(pixel, light);
    lemma_distance_squared_bound(pixel, light);
    assert(SDF_INFINITE * SDF_INFINITE >= d2) by (nonlinear_arith)
        requires
            d2 <= 0x1_ffff_fffc_0000_0002,
            SDF_INFINITE == 0x100_0000_0000,
    ;
    lemma_open_ground_is_lit(pixel, light, Seq::<ExtractedLightOccluder2d>::empty());
}

/// Without occluders no light is in shadow anywhere.
pub proof fn lemma_no_occluders_no_shadow(light: ExtractedPointLight2d, pixel: Vec2)
    ensures
        !light.shadowed_at(pixel, Seq::<ExtractedLightOccluder2d>::empty()),
{
    lemma_no_occluders_not_occluded(pixel, light.transform);
}

/// A point inside an occluder is in the shadow of every light but one that
/// sits at the very same point.
pub proof fn lemma_inside_occluder_is_occluded(
    pixel: Vec2,
    light: Vec2,
    occluders: Seq<ExtractedLightOccluder2d>,
    i: int,
)
    requires
        0 <= i < occluders.len(),
        occluders[i].contains(pixel),
        pixel != light,
    ensures
        occluded(pixel, light, occluders),
{
    lemma_start_of_ray(pixel, light);
    lemma_sdf_inside_is_least(occluders, i, pixel, pixel);
    reveal_with_fuel(ray_reaches, 2);
}

/// A ray starts where it starts, and a ray between two different points has
/// a length.
proof fn lemma_start_of_ray(origin: Vec2, target: Vec2)
    requires
        origin != target,
    ensures
        point_toward(origin, target, 0) == origin,
        distance_squared_spec(origin, target) > 0,
        floor_sqrt(distance_squared_spec(origin, target) as nat) > 0,
{
    let dx = origin.x - target.x;
    let dy = origin.y - target.y;
    assert(dx * dx + dy * dy > 0) by (nonlinear_arith)
        requires
            dx != 0 || dy != 0,
    ;
    let d2 = distance_squared_spec(origin, target);
    lemma_floor_sqrt_is_root(d2 as nat);
    let length = floor_sqrt(d2 as nat) as int;
    assert(length > 0) by (nonlinear_arith)
        requires
            length >= 0,
            d2 > 0,
            d2 < (length + 1) * (length + 1),
    ;
    assert((target.x - origin.x) * 0 == 0 && (origin.x - target.x) * 0 == 0 && (target.y
        - origin.y) * 0 == 0 && (origin.y - target.y) * 0 == 0) by (nonlinear_arith);
    lemma_div_multiples_vanish(0, length);
    assert(length * 0 == 0) by (nonlinear_arith);
}

/// Along one axis, on the way from `from` to `to`: the interval of half
/// width `half` around `center` holds a point of the way other than `to`.
pub open spec fn blocks(from: int, to: int, center: int, half: int) -> bool {
    if to > from {
        center - half < to && from <= center + half
    } else {
        to < from && to < center + half && center - half <= from
    }
}

/// An occluder that stands on a horizontal or vertical ray from `pixel` to
/// `light`: the ray runs through the occluder's extent across the ray, and
/// along the ray the occluder reaches into the way between the two.
pub open spec fn stands_between(occluder: ExtractedLightOccluder2d, pixel: Vec2, light: Vec2) -> bool {
    ||| {
        &&& pixel.y == light.y
        &&& abs_diff(pixel.y as int, occluder.center.y as int) <= occluder.half_size.y
        &&& blocks(
            pixel.x as int,
            light.x as int,
            occluder.center.x as int,
            occluder.half_size.x as int,
        )
    }
    ||| {
        &&& pixel.x == light.x
        &&& abs_diff(pixel.x as int, occluder.center.x as int) <= occluder.half_size.x
        &&& blocks(
            pixel.y as int,
            light.y as int,
            occluder.center.y as int,
            occluder.half_size.y as int,
        )
    }
}

/// No light leaks through an occluder along a horizontal or a vertical ray:
/// a point on the far side of an occluder that stands between it and the
/// light is in the light's shadow.
pub proof fn lemma_occluder_between_occludes(
    pixel: Vec2,
    light: Vec2,
    occluders: Seq<ExtractedLightOccluder2d>,
    i: int,
)
    requires
        0 <= i < occluders.len(),
        stands_between(occluders[i], pixel, light),
    ensures
        occluded(pixel, light, occluders),
{
    lemma_blocked_ray(pixel, light, occluders, i, 0, MARCH_STEPS as nat);
}

/// How far along the ray the occluder begins.
spec fn entry(occluder: ExtractedLightOccluder2d, pixel: Vec2, light: Vec2) -> int {
    if pixel.y == light.y && pixel.x != light.x {
        axis_gap(pixel.x as int, occluder.center.x as int, occluder.half_size.x as int)
    } else {
        axis_gap(pixel.y as int, occluder.center.y as int, occluder.half_size.y as int)
    }
}

/// A ray that has not yet come to the occluder that stands in its way does
/// not get past it.
proof fn lemma_blocked_ray(
    pixel: Vec2,
    light: Vec2,
    occluders: Seq<ExtractedLightOccluder2d>,
    i: int,
    progress: nat,
    steps: nat,
)
    requires
        0 <= i < occluders.len(),
        stands_between(occluders[i], pixel, light),
        progress <= entry(occluders[i], pixel, light),
    ensures
        !ray_reaches(pixel, light, occluders, progress, steps),
    decreases steps,
{
    if steps > 0 {
        let occluder = occluders[i];
        let horizontal = pixel.y == light.y && pixel.x != light.x;
        let (from, to, center, half) = if horizontal {
            (
                pixel.x as int,
                light.x as int,
                occluder.center.x as int,
                occluder.half_size.x as int,
            )
        } else {
            (
                pixel.y as int,
                light.y as int,
                occluder.center.y as int,
                occluder.half_size.y as int,
            )
        };
        assert(blocks(from, to, center, half));
        let length = abs_diff(to, from);
        let d2 = distance_squared_spec(pixel, light);
        assert(d2 == length * length) by (nonlinear_arith)
            requires
                horizontal ==> pixel.y == light.y,
                !horizontal ==> pixel.x == light.x,
                d2 == (pixel.x - light.x) * (pixel.x - light.x) + (pixel.y - light.y) * (pixel.y
                    - light.y),
                from == if horizontal {
                    pixel.x as int
                } else {
                    pixel.y as int
                },
                to == if horizontal {
                    light.x as int
                } else {
                    light.y as int
                },
                length == to - from || length == from - to,
        ;
        assert(is_floor_sqrt(d2, length)) by (nonlinear_arith)
            requires
                d2 == length * length,
                length > 0,
        ;
        lemma_floor_sqrt_unique(d2 as nat, length);
        let gap = axis_gap(from, center, half);
        assert(progress <= gap < length);
        assert(progress * progress < d2) by (nonlinear_arith)
            requires
                0 <= progress < length,
                d2 == length * length,
        ;
        // Along the ray the point moves by `progress`; across it, not at all.
        lemma_div_multiples_vanish(progress as int, length);
        lemma_div_multiples_vanish(0, length);
        assert(0 * progress == 0 && length * 0 == 0) by (nonlinear_arith);
        let along = if to > from {
            from + progress
        } else {
            from - progress
        };
        let position = point_toward(pixel, light, progress as int);
        assert(coordinate_toward(from, to, progress as int, length) == along);
        if horizontal {
            assert(position.x == along && position.y == pixel.y);
        } else {
            assert(position.y == along && position.x == pixel.x);
        }
        // From there the occluder is as far as the rest of the way to it.
        let rest = gap - progress;
        assert(axis_gap(along, center, half) == rest);
        assert(occluder.distance_squared_to(position) == rest * rest) by (nonlinear_arith)
            requires
                occluder.distance_squared_to(position) == rest * rest + 0 * 0,
        ;
        assert(is_floor_sqrt(rest * rest, rest)) by (nonlinear_arith)
            requires
                rest >= 0,
        ;
        lemma_floor_sqrt_unique((rest * rest) as nat, rest);
        assert(occluder.distance_to(position) == rest);
        lemma_sdf_is_least(position, occluders);
        let clearance = sdf(position, occluders);
        assert(clearance <= occluders[i].distance_to(position));
        if clearance != 0 {
            lemma_blocked_ray(
                pixel,
                light,
                occluders,
                i,
                progress + clearance,
                (steps - 1) as nat,
            );
        }
    }
}

/// Whether an occluder keeps the light centered at `light` from `pixel`: a
/// ray marches from the point towards the light, as far at each step as the
/// distance field allows, and is stopped where the field is zero or after
/// [`MARCH_STEPS`] steps.
pub fn is_occluded(pixel: Vec2, light: Vec2, occluders: &Vec<ExtractedLightOccluder2d>) -> (shadow:
    bool)
    ensures
        shadow == occluded(pixel, light, occluders@),
        occluders.len() == 0 ==> !shadow,
{
    let stop_at = distance_squared(pixel, light);
    let length = isqrt(stop_at);
    let mut progress: u64 = 0;
    let mut steps: u32 = MARCH_STEPS;
    proof {
        lemma_no_occluders_not_occluded(pixel, light);
        if occluders.len() == 0 {
            assert(occluders@ =~= Seq::<ExtractedLightOccluder2d>::empty());
        }
    }
    while steps > 0
        invariant
            stop_at == distance_squared_spec(pixel, light),
            stop_at <= 0x1_ffff_fffc_0000_0002,
            is_floor_sqrt(stop_at as int, length as int),
            length == floor_sqrt(stop_at as nat),
            steps <= MARCH_STEPS,
            progress < 0x2_0000_0000 + SDF_INFINITE,
            occluded(pixel, light, occluders@) == !ray_reaches(
                pixel,
                light,
                occluders@,
                progress as nat,
                steps as nat,
            ),
        decreases steps,
    {
        assert(progress * progress <= 0x102_0000_0000 * 0x102_0000_0000) by (nonlinear_arith)
            requires
                0 <= progress <= 0x102_0000_0000,
        ;
        if (progress as u128) * (progress as u128) >= stop_at {
            return false;
        }
        assert(progress <= length && length >= 1) by (nonlinear_arith)
            requires
                0 <= progress,
                0 <= length,
                progress * progress < stop_at,
                stop_at < (length + 1) * (length + 1),
                length * length <= stop_at,
        ;
        assert(length < 0x2_0000_0000) by (nonlinear_arith)
            requires
                0 <= length,
                length * length <= stop_at,
                stop_at <= 0x1_ffff_fffc_0000_0002,
        ;
        let position = Vec2 {
            x: toward(pixel.x, light.x, progress, length),
            y: toward(pixel.y, light.y, progress, length),
        };
        assert(position == point_toward(pixel, light, progress as int));
        let clearance = crate::render::sdf::fragment::fragment(position, occluders);
        proof {
            lemma_sdf_is_least(position, occluders@);
        }
        if clearance == 0 {
            return true;
        }
        progress = progress + clearance;
        steps = steps - 1;
    }
    true
}

/// One coordinate of the point that lies `progress` along the way from `from`
/// to `to`.
fn toward(from: i32, to: i32, progress: u64, length: u64) -> (c: i32)
    requires
        progress <= length,
        1 <= length < 0x2_0000_0000,
    ensures
        c == coordinate_toward(from as int, to as int, progress as int, length as int),
{
    if to >= from {
        let span: u64 = (to as i64 - from as i64) as u64;
        assert(0 <= span * progress <= length * span && length * span <= 0xffff_ffff
            * 0x2_0000_0000) by (nonlinear_arith)
            requires
                0 <= span <= 0xffff_ffff,
                0 <= progress <= length < 0x2_0000_0000,
        ;
        proof {
            lemma_div_pos_is_pos(span * progress, length as int);
            lemma_multiply_divide_le(span * progress, length as int, span as int);
        }
        let offset: u128 = (span as u128) * (progress as u128) / (length as u128);
        (from as i64 + offset as i64) as i32
    } else {
        let span: u64 = (from as i64 - to as i64) as u64;
        assert(0 <= span * progress <= length * span && length * span <= 0xffff_ffff
            * 0x2_0000_0000) by (nonlinear_arith)
            requires
                0 <= span <= 0xffff_ffff,
                0 <= progress <= length < 0x2_0000_0000,
        ;
        proof {
            lemma_div_pos_is_pos(span * progress, length as int);
            lemma_multiply_divide_le(span * progress, length as int, span as int);
        }
        let offset: u128 = (span as u128) * (progress as u128) / (length as u128);
        (from as i64 - offset as i64) as i32
    }
}

} // verus!

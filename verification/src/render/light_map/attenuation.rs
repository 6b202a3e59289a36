//! How a point light fades with distance.

use vstd::prelude::*;
use vstd::arithmetic::div_mod::{
    lemma_basic_div,
    lemma_div_is_ordered,
    lemma_div_is_ordered_by_denominator,
    lemma_div_multiples_vanish,
    lemma_div_pos_is_pos,
    lemma_multiply_divide_le,
    lemma_multiply_divide_lt,
};
use crate::math::{distance_squared_spec, Vec2, ONE};
use crate::render::extract::ExtractedPointLight2d;

verus! {

/// The attenuation's numerator at a squared distance that is the fraction
/// `ratio` of the squared radius.
pub open spec fn attenuation_numerator(ratio: int) -> int {
    65536 * (65536 - ratio) * (65536 - ratio)
}

/// The attenuation's denominator at a squared distance that is the fraction
/// `ratio` of the squared radius.
pub open spec fn attenuation_denominator(ratio: int, falloff: int) -> int {
    65536 * 65536 + falloff * ratio
}

/// How much of a light's intensity arrives at a point whose squared distance
/// from the light is `distance_squared`.
///
/// With `s` the distance as a fraction of the radius and `f` the falloff,
/// this is `(1 - s²)² / (1 + f s²)` inside the radius and zero from the
/// radius on. `s²` and the quotient are each rounded down.
pub open spec fn attenuation_spec(distance_squared: int, radius: int, falloff: int) -> int {
    if distance_squared >= radius * radius {
        0
    } else {
        let ratio = distance_squared * 65536 / (radius * radius);
        attenuation_numerator(ratio) / attenuation_denominator(ratio, falloff)
    }
}

impl ExtractedPointLight2d {
    /// How much of this light's intensity arrives at `pixel`, shadows aside.
    pub open spec fn attenuation_at(self, pixel: Vec2) -> int {
        attenuation_spec(
            distance_squared_spec(pixel, self.transform),
            self.radius as int,
            self.falloff as int,
        )
    }
}

/// Inside the radius the squared distance is less than one as a fraction of
/// the squared radius.
proof fn lemma_ratio_bounds(distance_squared: int, radius: int)
    requires
        0 <= distance_squared < radius * radius,
    ensures
        0 <= distance_squared * 65536 / (radius * radius) < 65536,
{
    let r2 = radius * radius;
    lemma_div_pos_is_pos(distance_squared * 65536, r2);
    assert(distance_squared * 65536 < r2 * 65536);
    lemma_multiply_divide_lt(distance_squared * 65536, r2, 65536);
}

/// The attenuation is a fraction of one.
pub proof fn lemma_attenuation_bounds(distance_squared: int, radius: int, falloff: int)
    requires
        0 <= distance_squared,
        0 <= falloff,
    ensures
        0 <= attenuation_spec(distance_squared, radius, falloff) <= 65536,
{
    if distance_squared < radius * radius {
        lemma_ratio_bounds(distance_squared, radius);
        let ratio = distance_squared * 65536 / (radius * radius);
        let numerator = attenuation_numerator(ratio);
        let denominator = attenuation_denominator(ratio, falloff);
        assert(0 <= numerator <= 65536 * (65536 * 65536)) by (nonlinear_arith)
            requires
                0 <= ratio < 65536,
                numerator == 65536 * (65536 - ratio) * (65536 - ratio),
        ;
        assert(denominator >= 65536 * 65536) by (nonlinear_arith)
            requires
                0 <= ratio,
                0 <= falloff,
                denominator == 65536 * 65536 + falloff * ratio,
        ;
        lemma_div_pos_is_pos(numerator, denominator);
        assert(numerator <= denominator * 65536);
        lemma_multiply_divide_le(numerator, denominator, 65536);
    }
}

/// On the light's boundary, and beyond it, nothing arrives.
pub proof fn lemma_attenuation_zero_at_radius(light: ExtractedPointLight2d, pixel: Vec2)
    requires
        distance_squared_spec(pixel, light.transform) >= light.radius * light.radius,
    ensures
        light.attenuation_at(pixel) == 0,
{
}

/// At the center of a light everything arrives, whatever the falloff: in
/// particular at the center of a light without falloff.
pub proof fn lemma_attenuation_one_at_center(light: ExtractedPointLight2d, pixel: Vec2)
    requires
        pixel == light.transform,
        light.radius > 0,
    ensures
        light.attenuation_at(pixel) == 65536,
{
    assert(distance_squared_spec(pixel, light.transform) == 0);
    lemma_attenuation_at_center(light.radius as int, light.falloff as int);
}

/// At distance zero the attenuation is one.
proof fn lemma_attenuation_at_center(radius: int, falloff: int)
    requires
        radius > 0,
    ensures
        attenuation_spec(0, radius, falloff) == 65536,
{
    let r2 = radius * radius;
    assert(r2 > 0) by (nonlinear_arith)
        requires
            r2 == radius * radius,
            radius > 0,
    ;
    lemma_basic_div(0, r2);
    assert(0int * 65536 / r2 == 0);
    assert(attenuation_numerator(0) == 65536 * 65536 * 65536);
    assert(falloff * 0 == 0) by (nonlinear_arith);
    assert(attenuation_denominator(0, falloff) == 65536 * 65536);
}

/// With the distance and the radius held fixed, more falloff never lets more
/// of the light arrive.
pub proof fn lemma_attenuation_decreases_with_falloff(
    distance_squared: int,
    radius: int,
    falloff: int,
    more_falloff: int,
)
    requires
        0 <= distance_squared,
        0 <= falloff <= more_falloff,
    ensures
        attenuation_spec(distance_squared, radius, more_falloff) <= attenuation_spec(
            distance_squared,
            radius,
            falloff,
        ),
{
    if distance_squared < radius * radius {
        lemma_ratio_bounds(distance_squared, radius);
        let ratio = distance_squared * 65536 / (radius * radius);
        let numerator = attenuation_numerator(ratio);
        assert(0 <= numerator) by (nonlinear_arith)
            requires
                0 <= ratio < 65536,
                numerator == 65536 * (65536 - ratio) * (65536 - ratio),
        ;
        assert(65536 * 65536 <= attenuation_denominator(ratio, falloff)
            <= attenuation_denominator(ratio, more_falloff)) by (nonlinear_arith)
            requires
                0 <= ratio,
                0 <= falloff <= more_falloff,
        ;
        lemma_div_is_ordered_by_denominator(
            numerator,
            attenuation_denominator(ratio, falloff),
            attenuation_denominator(ratio, more_falloff),
        );
    }
}

/// With the radius and the falloff held fixed, the light never grows
/// stronger with distance: it fades from the center to the boundary.
pub proof fn lemma_attenuation_decreases_with_distance(
    distance_squared: int,
    further_squared: int,
    radius: int,
    falloff: int,
)
    requires
        0 <= distance_squared <= further_squared,
        0 <= falloff,
    ensures
        attenuation_spec(further_squared, radius, falloff) <= attenuation_spec(
            distance_squared,
            radius,
            falloff,
        ),
{
    lemma_attenuation_bounds(distance_squared, radius, falloff);
    if further_squared < radius * radius {
        let r2 = radius * radius;
        lemma_ratio_bounds(distance_squared, radius);
        lemma_ratio_bounds(further_squared, radius);
        let near = distance_squared * 65536 / r2;
        let far = further_squared * 65536 / r2;
        lemma_div_is_ordered(distance_squared * 65536, further_squared * 65536, r2);
        assert(0 <= attenuation_numerator(far) <= attenuation_numerator(near)) by (nonlinear_arith)
            requires
                0 <= near <= far < 65536,
        ;
        assert(65536 * 65536 <= attenuation_denominator(near, falloff)
            <= attenuation_denominator(far, falloff)) by (nonlinear_arith)
            requires
                0 <= near <= far,
                0 <= falloff,
        ;
        lemma_div_is_ordered(
            attenuation_numerator(far),
            attenuation_numerator(near),
            attenuation_denominator(far, falloff),
        );
        lemma_div_is_ordered_by_denominator(
            attenuation_numerator(near),
            attenuation_denominator(near, falloff),
            attenuation_denominator(far, falloff),
        );
    }
}

/// Before rounding, more falloff lets strictly less of the light arrive at
/// every distance at which falloff matters: the numerator stays as it is and
/// is positive, and the denominator grows.
pub proof fn lemma_attenuation_strictly_decreases_before_rounding(
    distance_squared: int,
    radius: int,
    falloff: int,
    more_falloff: int,
)
    requires
        0 <= distance_squared < radius * radius,
        distance_squared * 65536 >= radius * radius,
        0 <= falloff < more_falloff,
    ensures
        ({
            let ratio = distance_squared * 65536 / (radius * radius);
            &&& 0 < attenuation_numerator(ratio)
            &&& 0 < attenuation_denominator(ratio, falloff) < attenuation_denominator(
                ratio,
                more_falloff,
            )
        }),
{
    lemma_ratio_bounds(distance_squared, radius);
    let r2 = radius * radius;
    let ratio = distance_squared * 65536 / r2;
    lemma_div_is_ordered(r2, distance_squared * 65536, r2);
    lemma_div_multiples_vanish(1, r2);
    assert(0 < 65536 * (65536 - ratio) * (65536 - ratio)) by (nonlinear_arith)
        requires
            0 <= ratio < 65536,
    ;
    assert(0 < 65536 * 65536 + falloff * ratio < 65536 * 65536 + more_falloff * ratio)
        by (nonlinear_arith)
        requires
            1 <= ratio,
            0 <= falloff < more_falloff,
    ;
}

/// How much of a light's intensity arrives at a point whose squared distance
/// from the light is `distance_squared`: one at the center of a light
/// without falloff, zero from the radius on.
pub fn attenuation(distance_squared: u128, radius: u32, falloff: u32) -> (a: u32)
    ensures
        a == attenuation_spec(distance_squared as int, radius as int, falloff as int),
        a <= ONE,
        distance_squared >= radius * radius ==> a == 0,
        distance_squared == 0 && radius > 0 ==> a == ONE,
{
    assert(radius * radius <= 0xffff_ffff * 0xffff_ffff) by (nonlinear_arith)
        requires
            0 <= radius <= 0xffff_ffff,
    ;
    proof {
        if radius > 0 {
            lemma_attenuation_at_center(radius as int, falloff as int);
        }
    }
    let radius_squared: u128 = (radius as u128) * (radius as u128);
    if distance_squared >= radius_squared {
        return 0;
    }
    proof {
        lemma_ratio_bounds(distance_squared as int, radius as int);
        lemma_attenuation_bounds(distance_squared as int, radius as int, falloff as int);
    }
    let ratio: u64 = (distance_squared * 65536 / radius_squared) as u64;
    let rest: u64 = 65536 - ratio;
    assert(rest * rest <= 65536 * 65536) by (nonlinear_arith)
        requires
            0 <= rest <= 65536,
    ;
    assert(falloff * ratio <= 0xffff_ffff * 65536) by (nonlinear_arith)
        requires
            0 <= falloff <= 0xffff_ffff,
            0 <= ratio <= 65536,
    ;
    let numerator: u64 = 65536 * (rest * rest);
    assert(numerator == attenuation_numerator(ratio as int)) by (nonlinear_arith)
        requires
            numerator == 65536 * (rest * rest),
            rest == 65536 - ratio,
    ;
    let denominator: u64 = 65536 * 65536 + (falloff as u64) * ratio;
    (numerator / denominator) as u32
}

} // verus!

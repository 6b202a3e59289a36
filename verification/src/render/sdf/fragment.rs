//! The distance field: for a point of the world, how far the nearest
//! occluder is.
//!
//! The distance is unsigned: zero inside an occluder and on its boundary,
//! and otherwise the Euclidean distance to the nearest point of the
//! rectangle, rounded down.

use vstd::prelude::*;
use crate::math::{abs_diff, floor_sqrt, is_floor_sqrt, isqrt, Vec2};
use crate::math::{lemma_floor_sqrt_is_root, lemma_floor_sqrt_monotonic};
use crate::render::extract::ExtractedLightOccluder2d;

verus! {

/// What the field holds where there is no occluder at all: more than the
/// distance between any two positions.
pub const SDF_INFINITE: u64 = 0x100_0000_0000;

/// How far `p` lies outside the interval of half width `half` around
/// `center`; zero inside it.
pub open spec fn axis_gap(p: int, center: int, half: int) -> int {
    if abs_diff(p, center) > half {
        abs_diff(p, center) - half
    } else {
        0
    }
}

impl ExtractedLightOccluder2d {
    /// Whether `p` lies in the rectangle, boundary included.
    pub open spec fn contains(self, p: Vec2) -> bool {
        &&& abs_diff(p.x as int, self.center.x as int) <= self.half_size.x
        &&& abs_diff(p.y as int, self.center.y as int) <= self.half_size.y
    }

    /// The square of the distance from `p` to the nearest point of the
    /// rectangle.
    pub open spec fn distance_squared_to(self, p: Vec2) -> int {
        let gap_x = axis_gap(p.x as int, self.center.x as int, self.half_size.x as int);
        let gap_y = axis_gap(p.y as int, self.center.y as int, self.half_size.y as int);
        gap_x * gap_x + gap_y * gap_y
    }

    /// The distance from `p` to the nearest point of the rectangle, rounded
    /// down.
    pub open spec fn distance_to(self, p: Vec2) -> nat {
        floor_sqrt(self.distance_squared_to(p) as nat)
    }
}

/// The distance field at `p`: the least distance to any of the occluders,
/// and [`SDF_INFINITE`] where there is none.
pub open spec fn sdf(p: Vec2, occluders: Seq<ExtractedLightOccluder2d>) -> nat
    decreases occluders.len(),
{
    if occluders.len() == 0 {
        SDF_INFINITE as nat
    } else {
        let rest = sdf(p, occluders.drop_last());
        let last = occluders.last().distance_to(p);
        if last < rest {
            last
        } else {
            rest
        }
    }
}

/// The square of a gap along one axis fits in 64 bits.
proof fn lemma_gap_square_bound(gap: int)
    requires
        0 <= gap <= 0xffff_ffff,
    ensures
        0 <= gap * gap <= 0xffff_fffe_0000_0001,
{
    assert(0 <= gap * gap <= 0xffff_ffff * 0xffff_ffff) by (nonlinear_arith)
        requires
            0 <= gap <= 0xffff_ffff,
    ;
}

/// No occluder is as far away as [`SDF_INFINITE`].
pub proof fn lemma_distance_is_finite(occluder: ExtractedLightOccluder2d, p: Vec2)
    ensures
        occluder.distance_to(p) < 0x2_0000_0000,
        occluder.distance_to(p) < SDF_INFINITE,
{
    let gap_x = axis_gap(p.x as int, occluder.center.x as int, occluder.half_size.x as int);
    let gap_y = axis_gap(p.y as int, occluder.center.y as int, occluder.half_size.y as int);
    lemma_gap_square_bound(gap_x);
    lemma_gap_square_bound(gap_y);
    let n = occluder.distance_squared_to(p);
    lemma_floor_sqrt_is_root(n as nat);
    let r = floor_sqrt(n as nat) as int;
    assert(r < 0x2_0000_0000) by (nonlinear_arith)
        requires
            0 <= r,
            r * r <= n,
            n <= 0x1_ffff_fffc_0000_0002,
    ;
}

/// The distance to an occluder is zero inside it and on its boundary, and
/// nowhere else.
pub proof fn lemma_distance_is_zero_inside(occluder: ExtractedLightOccluder2d, p: Vec2)
    ensures
        occluder.contains(p) <==> occluder.distance_to(p) == 0,
{
    let gap_x = axis_gap(p.x as int, occluder.center.x as int, occluder.half_size.x as int);
    let gap_y = axis_gap(p.y as int, occluder.center.y as int, occluder.half_size.y as int);
    let squared = occluder.distance_squared_to(p);
    let distance = occluder.distance_to(p) as int;
    lemma_floor_sqrt_is_root(squared as nat);
    if occluder.contains(p) {
        assert(gap_x * gap_x + gap_y * gap_y == 0) by (nonlinear_arith)
            requires
                gap_x == 0,
                gap_y == 0,
        ;
    } else {
        assert(gap_x * gap_x + gap_y * gap_y >= 1) by (nonlinear_arith)
            requires
                gap_x >= 0,
                gap_y >= 0,
                gap_x > 0 || gap_y > 0,
        ;
        assert(distance != 0) by (nonlinear_arith)
            requires
                squared >= 1,
                squared < (distance + 1) * (distance + 1),
        ;
    }
}

/// The field is the least of the occluders' distances: no occluder is
/// nearer, and, where there is an occluder, one of them is exactly that far.
pub proof fn lemma_sdf_is_least(p: Vec2, occluders: Seq<ExtractedLightOccluder2d>)
    ensures
        sdf(p, occluders) <= SDF_INFINITE,
        forall|i: int|
            0 <= i < occluders.len() ==> sdf(p, occluders) <= #[trigger] occluders[i].distance_to(p),
        occluders.len() > 0 ==> exists|i: int|
            0 <= i < occluders.len() && sdf(p, occluders) == #[trigger] occluders[i].distance_to(p),
        occluders.len() > 0 ==> sdf(p, occluders) < 0x2_0000_0000,
    decreases occluders.len(),
{
    if occluders.len() > 0 {
        let rest = occluders.drop_last();
        lemma_sdf_is_least(p, rest);
        lemma_distance_is_finite(occluders.last(), p);
        assert forall|i: int| 0 <= i < occluders.len() implies sdf(p, occluders)
            <= #[trigger] occluders[i].distance_to(p) by {
            if i < rest.len() {
                assert(rest[i] == occluders[i]);
            }
        }
        if occluders.last().distance_to(p) < sdf(p, rest) {
            assert(sdf(p, occluders) == occluders[occluders.len() - 1].distance_to(p));
        } else {
            assert(rest.len() > 0);
            let i = choose|i: int|
                0 <= i < rest.len() && sdf(p, rest) == #[trigger] rest[i].distance_to(p);
            assert(rest[i] == occluders[i]);
            assert(sdf(p, occluders) == occluders[i].distance_to(p));
        }
    }
}

/// Inside an occluder the field is zero, so the field at such a point never
/// exceeds the field at any other point, whichever way one leaves the
/// occluder.
pub proof fn lemma_sdf_inside_is_least(
    occluders: Seq<ExtractedLightOccluder2d>,
    i: int,
    inside: Vec2,
    elsewhere: Vec2,
)
    requires
        0 <= i < occluders.len(),
        occluders[i].contains(inside),
    ensures
        sdf(inside, occluders) == 0,
        sdf(inside, occluders) <= sdf(elsewhere, occluders),
{
    lemma_sdf_is_least(inside, occluders);
    lemma_distance_is_zero_inside(occluders[i], inside);
}

/// Moving away from a point inside an occluder, along any ray, the distance
/// to that occluder never decreases: `near` and `far` lie on the ray from
/// `inside` in direction `(dir_x, dir_y)`, `near` no further along than `far`.
pub proof fn lemma_distance_non_decreasing_outward(
    occluder: ExtractedLightOccluder2d,
    inside: Vec2,
    dir_x: int,
    dir_y: int,
    t_near: int,
    t_far: int,
    near: Vec2,
    far: Vec2,
)
    requires
        occluder.contains(inside),
        0 <= t_near <= t_far,
        near.x == inside.x + t_near * dir_x,
        near.y == inside.y + t_near * dir_y,
        far.x == inside.x + t_far * dir_x,
        far.y == inside.y + t_far * dir_y,
    ensures
        occluder.distance_to(near) <= occluder.distance_to(far),
{
    lemma_gap_non_decreasing_outward(
        inside.x as int,
        occluder.center.x as int,
        occluder.half_size.x as int,
        dir_x,
        t_near,
        t_far,
    );
    lemma_gap_non_decreasing_outward(
        inside.y as int,
        occluder.center.y as int,
        occluder.half_size.y as int,
        dir_y,
        t_near,
        t_far,
    );
    let near_x = axis_gap(near.x as int, occluder.center.x as int, occluder.half_size.x as int);
    let near_y = axis_gap(near.y as int, occluder.center.y as int, occluder.half_size.y as int);
    let far_x = axis_gap(far.x as int, occluder.center.x as int, occluder.half_size.x as int);
    let far_y = axis_gap(far.y as int, occluder.center.y as int, occluder.half_size.y as int);
    assert(near_x * near_x <= far_x * far_x) by (nonlinear_arith)
        requires
            0 <= near_x <= far_x,
    ;
    assert(near_y * near_y <= far_y * far_y) by (nonlinear_arith)
        requires
            0 <= near_y <= far_y,
    ;
    lemma_floor_sqrt_monotonic(
        occluder.distance_squared_to(near) as nat,
        occluder.distance_squared_to(far) as nat,
    );
}

/// Along one axis: starting inside the interval and moving in one direction,
/// the gap to the interval never shrinks.
proof fn lemma_gap_non_decreasing_outward(
    inside: int,
    center: int,
    half: int,
    dir: int,
    t_near: int,
    t_far: int,
)
    requires
        abs_diff(inside, center) <= half,
        0 <= t_near <= t_far,
    ensures
        0 <= axis_gap(inside + t_near * dir, center, half) <= axis_gap(
            inside + t_far * dir,
            center,
            half,
        ),
{
    if dir >= 0 {
        assert(0 <= t_near * dir <= t_far * dir) by (nonlinear_arith)
            requires
                0 <= t_near <= t_far,
                dir >= 0,
        ;
    } else {
        assert(0 >= t_near * dir >= t_far * dir) by (nonlinear_arith)
            requires
                0 <= t_near <= t_far,
                dir < 0,
        ;
    }
}

/// The distance from `p` to the nearest point of the occluder, rounded down.
pub fn occluder_distance(p: Vec2, occluder: &ExtractedLightOccluder2d) -> (distance: u64)
    ensures
        distance == occluder.distance_to(p),
        is_floor_sqrt(occluder.distance_squared_to(p), distance as int),
        occluder.contains(p) <==> distance == 0,
        distance < SDF_INFINITE,
{
    let gap_x = gap(p.x, occluder.center.x, occluder.half_size.x);
    let gap_y = gap(p.y, occluder.center.y, occluder.half_size.y);
    proof {
        lemma_gap_square_bound(gap_x as int);
        lemma_gap_square_bound(gap_y as int);
        lemma_distance_is_finite(*occluder, p);
        lemma_distance_is_zero_inside(*occluder, p);
    }
    let squared: u128 = (gap_x as u128) * (gap_x as u128) + (gap_y as u128) * (gap_y as u128);
    isqrt(squared)
}

/// How far `p` lies outside the interval of half width `half` around
/// `center`; zero inside it.
fn gap(p: i32, center: i32, half: u32) -> (g: u64)
    ensures
        g == axis_gap(p as int, center as int, half as int),
        g <= 0xffff_ffff,
{
    let offset: i64 = p as i64 - center as i64;
    let reach: u64 = if offset >= 0 {
        offset as u64
    } else {
        (-offset) as u64
    };
    if reach > half as u64 {
        reach - half as u64
    } else {
        0
    }
}

/// The distance field at `p`: the distance to the nearest occluder, rounded
/// down; zero inside an occluder; [`SDF_INFINITE`] when there are no
/// occluders.
pub fn fragment(p: Vec2, occluders: &Vec<ExtractedLightOccluder2d>) -> (distance: u64)
    ensures
        distance == sdf(p, occluders@),
        occluders.len() == 0 ==> distance == SDF_INFINITE,
        forall|i: int|
            0 <= i < occluders.len() ==> distance <= #[trigger] occluders[i].distance_to(p),
        occluders.len() > 0 ==> exists|i: int|
            0 <= i < occluders.len() && distance == #[trigger] occluders[i].distance_to(p),
{
    let mut distance: u64 = SDF_INFINITE;
    let mut i: usize = 0;
    while i < occluders.len()
        invariant
            i <= occluders.len(),
            distance == sdf(p, occluders@.take(i as int)),
        decreases occluders.len() - i,
    {
        let next = occluder_distance(p, &occluders[i]);
        proof {
            occluders@.lemma_take_succ_push(i as int);
            assert(occluders@.take(i + 1).drop_last() == occluders@.take(i as int));
        }
        if next < distance {
            distance = next;
        }
        i += 1;
    }
    proof {
        occluders@.lemma_take_len();
        lemma_sdf_is_least(p, occluders@);
    }
    distance
}

} // verus!

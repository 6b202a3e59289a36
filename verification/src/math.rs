//! Fixed-point numbers and the small amount of plane geometry the lighting
//! passes are built on.
//!
//! Every scalar in this crate is a binary fixed-point number with sixteen
//! fractional bits: the stored integer `raw` stands for the real number
//! `raw / 65536`. Positions are signed, every other quantity is unsigned.

use vstd::prelude::*;

verus! {

/// The stored integer that stands for the real number one.
pub const ONE: u32 = 65536;

/// A position in world space.
#[derive(Clone, Copy, Debug, PartialEq, Eq, Structural)]
pub struct Vec2 {
    pub x: i32,
    pub y: i32,
}

/// The non-negative half width and half height of an axis-aligned rectangle.
#[derive(Clone, Copy, Debug, PartialEq, Eq, Structural)]
pub struct HalfSize {
    pub x: u32,
    pub y: u32,
}

/// A color in linear RGB with alpha.
#[derive(Clone, Copy, Debug, PartialEq, Eq, Structural)]
pub struct LinearRgba {
    pub red: u32,
    pub green: u32,
    pub blue: u32,
    pub alpha: u32,
}

impl Vec2 {
    /// The position with the given whole-number coordinates.
    pub fn from_units(x: i16, y: i16) -> (p: Vec2)
        ensures
            p.x == x * 65536,
            p.y == y * 65536,
    {
        Vec2 { x: (x as i32) * 65536, y: (y as i32) * 65536 }
    }
}

impl LinearRgba {
    /// Opaque white: every channel is one.
    pub open spec fn white_spec() -> LinearRgba {
        LinearRgba { red: 65536, green: 65536, blue: 65536, alpha: 65536 }
    }

    /// Every channel is zero.
    pub open spec fn none_spec() -> LinearRgba {
        LinearRgba { red: 0, green: 0, blue: 0, alpha: 0 }
    }

    /// Opaque white: every channel is one.
    #[verifier::when_used_as_spec(white_spec)]
    pub fn white() -> (c: LinearRgba)
        ensures
            c == Self::white_spec(),
    {
        LinearRgba { red: ONE, green: ONE, blue: ONE, alpha: ONE }
    }

    /// Every channel is zero.
    #[verifier::when_used_as_spec(none_spec)]
    pub fn none() -> (c: LinearRgba)
        ensures
            c == Self::none_spec(),
    {
        LinearRgba { red: 0, green: 0, blue: 0, alpha: 0 }
    }
}

/// The product of two fixed-point numbers, rounded down and held to the
/// largest value a `u32` can store.
pub open spec fn mul_fixed(a: int, b: int) -> int {
    if a * b / 65536 > u32::MAX {
        u32::MAX as int
    } else {
        a * b / 65536
    }
}

/// The sum of two fixed-point numbers, held to the largest value a `u32` can
/// store.
pub open spec fn add_fixed(a: int, b: int) -> int {
    if a + b > u32::MAX {
        u32::MAX as int
    } else {
        a + b
    }
}

/// Multiplying by one changes nothing, and multiplying by zero gives zero.
pub proof fn lemma_mul_fixed_unit(a: int)
    requires
        0 <= a <= u32::MAX,
    ensures
        mul_fixed(a, 65536) == a,
        mul_fixed(65536, a) == a,
        mul_fixed(a, 0) == 0,
        mul_fixed(0, a) == 0,
{
    assert(a * 65536 / 65536 == a && 65536 * a / 65536 == a && a * 0 / 65536 == 0 && 0 * a
        / 65536 == 0) by (nonlinear_arith);
}

/// The product of two fixed-point numbers: exact up to rounding down to the
/// next multiple of `1 / 65536`, and saturating.
pub fn saturating_mul_fixed(a: u32, b: u32) -> (p: u32)
    ensures
        p == mul_fixed(a as int, b as int),
{
    assert(a * b <= 0xffff_ffff * 0xffff_ffff) by (nonlinear_arith)
        requires
            0 <= a <= 0xffff_ffff,
            0 <= b <= 0xffff_ffff,
    ;
    let wide: u64 = (a as u64) * (b as u64) / 65536;
    if wide > u32::MAX as u64 {
        u32::MAX
    } else {
        wide as u32
    }
}

impl LinearRgba {
    /// This color with every channel multiplied by `factor`.
    pub open spec fn scaled(self, factor: int) -> LinearRgba {
        LinearRgba {
            red: mul_fixed(self.red as int, factor) as u32,
            green: mul_fixed(self.green as int, factor) as u32,
            blue: mul_fixed(self.blue as int, factor) as u32,
            alpha: mul_fixed(self.alpha as int, factor) as u32,
        }
    }

    /// The channel-wise product of two colors.
    pub open spec fn modulated(self, other: LinearRgba) -> LinearRgba {
        LinearRgba {
            red: mul_fixed(self.red as int, other.red as int) as u32,
            green: mul_fixed(self.green as int, other.green as int) as u32,
            blue: mul_fixed(self.blue as int, other.blue as int) as u32,
            alpha: mul_fixed(self.alpha as int, other.alpha as int) as u32,
        }
    }

    /// The channel-wise sum of two colors.
    pub open spec fn plus(self, other: LinearRgba) -> LinearRgba {
        LinearRgba {
            red: add_fixed(self.red as int, other.red as int) as u32,
            green: add_fixed(self.green as int, other.green as int) as u32,
            blue: add_fixed(self.blue as int, other.blue as int) as u32,
            alpha: add_fixed(self.alpha as int, other.alpha as int) as u32,
        }
    }

    /// Multiplies every channel by `factor`.
    pub fn scale(self, factor: u32) -> (c: LinearRgba)
        ensures
            c == self.scaled(factor as int),
    {
        LinearRgba {
            red: saturating_mul_fixed(self.red, factor),
            green: saturating_mul_fixed(self.green, factor),
            blue: saturating_mul_fixed(self.blue, factor),
            alpha: saturating_mul_fixed(self.alpha, factor),
        }
    }

    /// Multiplies the two colors channel by channel.
    pub fn modulate(self, other: LinearRgba) -> (c: LinearRgba)
        ensures
            c == self.modulated(other),
    {
        LinearRgba {
            red: saturating_mul_fixed(self.red, other.red),
            green: saturating_mul_fixed(self.green, other.green),
            blue: saturating_mul_fixed(self.blue, other.blue),
            alpha: saturating_mul_fixed(self.alpha, other.alpha),
        }
    }

    /// Adds the two colors channel by channel.
    pub fn saturating_add(self, other: LinearRgba) -> (c: LinearRgba)
        ensures
            c == self.plus(other),
    {
        LinearRgba {
            red: self.red.saturating_add(other.red),
            green: self.green.saturating_add(other.green),
            blue: self.blue.saturating_add(other.blue),
            alpha: self.alpha.saturating_add(other.alpha),
        }
    }
}

/// `|a - b|`.
pub open spec fn abs_diff(a: int, b: int) -> int {
    if a >= b {
        a - b
    } else {
        b - a
    }
}

/// The square of the Euclidean distance between `a` and `b`.
pub open spec fn distance_squared_spec(a: Vec2, b: Vec2) -> int {
    (a.x - b.x) * (a.x - b.x) + (a.y - b.y) * (a.y - b.y)
}

/// `r` is the integer square root of `n`, rounded down.
pub open spec fn is_floor_sqrt(n: int, r: int) -> bool {
    0 <= r && r * r <= n && n < (r + 1) * (r + 1)
}

/// The integer square root of `n`, rounded down.
pub open spec fn floor_sqrt(n: nat) -> nat
    decreases n,
{
    if n == 0 {
        0
    } else {
        let r = floor_sqrt((n - 1) as nat);
        if (r + 1) * (r + 1) <= n {
            r + 1
        } else {
            r
        }
    }
}

/// `floor_sqrt(n)` is the largest integer whose square does not exceed `n`.
pub proof fn lemma_floor_sqrt_is_root(n: nat)
    ensures
        is_floor_sqrt(n as int, floor_sqrt(n) as int),
    decreases n,
{
    if n > 0 {
        lemma_floor_sqrt_is_root((n - 1) as nat);
        let r = floor_sqrt((n - 1) as nat) as int;
        assert((r + 2) * (r + 2) > (r + 1) * (r + 1)) by (nonlinear_arith)
            requires
                r >= 0,
        ;
    }
}

/// There is only one rounded-down square root.
pub proof fn lemma_floor_sqrt_unique(n: nat, r: int)
    requires
        is_floor_sqrt(n as int, r),
    ensures
        r == floor_sqrt(n),
{
    lemma_floor_sqrt_is_root(n);
    let s = floor_sqrt(n) as int;
    assert(r <= s) by (nonlinear_arith)
        requires
            0 <= r,
            0 <= s,
            r * r <= n,
            n < (s + 1) * (s + 1),
    ;
    assert(s <= r) by (nonlinear_arith)
        requires
            0 <= r,
            0 <= s,
            s * s <= n,
            n < (r + 1) * (r + 1),
    ;
}

/// A larger number has a square root that is at least as large.
pub proof fn lemma_floor_sqrt_monotonic(a: nat, b: nat)
    requires
        a <= b,
    ensures
        floor_sqrt(a) <= floor_sqrt(b),
{
    lemma_floor_sqrt_is_root(a);
    lemma_floor_sqrt_is_root(b);
    let r = floor_sqrt(a) as int;
    let s = floor_sqrt(b) as int;
    assert(r <= s) by (nonlinear_arith)
        requires
            0 <= r,
            0 <= s,
            r * r <= a,
            a <= b,
            b < (s + 1) * (s + 1),
    ;
}

/// The squared distance between two positions fits in 65 bits.
pub proof fn lemma_distance_squared_bound(a: Vec2, b: Vec2)
    ensures
        0 <= distance_squared_spec(a, b) <= 0x1_ffff_fffc_0000_0002,
{
    let dx = a.x - b.x;
    let dy = a.y - b.y;
    assert(0 <= dx * dx <= 0xffff_ffff * 0xffff_ffff) by (nonlinear_arith)
        requires
            -0xffff_ffff <= dx <= 0xffff_ffff,
    ;
    assert(0 <= dy * dy <= 0xffff_ffff * 0xffff_ffff) by (nonlinear_arith)
        requires
            -0xffff_ffff <= dy <= 0xffff_ffff,
    ;
}

/// The square of the Euclidean distance between two positions.
pub fn distance_squared(a: Vec2, b: Vec2) -> (d2: u128)
    ensures
        d2 == distance_squared_spec(a, b),
        d2 <= 0x1_ffff_fffc_0000_0002,
{
    let dx: i64 = a.x as i64 - b.x as i64;
    let dy: i64 = a.y as i64 - b.y as i64;
    let ax: u128 = if dx >= 0 { dx as u128 } else { (-dx) as u128 };
    let ay: u128 = if dy >= 0 { dy as u128 } else { (-dy) as u128 };
    assert(ax * ax == (a.x - b.x) * (a.x - b.x)) by (nonlinear_arith)
        requires
            ax == a.x - b.x || ax == -(a.x - b.x),
    ;
    assert(ay * ay == (a.y - b.y) * (a.y - b.y)) by (nonlinear_arith)
        requires
            ay == a.y - b.y || ay == -(a.y - b.y),
    ;
    assert(ax * ax <= 0xffff_ffff * 0xffff_ffff) by (nonlinear_arith)
        requires
            ax <= 0xffff_ffff,
    ;
    assert(ay * ay <= 0xffff_ffff * 0xffff_ffff) by (nonlinear_arith)
        requires
            ay <= 0xffff_ffff,
    ;
    ax * ax + ay * ay
}

/// The integer square root of `n`, rounded down.
pub fn isqrt(n: u128) -> (r: u64)
    ensures
        r == floor_sqrt(n as nat),
        is_floor_sqrt(n as int, r as int),
{
    let mut lo: u128 = 0;
    let mut hi: u128 = 0x1_0000_0000_0000_0000;
    assert(n < 0x1_0000_0000_0000_0000 * 0x1_0000_0000_0000_0000) by (nonlinear_arith)
        requires
            n <= u128::MAX,
    ;
    while hi - lo > 1
        invariant
            lo < hi <= 0x1_0000_0000_0000_0000,
            lo * lo <= n,
            n < hi * hi,
        decreases hi - lo,
    {
        let mid: u128 = lo + (hi - lo) / 2;
        assert(mid * mid <= 0xffff_ffff_ffff_ffff * 0xffff_ffff_ffff_ffff) by (nonlinear_arith)
            requires
                mid <= 0xffff_ffff_ffff_ffff,
        ;
        if mid * mid <= n {
            lo = mid;
        } else {
            hi = mid;
        }
    }
    proof {
        lemma_floor_sqrt_unique(n as nat, lo as int);
    }
    lo as u64
}

} // verus!

//! Fixed-point points and vectors, and the distance tests of the combat rules.
//!
//! A coordinate counts thousandths of a world unit. Hit tests look at the
//! horizontal plane only: the axes `x` and `z`.

use vstd::prelude::*;

verus! {

/// Thousandths in one world unit.
pub const UNIT: i32 = 1000;

/// A point of the world, or a vector between two of them.
#[derive(Clone, Copy, Debug, PartialEq, Eq, Structural)]
pub struct FixedVec3 {
    pub x: i32,
    pub y: i32,
    pub z: i32,
}

/// Square of the distance between `a` and `b` on the horizontal plane.
pub open spec fn horizontal_distance_squared(a: FixedVec3, b: FixedVec3) -> int {
    (a.x - b.x) * (a.x - b.x) + (a.z - b.z) * (a.z - b.z)
}

/// Whether `b` lies closer to `a` than `radius` on the horizontal plane.
pub open spec fn within_radius(a: FixedVec3, b: FixedVec3, radius: u32) -> bool {
    horizontal_distance_squared(a, b) < radius * radius
}

proof fn lemma_square_bound(d: int, bound: int)
    requires
        -bound <= d <= bound,
    ensures
        0 <= d * d <= bound * bound,
{
    assert(0 <= d * d <= bound * bound) by (nonlinear_arith)
        requires
            -bound <= d <= bound,
    ;
}

/// Decides `within_radius` without a square root.
pub fn is_within_radius(a: FixedVec3, b: FixedVec3, radius: u32) -> (r: bool)
    ensures
        r == within_radius(a, b, radius),
{
    let dx: i128 = a.x as i128 - b.x as i128;
    let dz: i128 = a.z as i128 - b.z as i128;
    let reach: i128 = radius as i128;
    proof {
        lemma_square_bound(dx as int, 0xffff_ffff);
        lemma_square_bound(dz as int, 0xffff_ffff);
        lemma_square_bound(reach as int, 0xffff_ffff);
    }
    dx * dx + dz * dz < reach * reach
}

/// The nearest coordinate to `v` that a point can have.
pub open spec fn clamp_coordinate(v: int) -> i32 {
    if v < i32::MIN {
        i32::MIN
    } else if v > i32::MAX {
        i32::MAX
    } else {
        v as i32
    }
}

/// How far a coordinate moves in one tick at `direction` thousandths and
/// `speed` thousandths: their product in thousandths, rounded down.
pub open spec fn step_length(direction: i32, speed: i32) -> int {
    (direction * speed) / (UNIT as int)
}

fn step_of(direction: i32, speed: i32) -> (r: i64)
    ensures
        r == step_length(direction, speed),
{
    assert(-0x4000_0000_0000_0000 <= direction as int * speed as int <= 0x4000_0000_0000_0000)
        by (nonlinear_arith)
        requires
            -0x8000_0000 <= direction as int <= 0x7fff_ffff,
            -0x8000_0000 <= speed as int <= 0x7fff_ffff,
    ;
    let product: i64 = direction as i64 * speed as i64;
    if product >= 0 {
        product / 1000
    } else {
        let up: i64 = -product;
        let q: i64 = (up + 999) / 1000;
        -q
    }
}

fn clamped_sum(base: i32, step: i64) -> (r: i32)
    requires
        -0x4000_0000_0000_0000 <= step <= 0x4000_0000_0000_0000,
    ensures
        r == clamp_coordinate(base + step),
{
    let sum: i64 = base as i64 + step;
    if sum < i32::MIN as i64 {
        i32::MIN
    } else if sum > i32::MAX as i64 {
        i32::MAX
    } else {
        sum as i32
    }
}

/// Where a point at `position` stands after one tick of travel: each
/// coordinate advanced by `direction * speed`, kept within the coordinates
/// that exist.
pub open spec fn advanced(position: FixedVec3, direction: FixedVec3, speed: i32) -> FixedVec3 {
    FixedVec3 {
        x: clamp_coordinate(position.x + step_length(direction.x, speed)),
        y: clamp_coordinate(position.y + step_length(direction.y, speed)),
        z: clamp_coordinate(position.z + step_length(direction.z, speed)),
    }
}

/// Moves `position` by one tick of travel.
pub fn advance(position: FixedVec3, direction: FixedVec3, speed: i32) -> (r: FixedVec3)
    ensures
        r == advanced(position, direction, speed),
{
    let sx: i64 = step_of(direction.x, speed);
    let sy: i64 = step_of(direction.y, speed);
    let sz: i64 = step_of(direction.z, speed);
    assert(forall|d: i32|
        -0x4000_0000_0000_0000 <= #[trigger] step_length(d, speed) <= 0x4000_0000_0000_0000) by {
        assert forall|d: i32|
            -0x4000_0000_0000_0000 <= #[trigger] step_length(d, speed)
                <= 0x4000_0000_0000_0000 by {
            assert(-0x4000_0000_0000_0000 <= d as int * speed as int <= 0x4000_0000_0000_0000)
                by (nonlinear_arith)
                requires
                    -0x8000_0000 <= d as int <= 0x7fff_ffff,
                    -0x8000_0000 <= speed as int <= 0x7fff_ffff,
            ;
        }
    }
    FixedVec3 {
        x: clamped_sum(position.x, sx),
        y: clamped_sum(position.y, sy),
        z: clamped_sum(position.z, sz),
    }
}

/// Square of the length of the vector from `from` to `to`.
pub open spec fn distance_squared(from: FixedVec3, to: FixedVec3) -> int {
    (to.x - from.x) * (to.x - from.x) + (to.y - from.y) * (to.y - from.y) + (to.z - from.z) * (
    to.z - from.z)
}

/// Whether `root` is the square root of `n`, rounded down.
pub open spec fn is_floor_sqrt(n: int, root: int) -> bool {
    0 <= root && root * root <= n < (root + 1) * (root + 1)
}

/// The square root of `n`, rounded down.
pub open spec fn spec_floor_sqrt(n: int) -> int {
    choose|root: int| is_floor_sqrt(n, root)
}

/// Computes the square root of `n`, rounded down.
pub fn floor_sqrt(n: u128) -> (root: u64)
    ensures
        is_floor_sqrt(n as int, root as int),
        root == spec_floor_sqrt(n as int),
{
    let mut low: u128 = 0;
    let mut high: u128 = 0x1_0000_0000_0000_0000;
    assert(0x1_0000_0000_0000_0000 * 0x1_0000_0000_0000_0000 > u128::MAX) by (nonlinear_arith);
    while high - low > 1
        invariant
            low < high <= 0x1_0000_0000_0000_0000,
            low * low <= n < high * high,
        decreases high - low,
    {
        let mid: u128 = low + (high - low) / 2;
        assert(0 <= mid * mid <= 0xffff_ffff_ffff_ffff * 0xffff_ffff_ffff_ffff) by (nonlinear_arith)
            requires
                0 <= mid <= 0xffff_ffff_ffff_ffff,
        ;
        assert(0xffff_ffff_ffff_ffff * 0xffff_ffff_ffff_ffff <= u128::MAX) by (nonlinear_arith);
        let square: u128 = mid * mid;
        if square <= n {
            low = mid;
        } else {
            high = mid;
        }
    }
    proof {
        assert(is_floor_sqrt(n as int, low as int));
        lemma_floor_sqrt_unique(n as int, low as int, spec_floor_sqrt(n as int));
    }
    low as u64
}

/// One coordinate of a vector of length `UNIT` that points along a vector of
/// length `length` with the coordinate `d`: rounded toward zero.
pub open spec fn unit_coordinate(d: int, length: int) -> int {
    if d >= 0 {
        (d * UNIT) / length
    } else {
        -(((-d) * UNIT) / length)
    }
}

fn unit_coordinate_of(d: i64, length: u64) -> (r: i32)
    requires
        0 < length < 0x4_0000_0000,
        -(length as int) <= d <= length as int,
    ensures
        r == unit_coordinate(d as int, length as int),
        -UNIT <= r <= UNIT,
        d > 0 ==> r >= 0,
        d < 0 ==> r <= 0,
        d == 0 ==> r == 0,
{
    let size: u64 = if d >= 0 { d as u64 } else { (-d) as u64 };
    let scaled: u64 = size * 1000;
    let q: u64 = scaled / length;
    proof {
        assert(0 <= (size * 1000) / (length as int) <= 1000) by (nonlinear_arith)
            requires
                0 <= size <= length,
                0 < length,
        ;
        assert(size == 0 ==> (size * 1000) / (length as int) == 0) by (nonlinear_arith)
            requires
                0 < length,
        ;
    }
    if d >= 0 {
        q as i32
    } else {
        -(q as i32)
    }
}

/// The vector of length `UNIT` that points from `from` to `to`, each
/// coordinate rounded toward zero; the zero vector where the two coincide.
pub open spec fn unit_toward(from: FixedVec3, to: FixedVec3) -> FixedVec3 {
    let length = spec_floor_sqrt(distance_squared(from, to));
    if length == 0 {
        FixedVec3 { x: 0, y: 0, z: 0 }
    } else {
        FixedVec3 {
            x: unit_coordinate(to.x - from.x, length) as i32,
            y: unit_coordinate(to.y - from.y, length) as i32,
            z: unit_coordinate(to.z - from.z, length) as i32,
        }
    }
}

proof fn lemma_coordinate_below_length(d: int, rest: int, length: int)
    requires
        0 <= rest,
        is_floor_sqrt(d * d + rest, length),
    ensures
        -length <= d <= length,
{
    assert(-length <= d <= length) by (nonlinear_arith)
        requires
            0 <= rest,
            0 <= length,
            d * d + rest < (length + 1) * (length + 1),
    ;
}

/// Normalises the vector from `from` to `to` to the length `UNIT`.
pub fn normalized_toward(from: FixedVec3, to: FixedVec3) -> (r: FixedVec3)
    ensures
        r == unit_toward(from, to),
        -UNIT <= r.x <= UNIT && -UNIT <= r.y <= UNIT && -UNIT <= r.z <= UNIT,
        to.x > from.x ==> r.x >= 0,
        to.x < from.x ==> r.x <= 0,
        to.y > from.y ==> r.y >= 0,
        to.y < from.y ==> r.y <= 0,
        to.z > from.z ==> r.z >= 0,
        to.z < from.z ==> r.z <= 0,
        from == to ==> r == (FixedVec3 { x: 0, y: 0, z: 0 }),
{
    let dx: i64 = to.x as i64 - from.x as i64;
    let dy: i64 = to.y as i64 - from.y as i64;
    let dz: i64 = to.z as i64 - from.z as i64;
    proof {
        lemma_square_bound(dx as int, 0xffff_ffff);
        lemma_square_bound(dy as int, 0xffff_ffff);
        lemma_square_bound(dz as int, 0xffff_ffff);
    }
    let n: u128 = (dx as i128 * dx as i128 + dy as i128 * dy as i128 + dz as i128 * dz as i128) as u128;
    let length: u64 = floor_sqrt(n);
    proof {
        assert(n == distance_squared(from, to));
        assert(length < 0x4_0000_0000) by (nonlinear_arith)
            requires
                length * length <= n,
                n <= 3 * (0xffff_ffff * 0xffff_ffff),
        ;
        lemma_coordinate_below_length(dx as int, dy * dy + dz * dz, length as int);
        lemma_coordinate_below_length(dy as int, dx * dx + dz * dz, length as int);
        lemma_coordinate_below_length(dz as int, dx * dx + dy * dy, length as int);
    }
    let r = if length == 0 {
        FixedVec3 { x: 0, y: 0, z: 0 }
    } else {
        FixedVec3 {
            x: unit_coordinate_of(dx, length),
            y: unit_coordinate_of(dy, length),
            z: unit_coordinate_of(dz, length),
        }
    };
    proof {
        assert(r == unit_toward(from, to));
        if from == to {
            assert(dx == 0 && dy == 0 && dz == 0);
        }
    }
    r
}

/// A number has one square root rounded down.
pub proof fn lemma_floor_sqrt_unique(n: int, a: int, b: int)
    requires
        is_floor_sqrt(n, a),
        is_floor_sqrt(n, b),
    ensures
        a == b,
{
    assert(a == b) by (nonlinear_arith)
        requires
            0 <= a,
            0 <= b,
            a * a <= n < (a + 1) * (a + 1),
            b * b <= n < (b + 1) * (b + 1),
    ;
}

/// `v` with each coordinate multiplied by `factor`, kept within the
/// coordinates that exist.
pub open spec fn scaled(v: FixedVec3, factor: i32) -> FixedVec3 {
    FixedVec3 {
        x: clamp_coordinate(v.x * factor),
        y: clamp_coordinate(v.y * factor),
        z: clamp_coordinate(v.z * factor),
    }
}

/// Multiplies each coordinate of `v` by `factor`.
pub fn scale(v: FixedVec3, factor: i32) -> (r: FixedVec3)
    ensures
        r == scaled(v, factor),
{
    assert(forall|d: i32|
        -0x4000_0000_0000_0000 <= #[trigger] (d * factor) <= 0x4000_0000_0000_0000) by {
        assert forall|d: i32|
            -0x4000_0000_0000_0000 <= #[trigger] (d * factor) <= 0x4000_0000_0000_0000 by {
            assert(-0x4000_0000_0000_0000 <= d as int * factor as int <= 0x4000_0000_0000_0000)
                by (nonlinear_arith)
                requires
                    -0x8000_0000 <= d as int <= 0x7fff_ffff,
                    -0x8000_0000 <= factor as int <= 0x7fff_ffff,
            ;
        }
    }
    FixedVec3 {
        x: clamped_sum(0, v.x as i64 * factor as i64),
        y: clamped_sum(0, v.y as i64 * factor as i64),
        z: clamped_sum(0, v.z as i64 * factor as i64),
    }
}

} // verus!

//! Positions, orthographic projections, world transforms, and the pure
//! screen-to-world conversion.
//!
//! All coordinates are integers.  The conversion takes a screen coordinate,
//! adds the projection's left/bottom offset, multiplies by the projection's
//! scale while still in camera-local space, and only then applies the
//! camera's world transform; doing the scale after the transform would make
//! panning and non-unit zoom interact incorrectly.

use vstd::prelude::*;

verus! {

/// The location of the mouse in screen space: integer pixel coordinates
/// relative to a window's surface.
#[derive(Clone, Copy, Debug, PartialEq, Eq, Structural)]
pub struct MousePos {
    pub x: i64,
    pub y: i64,
}

/// The location of the mouse in world space, after applying a camera's
/// projection offsets, projection scale, and world transform.
#[derive(Clone, Copy, Debug, PartialEq, Eq, Structural)]
pub struct MousePosWorld {
    pub x: i64,
    pub y: i64,
    pub z: i64,
}

/// An orthographic projection: the offset of the projection's lower-left
/// corner from the window origin, and a zoom factor applied in camera-local
/// space.
#[derive(Clone, Copy, Debug, PartialEq, Eq, Structural)]
pub struct Projection {
    pub left: i64,
    pub bottom: i64,
    pub scale: i64,
}

/// A camera's resolved world transform: a linear part (rotation and any
/// additional scale, row-major) and a translation.
#[derive(Clone, Copy, Debug, PartialEq, Eq, Structural)]
pub struct Transform {
    pub m00: i64,
    pub m01: i64,
    pub m02: i64,
    pub m10: i64,
    pub m11: i64,
    pub m12: i64,
    pub m20: i64,
    pub m21: i64,
    pub m22: i64,
    pub tx: i64,
    pub ty: i64,
    pub tz: i64,
}

/// The screen position that tracking components start from when no cursor
/// value is available.
pub open spec fn zero_screen() -> MousePos {
    MousePos { x: 0, y: 0 }
}

/// The world position that tracking components start from.
pub open spec fn zero_world() -> MousePosWorld {
    MousePosWorld { x: 0, y: 0, z: 0 }
}

impl Default for MousePos {
    /// The zero screen position.
    fn default() -> (r: Self)
        ensures
            r == zero_screen(),
    {
        MousePos { x: 0, y: 0 }
    }
}

impl Default for MousePosWorld {
    /// The zero world position.
    fn default() -> (r: Self)
        ensures
            r == zero_world(),
    {
        MousePosWorld { x: 0, y: 0, z: 0 }
    }
}

impl Transform {
    /// The identity transform: no rotation, no scale, no translation.
    pub open spec fn spec_identity() -> Transform {
        Transform {
            m00: 1, m01: 0, m02: 0,
            m10: 0, m11: 1, m12: 0,
            m20: 0, m21: 0, m22: 1,
            tx: 0, ty: 0, tz: 0,
        }
    }

    /// The identity transform: no rotation, no scale, no translation.
    pub fn identity() -> (r: Transform)
        ensures
            r == Transform::spec_identity(),
    {
        Transform {
            m00: 1, m01: 0, m02: 0,
            m10: 0, m11: 1, m12: 0,
            m20: 0, m21: 0, m22: 1,
            tx: 0, ty: 0, tz: 0,
        }
    }
}

/// The camera-local x coordinate: screen x plus the projection's left
/// offset, scaled by the projection's zoom factor.
pub open spec fn local_x(screen: MousePos, proj: Projection) -> int {
    (screen.x + proj.left) * proj.scale
}

/// The camera-local y coordinate: screen y plus the projection's bottom
/// offset, scaled by the projection's zoom factor.
pub open spec fn local_y(screen: MousePos, proj: Projection) -> int {
    (screen.y + proj.bottom) * proj.scale
}

/// World x: the camera transform applied to the local point `(local_x, local_y, 0)`.
pub open spec fn world_x(screen: MousePos, t: Transform, proj: Projection) -> int {
    t.m00 * local_x(screen, proj) + t.m01 * local_y(screen, proj) + t.tx
}

/// World y: the camera transform applied to the local point `(local_x, local_y, 0)`.
pub open spec fn world_y(screen: MousePos, t: Transform, proj: Projection) -> int {
    t.m10 * local_x(screen, proj) + t.m11 * local_y(screen, proj) + t.ty
}

/// World z: the camera transform applied to the local point `(local_x, local_y, 0)`.
pub open spec fn world_z(screen: MousePos, t: Transform, proj: Projection) -> int {
    t.m20 * local_x(screen, proj) + t.m21 * local_y(screen, proj) + t.tz
}

/// Whether an unbounded integer fits in an `i64`.
pub open spec fn in_i64(v: int) -> bool {
    i64::MIN <= v <= i64::MAX
}

/// Whether the screen-to-world conversion stays within `i64` range for the
/// given inputs: the two camera-local coordinates and the three world
/// coordinates must each fit.  This is the machine-size precondition of
/// [`compute_world_pos_ortho`].
pub open spec fn world_pos_fits(screen: MousePos, t: Transform, proj: Projection) -> bool {
    &&& in_i64(local_x(screen, proj))
    &&& in_i64(local_y(screen, proj))
    &&& in_i64(world_x(screen, t, proj))
    &&& in_i64(world_y(screen, t, proj))
    &&& in_i64(world_z(screen, t, proj))
}

/// The world position a screen position maps to under a camera's projection
/// and transform.  Meaningful when [`world_pos_fits`] holds.
pub open spec fn world_of(screen: MousePos, t: Transform, proj: Projection) -> MousePosWorld {
    MousePosWorld {
        x: world_x(screen, t, proj) as i64,
        y: world_y(screen, t, proj) as i64,
        z: world_z(screen, t, proj) as i64,
    }
}

/// The product of two values in `i64` range stays well within `i128` range.
proof fn lemma_i64_mul_in_i128(a: int, b: int)
    requires
        i64::MIN <= a <= i64::MAX,
        i64::MIN <= b <= i64::MAX,
    ensures
        -0x4000_0000_0000_0000_0000_0000_0000_0000 <= a * b
            <= 0x4000_0000_0000_0000_0000_0000_0000_0000,
{
    assert(-0x4000_0000_0000_0000_0000_0000_0000_0000 <= a * b
        <= 0x4000_0000_0000_0000_0000_0000_0000_0000) by (nonlinear_arith)
        requires
            -0x8000_0000_0000_0000 <= a <= 0x7fff_ffff_ffff_ffff,
            -0x8000_0000_0000_0000 <= b <= 0x7fff_ffff_ffff_ffff,
    ;
}

/// Converts a screen position to a world position for an orthographic
/// camera: add the projection offset and apply the projection scale in
/// camera-local space, then apply the world transform.
///
/// This is the standalone pure conversion: the per-frame world-position
/// update and the one-shot initialization both go through it, so a freshly
/// initialized camera agrees exactly with the per-frame path.
pub fn compute_world_pos_ortho(screen: MousePos, transform: &Transform, proj: &Projection) -> (r: MousePosWorld)
    requires
        world_pos_fits(screen, *transform, *proj),
    ensures
        r == world_of(screen, *transform, *proj),
{
    let lx_wide: i128 = (screen.x as i128 + proj.left as i128) * (proj.scale as i128);
    let ly_wide: i128 = (screen.y as i128 + proj.bottom as i128) * (proj.scale as i128);
    assert(lx_wide as int == local_x(screen, *proj));
    assert(ly_wide as int == local_y(screen, *proj));
    let lx: i128 = lx_wide;
    let ly: i128 = ly_wide;

    proof {
        lemma_i64_mul_in_i128(transform.m00 as int, lx as int);
        lemma_i64_mul_in_i128(transform.m01 as int, ly as int);
        lemma_i64_mul_in_i128(transform.m10 as int, lx as int);
        lemma_i64_mul_in_i128(transform.m11 as int, ly as int);
        lemma_i64_mul_in_i128(transform.m20 as int, lx as int);
        lemma_i64_mul_in_i128(transform.m21 as int, ly as int);
    }

    let px0: i128 = transform.m00 as i128 * lx;
    let px1: i128 = transform.m01 as i128 * ly;
    let py0: i128 = transform.m10 as i128 * lx;
    let py1: i128 = transform.m11 as i128 * ly;
    let pz0: i128 = transform.m20 as i128 * lx;
    let pz1: i128 = transform.m21 as i128 * ly;

    assert(px0 + px1 + transform.tx == world_x(screen, *transform, *proj));
    assert(py0 + py1 + transform.ty == world_y(screen, *transform, *proj));
    assert(pz0 + pz1 + transform.tz == world_z(screen, *transform, *proj));

    let wx: i128 = px0 + px1 + transform.tx as i128;
    let wy: i128 = py0 + py1 + transform.ty as i128;
    let wz: i128 = pz0 + pz1 + transform.tz as i128;

    MousePosWorld { x: wx as i64, y: wy as i64, z: wz as i64 }
}

/// World position is a pure function of the screen position, the projection
/// offsets and scale, and the world transform: any two results obtained for
/// the same inputs are equal.
pub proof fn lemma_world_pos_deterministic(
    screen: MousePos,
    t: Transform,
    proj: Projection,
    r1: MousePosWorld,
    r2: MousePosWorld,
)
    requires
        r1 == world_of(screen, t, proj),
        r2 == world_of(screen, t, proj),
    ensures
        r1 == r2,
{
}

} // verus!

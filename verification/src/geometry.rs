//! Fixed-point geometry and opacity of layers.
//!
//! Lengths, angles and scale factors are held in millionths of a unit
//! (`FIXED_ONE` is 1.0); opacities in thousandths of a percent
//! (`OPACITY_MAX` is 100 %).

use vstd::prelude::*;

verus! {

/// One unit (pixel, degree or scale factor 1.0) in fixed point.
pub const FIXED_ONE: i64 = 1_000_000;

/// Full opacity (100 %) in thousandths of a percent.
pub const OPACITY_MAX: u32 = 100_000;

/// Opacity at or below which a layer contributes nothing (0.01 %).
pub const OPACITY_INVISIBLE: u32 = 10;

/// Group opacity from which a group counts as fully opaque (99.9 %).
pub const OPACITY_OPAQUE: u32 = 99_900;

/// `a + b`, saturated to the range of `i64`.
pub open spec fn saturated_sum(a: int, b: int) -> int {
    if a + b > i64::MAX {
        i64::MAX as int
    } else if a + b < i64::MIN {
        i64::MIN as int
    } else {
        a + b
    }
}

/// `v` clamped to `0..=OPACITY_MAX`.
pub open spec fn clamped_opacity(v: int) -> u32 {
    if v < 0 {
        0
    } else if v > OPACITY_MAX {
        OPACITY_MAX
    } else {
        v as u32
    }
}

/// Adds two fixed-point values, saturating at the bounds of `i64`.
pub fn saturating_sum(a: i64, b: i64) -> (r: i64)
    ensures
        r == saturated_sum(a as int, b as int),
{
    if b > 0 && a > i64::MAX - b {
        i64::MAX
    } else if b < 0 && a < i64::MIN - b {
        i64::MIN
    } else {
        a + b
    }
}

/// Clamps an opacity request (thousandths of a percent) to `0..=100 %`.
pub fn clamp_opacity(v: i64) -> (r: u32)
    ensures
        r == clamped_opacity(v as int),
        r <= OPACITY_MAX,
{
    if v < 0 {
        0
    } else if v > OPACITY_MAX as i64 {
        OPACITY_MAX
    } else {
        v as u32
    }
}

/// Affine placement of a layer on the canvas: scale, then skew, then
/// rotation about the layer centre, then offset. All fields are fixed
/// point (`FIXED_ONE` = 1.0 pixel, degree or factor).
#[derive(Debug, Clone, Copy, PartialEq, Eq, Structural)]
pub struct Transform2D {
    pub offset_x: i64,
    pub offset_y: i64,
    pub rotation_deg: i64,
    pub scale_x: i64,
    pub scale_y: i64,
    pub skew_x: i64,
    pub skew_y: i64,
}

/// The identity placement: no offset, rotation or skew, scale 1.
pub open spec fn identity_transform() -> Transform2D {
    Transform2D {
        offset_x: 0,
        offset_y: 0,
        rotation_deg: 0,
        scale_x: FIXED_ONE,
        scale_y: FIXED_ONE,
        skew_x: 0,
        skew_y: 0,
    }
}

/// `t` moved by `(dx, dy)`, each offset saturating at the bounds of `i64`.
pub open spec fn translated(t: Transform2D, dx: int, dy: int) -> Transform2D {
    Transform2D {
        offset_x: saturated_sum(t.offset_x as int, dx) as i64,
        offset_y: saturated_sum(t.offset_y as int, dy) as i64,
        ..t
    }
}

impl Transform2D {
    /// The identity placement.
    pub fn identity() -> (t: Transform2D)
        ensures
            t == identity_transform(),
    {
        Transform2D {
            offset_x: 0,
            offset_y: 0,
            rotation_deg: 0,
            scale_x: FIXED_ONE,
            scale_y: FIXED_ONE,
            skew_x: 0,
            skew_y: 0,
        }
    }

    /// Whether the placement shears the layer (the fast one-texture-per-layer
    /// path cannot draw a skew).
    pub fn has_skew(&self) -> (skewed: bool)
        ensures
            skewed == (self.skew_x != 0 || self.skew_y != 0),
    {
        self.skew_x != 0 || self.skew_y != 0
    }

    /// Whether this is the identity placement.
    pub fn is_identity(&self) -> (identity: bool)
        ensures
            identity == (*self == identity_transform()),
    {
        self.offset_x == 0 && self.offset_y == 0 && self.rotation_deg == 0 && self.scale_x
            == FIXED_ONE && self.scale_y == FIXED_ONE && self.skew_x == 0 && self.skew_y == 0
    }

    /// The placement moved by `(dx, dy)` fixed-point pixels.
    pub fn translate(&self, dx: i64, dy: i64) -> (t: Transform2D)
        ensures
            t == translated(*self, dx as int, dy as int),
    {
        Transform2D {
            offset_x: saturating_sum(self.offset_x, dx),
            offset_y: saturating_sum(self.offset_y, dy),
            ..*self
        }
    }
}

} // verus!

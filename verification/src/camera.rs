use vstd::prelude::*;

use vstd::arithmetic::div_mod::lemma_div_is_ordered;
use vstd::arithmetic::div_mod::lemma_div_multiples_vanish;
use vstd::arithmetic::div_mod::lemma_div_of0;
use vstd::arithmetic::div_mod::lemma_div_pos_is_pos;

verus! {

// ---------------------------------------------------------------------------
// Orbit camera, in fixed-point arithmetic.
//
// Camera state and the per-frame ray-marching parameters derived from it
// are kept in signed 16.16 fixed point: a value `v` stands for the real
// number `v / 65536`. Rotation is by precomputed sine/cosine values, also
// in fixed point, handed in by the caller; for any such values the
// contracts below pin the result exactly, and for the axis-aligned
// rotations the arithmetic is exact.
// ---------------------------------------------------------------------------
/// The fixed-point one: 2^16.
pub const FX_ONE: i64 = 65536;

/// Largest camera-location component, in fixed point: 4096 world units.
pub const LOC_LIMIT: i64 = 0x1000_0000;

/// Truncating (round-toward-zero) division of a product by `FX_ONE`.
pub open spec fn trunc_div_fx(p: int) -> int {
    if p >= 0 {
        p / 65536
    } else {
        -((-p) / 65536)
    }
}

/// Fixed-point product: the real product scaled back, truncated toward
/// zero.
pub open spec fn fx_mul_spec(a: int, b: int) -> int {
    trunc_div_fx(a * b)
}

/// Rotation about the x axis by an angle of sine `s` and cosine `c`.
pub open spec fn spec_rotate_x(v: (int, int, int), s: int, c: int) -> (int, int, int) {
    (v.0, fx_mul_spec(c, v.1) - fx_mul_spec(s, v.2), fx_mul_spec(s, v.1) + fx_mul_spec(c, v.2))
}

/// Rotation about the y axis.
pub open spec fn spec_rotate_y(v: (int, int, int), s: int, c: int) -> (int, int, int) {
    (fx_mul_spec(c, v.0) + fx_mul_spec(s, v.2), v.1, fx_mul_spec(c, v.2) - fx_mul_spec(s, v.0))
}

/// Rotation about the z axis.
pub open spec fn spec_rotate_z(v: (int, int, int), s: int, c: int) -> (int, int, int) {
    (fx_mul_spec(c, v.0) - fx_mul_spec(s, v.1), fx_mul_spec(s, v.0) + fx_mul_spec(c, v.1), v.2)
}

/// The orbit rotation: x, then y, then z, each from its own sine/cosine
/// pair.
pub open spec fn spec_rotate_xyz(
    v: (int, int, int),
    sx: int,
    cx: int,
    sy: int,
    cy: int,
    sz: int,
    cz: int,
) -> (int, int, int) {
    spec_rotate_z(spec_rotate_y(spec_rotate_x(v, sx, cx), sy, cy), sz, cz)
}

// ---------------------------------------------------------------------------
// Lemmas about the fixed-point arithmetic.
// ---------------------------------------------------------------------------
/// Truncating a product bounded by `65536 * m` keeps it within `m`.
proof fn lemma_trunc_div_bound(p: int, m: int)
    requires
        0 <= m,
        -65536 * m <= p <= 65536 * m,
    ensures
        -m <= trunc_div_fx(p) <= m,
{
    if p >= 0 {
        lemma_div_pos_is_pos(p, 65536);
        lemma_div_is_ordered(p, 65536 * m, 65536);
        lemma_div_multiples_vanish(m, 65536);
    } else {
        lemma_div_pos_is_pos(-p, 65536);
        lemma_div_is_ordered(-p, 65536 * m, 65536);
        lemma_div_multiples_vanish(m, 65536);
    }
}

/// Scaling by a unit-bounded fixed-point factor never grows a value.
pub proof fn lemma_fx_mul_unit_bound(a: int, b: int, m: int)
    requires
        0 <= m,
        -65536 <= a <= 65536,
        -m <= b <= m,
    ensures
        -m <= fx_mul_spec(a, b) <= m,
{
    assert(-65536 * m <= a * b <= 65536 * m) by (nonlinear_arith)
        requires
            -65536 <= a <= 65536,
            -m <= b <= m,
            0 <= m,
    ;
    lemma_trunc_div_bound(a * b, m);
}

/// Multiplying by the fixed-point one is exact.
pub proof fn lemma_fx_one_mul(t: int)
    ensures
        fx_mul_spec(65536, t) == t,
{
    if t >= 0 {
        lemma_div_multiples_vanish(t, 65536);
    } else {
        assert(-(65536 * t) == 65536 * (-t));
        lemma_div_multiples_vanish(-t, 65536);
    }
}

/// Multiplying by a zero factor gives zero.
pub proof fn lemma_fx_zero_mul(t: int)
    ensures
        fx_mul_spec(0, t) == 0,
{
    lemma_div_of0(65536);
}

/// Rotating by the identity angles (sine 0, cosine 1) about all three
/// axes leaves every vector unchanged.
pub proof fn lemma_identity_rotation(v: (int, int, int))
    ensures
        spec_rotate_xyz(v, 0, 65536, 0, 65536, 0, 65536) == v,
{
    lemma_fx_one_mul(v.0);
    lemma_fx_one_mul(v.1);
    lemma_fx_one_mul(v.2);
    lemma_fx_zero_mul(v.0);
    lemma_fx_zero_mul(v.1);
    lemma_fx_zero_mul(v.2);
}

// ---------------------------------------------------------------------------
// Executable fixed-point vectors and rotation.
// ---------------------------------------------------------------------------
/// A 3-D vector in 16.16 fixed point.
#[derive(Clone, Copy, Debug, PartialEq, Eq, Structural)]
pub struct Vec3 {
    pub x: i64,
    pub y: i64,
    pub z: i64,
}

/// The mathematical triple a fixed-point vector stands for.
pub open spec fn vec3_model(v: Vec3) -> (int, int, int) {
    (v.x as int, v.y as int, v.z as int)
}

impl Vec3 {
    /// All components within `[-m, m]`.
    pub open spec fn bounded(&self, m: int) -> bool {
        -m <= self.x <= m && -m <= self.y <= m && -m <= self.z <= m
    }
}

/// Fixed-point multiplication, truncating toward zero, for a unit-bounded
/// left factor.
fn fx_mul(a: i64, b: i64) -> (r: i64)
    requires
        -65536 <= a <= 65536,
        -0x2000_0000_0000 <= b <= 0x2000_0000_0000,
    ensures
        r == fx_mul_spec(a as int, b as int),
        -0x2000_0000_0000 <= r <= 0x2000_0000_0000,
{
    proof {
        assert(-0x2000_0000_0000_0000 <= a as int * b as int <= 0x2000_0000_0000_0000)
            by (nonlinear_arith)
            requires
                -65536 <= a <= 65536,
                -0x2000_0000_0000 <= b <= 0x2000_0000_0000,
        ;
        lemma_fx_mul_unit_bound(a as int, b as int, 0x2000_0000_0000);
    }
    let p: i64 = a * b;
    if p >= 0 {
        proof {
            lemma_div_pos_is_pos(p as int, 65536);
            lemma_div_is_ordered(p as int, 0x2000_0000_0000_0000, 65536);
        }
        ((p as u64) / 65536) as i64
    } else {
        proof {
            lemma_div_pos_is_pos(-(p as int), 65536);
            lemma_div_is_ordered(-(p as int), 0x2000_0000_0000_0000, 65536);
        }
        -(((-p) as u64 / 65536) as i64)
    }
}

/// Rotates `v` about the x axis.
fn rotate_x(v: Vec3, s: i64, c: i64) -> (r: Vec3)
    requires
        -65536 <= s <= 65536,
        -65536 <= c <= 65536,
        v.bounded(0x1000_0000_0000),
    ensures
        vec3_model(r) == spec_rotate_x(vec3_model(v), s as int, c as int),
{
    Vec3 { x: v.x, y: fx_mul(c, v.y) - fx_mul(s, v.z), z: fx_mul(s, v.y) + fx_mul(c, v.z) }
}

/// Rotates `v` about the y axis.
fn rotate_y(v: Vec3, s: i64, c: i64) -> (r: Vec3)
    requires
        -65536 <= s <= 65536,
        -65536 <= c <= 65536,
        v.bounded(0x1000_0000_0000),
    ensures
        vec3_model(r) == spec_rotate_y(vec3_model(v), s as int, c as int),
{
    Vec3 { x: fx_mul(c, v.x) + fx_mul(s, v.z), y: v.y, z: fx_mul(c, v.z) - fx_mul(s, v.x) }
}

/// Rotates `v` about the z axis.
fn rotate_z(v: Vec3, s: i64, c: i64) -> (r: Vec3)
    requires
        -65536 <= s <= 65536,
        -65536 <= c <= 65536,
        v.bounded(0x1000_0000_0000),
    ensures
        vec3_model(r) == spec_rotate_z(vec3_model(v), s as int, c as int),
{
    Vec3 { x: fx_mul(c, v.x) - fx_mul(s, v.y), y: fx_mul(s, v.x) + fx_mul(c, v.y), z: v.z }
}

/// Precomputed sines and cosines of the camera's three Euler angles, in
/// fixed point. Any unit-bounded values are accepted; the rotation
/// contracts hold for every choice.
#[derive(Clone, Copy, Debug, PartialEq, Eq, Structural)]
pub struct RotationTrig {
    pub sin_x: i64,
    pub cos_x: i64,
    pub sin_y: i64,
    pub cos_y: i64,
    pub sin_z: i64,
    pub cos_z: i64,
}

impl RotationTrig {
    /// Sines and cosines are unit-bounded.
    pub open spec fn wf(&self) -> bool {
        &&& -65536 <= self.sin_x <= 65536
        &&& -65536 <= self.cos_x <= 65536
        &&& -65536 <= self.sin_y <= 65536
        &&& -65536 <= self.cos_y <= 65536
        &&& -65536 <= self.sin_z <= 65536
        &&& -65536 <= self.cos_z <= 65536
    }

    /// The identity rotation: sine 0, cosine 1 about every axis.
    pub fn identity() -> (r: RotationTrig)
        ensures
            r == (RotationTrig {
                sin_x: 0,
                cos_x: FX_ONE,
                sin_y: 0,
                cos_y: FX_ONE,
                sin_z: 0,
                cos_z: FX_ONE,
            }),
            r.wf(),
    {
        RotationTrig { sin_x: 0, cos_x: FX_ONE, sin_y: 0, cos_y: FX_ONE, sin_z: 0, cos_z: FX_ONE }
    }
}

/// Applies the orbit rotation, x then y then z, to a location-sized
/// vector.
fn rotate_euler(v: Vec3, trig: &RotationTrig) -> (r: Vec3)
    requires
        trig.wf(),
        v.bounded(LOC_LIMIT as int),
    ensures
        vec3_model(r) == spec_rotate_xyz(
            vec3_model(v),
            trig.sin_x as int,
            trig.cos_x as int,
            trig.sin_y as int,
            trig.cos_y as int,
            trig.sin_z as int,
            trig.cos_z as int,
        ),
{
    let r1 = rotate_x(v, trig.sin_x, trig.cos_x);
    proof {
        lemma_fx_mul_unit_bound(trig.cos_x as int, v.y as int, 0x1000_0000);
        lemma_fx_mul_unit_bound(trig.sin_x as int, v.z as int, 0x1000_0000);
        lemma_fx_mul_unit_bound(trig.sin_x as int, v.y as int, 0x1000_0000);
        lemma_fx_mul_unit_bound(trig.cos_x as int, v.z as int, 0x1000_0000);
        assert(r1.bounded(0x2000_0000));
    }
    let r2 = rotate_y(r1, trig.sin_y, trig.cos_y);
    proof {
        lemma_fx_mul_unit_bound(trig.cos_y as int, r1.x as int, 0x2000_0000);
        lemma_fx_mul_unit_bound(trig.sin_y as int, r1.z as int, 0x2000_0000);
        lemma_fx_mul_unit_bound(trig.sin_y as int, r1.x as int, 0x2000_0000);
        lemma_fx_mul_unit_bound(trig.cos_y as int, r1.z as int, 0x2000_0000);
        assert(r2.bounded(0x4000_0000));
    }
    rotate_z(r2, trig.sin_z, trig.cos_z)
}

// ---------------------------------------------------------------------------
// Camera state and the per-frame uniforms.
// ---------------------------------------------------------------------------
/// Orbit-camera state: a pre-rotation offset from the origin, Euler
/// rotation angles in degrees (16.16 fixed point, only ever handed to the
/// caller's trigonometry), and the viewport's aspect ratio.
#[derive(Clone, Copy, Debug, PartialEq, Eq, Structural)]
pub struct Camera {
    pub location: Vec3,
    pub rotation: Vec3,
    pub aspect_ratio: i64,
}

impl Camera {
    /// The location stays within the orbit range and the aspect ratio is
    /// positive.
    pub open spec fn wf(&self) -> bool {
        self.location.bounded(LOC_LIMIT as int) && self.aspect_ratio > 0
    }

    /// A camera at the given offset and angles.
    pub fn new(location: Vec3, rotation: Vec3, aspect_ratio: i64) -> (camera: Camera)
        requires
            location.bounded(LOC_LIMIT as int),
            aspect_ratio > 0,
        ensures
            camera == (Camera { location, rotation, aspect_ratio }),
            camera.wf(),
    {
        Camera { location, rotation, aspect_ratio }
    }

    /// The camera's world position: its location offset taken through the
    /// orbit rotation.
    pub fn position(&self, trig: &RotationTrig) -> (r: Vec3)
        requires
            self.wf(),
            trig.wf(),
        ensures
            vec3_model(r) == spec_rotate_xyz(
                vec3_model(self.location),
                trig.sin_x as int,
                trig.cos_x as int,
                trig.sin_y as int,
                trig.cos_y as int,
                trig.sin_z as int,
                trig.cos_z as int,
            ),
    {
        rotate_euler(self.location, trig)
    }

    /// The camera's up vector: the canonical up taken through the same
    /// rotation, so that look-at stays well defined.
    pub fn up(&self, trig: &RotationTrig) -> (r: Vec3)
        requires
            self.wf(),
            trig.wf(),
        ensures
            vec3_model(r) == spec_rotate_xyz(
                (0, FX_ONE as int, 0),
                trig.sin_x as int,
                trig.cos_x as int,
                trig.sin_y as int,
                trig.cos_y as int,
                trig.sin_z as int,
                trig.cos_z as int,
            ),
    {
        rotate_euler(Vec3 { x: 0, y: FX_ONE, z: 0 }, trig)
    }

    /// One zoom step: the scroll gesture's factor, less one, is added to
    /// the location's z component, exactly as the orbit control does.
    pub fn zoom(&mut self, zoom_delta: i64)
        requires
            old(self).wf(),
            -0x4000_0000 <= zoom_delta <= 0x4000_0000,
            -LOC_LIMIT <= old(self).location.z + (zoom_delta - FX_ONE) <= LOC_LIMIT,
        ensures
            final(self).location.z == old(self).location.z + (zoom_delta - FX_ONE),
            final(self).location.x == old(self).location.x,
            final(self).location.y == old(self).location.y,
            final(self).rotation == old(self).rotation,
            final(self).aspect_ratio == old(self).aspect_ratio,
            final(self).wf(),
    {
        self.location.z = self.location.z + (zoom_delta - FX_ONE);
    }

    /// Viewport resize: only the aspect ratio changes.
    pub fn set_aspect_ratio(&mut self, aspect_ratio: i64)
        requires
            old(self).wf(),
            aspect_ratio > 0,
        ensures
            final(self).location == old(self).location,
            final(self).rotation == old(self).rotation,
            final(self).aspect_ratio == aspect_ratio,
            final(self).wf(),
    {
        self.aspect_ratio = aspect_ratio;
    }

    /// Derives the per-frame uniform values: the rotated camera position
    /// and up vector, and the windowing thresholds put in order (a
    /// reversed pair is clamped, not an error).
    pub fn calculate_uniforms(
        &self,
        trig: &RotationTrig,
        lower_threshold: u8,
        upper_threshold: u8,
    ) -> (uniforms: Uniforms)
        requires
            self.wf(),
            trig.wf(),
        ensures
            vec3_model(uniforms.cam_pos) == spec_rotate_xyz(
                vec3_model(self.location),
                trig.sin_x as int,
                trig.cos_x as int,
                trig.sin_y as int,
                trig.cos_y as int,
                trig.sin_z as int,
                trig.cos_z as int,
            ),
            vec3_model(uniforms.up) == spec_rotate_xyz(
                (0, FX_ONE as int, 0),
                trig.sin_x as int,
                trig.cos_x as int,
                trig.sin_y as int,
                trig.cos_y as int,
                trig.sin_z as int,
                trig.cos_z as int,
            ),
            uniforms.lower_threshold == if lower_threshold <= upper_threshold {
                lower_threshold
            } else {
                upper_threshold
            },
            uniforms.upper_threshold == if lower_threshold <= upper_threshold {
                upper_threshold
            } else {
                lower_threshold
            },
            uniforms.lower_threshold <= uniforms.upper_threshold,
    {
        let cam_pos = self.position(trig);
        let up = self.up(trig);
        let (lower, upper) = if lower_threshold <= upper_threshold {
            (lower_threshold, upper_threshold)
        } else {
            (upper_threshold, lower_threshold)
        };
        Uniforms { cam_pos, up, lower_threshold: lower, upper_threshold: upper }
    }
}

/// The per-frame values handed to the renderer, as far as they are exact:
/// the rotated camera position and up vector (the look-at target is the
/// origin and the model transform is the identity) and the ordered
/// windowing thresholds.
#[derive(Clone, Copy, Debug, PartialEq, Eq, Structural)]
pub struct Uniforms {
    pub cam_pos: Vec3,
    pub up: Vec3,
    pub lower_threshold: u8,
    pub upper_threshold: u8,
}

} // verus!

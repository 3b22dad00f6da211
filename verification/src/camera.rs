//! The camera model: where the eye stands at a frame, which way it looks,
//! and the direction of the ray through each pixel.

use vstd::prelude::*;
use crate::fixed::{
    div_floor_wide, is_sqrt_floor, isqrt, lemma_sqrt_floor_exists, lemma_wrapped_periodic,
    sqrt_floor, wrap, wrapped, UNIT,
};

verus! {

/// Fixed-point steps that the eye advances per frame: 0.005 of a unit.
pub const DOLLY_STEP: i64 = 243_000;

/// Frames after which the eye has advanced by a whole unit.
pub const DOLLY_PERIOD: u64 = 200;

/// A vector of mathematical integers, the model of [`Vec3`].
pub struct SpaceVec {
    pub x: int,
    pub y: int,
    pub z: int,
}

/// A vector or point of fixed-point coordinates.
#[derive(Clone, Copy, Debug, PartialEq, Eq, Structural)]
pub struct Vec3 {
    pub x: i64,
    pub y: i64,
    pub z: i64,
}

impl View for Vec3 {
    type V = SpaceVec;

    open spec fn view(&self) -> SpaceVec {
        SpaceVec { x: self.x as int, y: self.y as int, z: self.z as int }
    }
}

impl SpaceVec {
    /// Componentwise sum.
    pub open spec fn plus(self, other: SpaceVec) -> SpaceVec {
        SpaceVec { x: self.x + other.x, y: self.y + other.y, z: self.z + other.z }
    }

    /// The vector times the fixed-point factor `f`, each component rounded
    /// down.
    pub open spec fn scaled(self, f: int) -> SpaceVec {
        SpaceVec {
            x: (self.x * f) / (UNIT as int),
            y: (self.y * f) / (UNIT as int),
            z: (self.z * f) / (UNIT as int),
        }
    }

    /// Dot product, in squared steps.
    pub open spec fn dot(self, other: SpaceVec) -> int {
        self.x * other.x + self.y * other.y + self.z * other.z
    }

    /// Squared length, in squared steps.
    pub open spec fn length_squared(self) -> int {
        self.x * self.x + self.y * self.y + self.z * self.z
    }

    /// Length in steps, rounded down.
    pub open spec fn length(self) -> int {
        sqrt_floor(self.length_squared())
    }

    /// The vector rescaled to length one unit, each component rounded down.
    /// A vector shorter than one step has no direction and is left as it is.
    pub open spec fn normalized(self) -> SpaceVec {
        let len: int = self.length();
        if len == 0 {
            self
        } else {
            SpaceVec {
                x: (self.x * UNIT) / len,
                y: (self.y * UNIT) / len,
                z: (self.z * UNIT) / len,
            }
        }
    }

    /// The vector turned about the vertical axis by the angle whose cosine
    /// and sine are `cos` and `sin`, in fixed point.
    pub open spec fn rotated_y(self, cos: int, sin: int) -> SpaceVec {
        SpaceVec {
            x: (cos * self.x + sin * self.z) / (UNIT as int),
            y: self.y,
            z: (cos * self.z - sin * self.x) / (UNIT as int),
        }
    }

    /// Every component fits a 64-bit signed integer.
    pub open spec fn fits(self) -> bool {
        &&& i64::MIN <= self.x <= i64::MAX
        &&& i64::MIN <= self.y <= i64::MAX
        &&& i64::MIN <= self.z <= i64::MAX
    }

    /// Every component lies within `bound` of zero.
    pub open spec fn within(self, bound: int) -> bool {
        &&& -bound <= self.x <= bound
        &&& -bound <= self.y <= bound
        &&& -bound <= self.z <= bound
    }
}

/// The canonical forward axis: into the screen.
pub open spec fn forward_axis() -> SpaceVec {
    SpaceVec { x: 0, y: 0, z: -(UNIT as int) }
}

/// The canonical right axis.
pub open spec fn right_axis() -> SpaceVec {
    SpaceVec { x: UNIT as int, y: 0, z: 0 }
}

/// The canonical down axis.
pub open spec fn down_axis() -> SpaceVec {
    SpaceVec { x: 0, y: -(UNIT as int), z: 0 }
}

/// Normalized device coordinate of pixel `i` of `n` along one axis:
/// `2 i / n - 1` in fixed point, from `-UNIT` up to but not including `UNIT`.
pub open spec fn device_coordinate(i: int, n: int) -> int {
    (2 * i * UNIT) / n - UNIT
}

/// How far the squares of a heading's cosine and sine may add up from the
/// square of the unit: enough for either part to be some steps off after
/// rounding.
pub const HEADING_SLACK: i64 = 777_600_000;

/// `cos` and `sin` are the cosine and sine of an angle, in fixed point: each
/// within one unit of zero, and together of length one unit up to rounding.
pub open spec fn is_unit_heading(cos: int, sin: int) -> bool {
    &&& -UNIT <= cos <= UNIT
    &&& -UNIT <= sin <= UNIT
    &&& UNIT * UNIT - HEADING_SLACK <= cos * cos + sin * sin <= UNIT * UNIT + HEADING_SLACK
}

/// A heading is never the null pair.
pub proof fn lemma_unit_heading_nonzero(cos: int, sin: int)
    requires
        is_unit_heading(cos, sin),
    ensures
        cos != 0 || sin != 0,
{
    assert(UNIT * UNIT - HEADING_SLACK > 0) by (nonlinear_arith)
        requires
            UNIT == 48_600_000,
            HEADING_SLACK == 777_600_000,
    ;
    if cos == 0 && sin == 0 {
        assert(cos * cos + sin * sin == 0) by (nonlinear_arith)
            requires
                cos == 0,
                sin == 0,
        ;
    }
}

/// The cosine and sine of the camera's angle about the vertical axis, in
/// fixed point.
#[derive(Clone, Copy, Debug)]
pub struct Heading {
    cos: i64,
    sin: i64,
}

impl Heading {
    /// The cosine, in steps.
    pub closed spec fn cos_steps(self) -> int {
        self.cos as int
    }

    /// The sine, in steps.
    pub closed spec fn sin_steps(self) -> int {
        self.sin as int
    }

    /// The parts are the cosine and sine of an angle.
    pub open spec fn wf(self) -> bool {
        is_unit_heading(self.cos_steps(), self.sin_steps())
    }

    #[verifier::type_invariant]
    closed spec fn inv(self) -> bool {
        self.wf()
    }

    /// A heading from the cosine and sine of its angle.  Refused unless the
    /// two are of length one unit up to rounding.
    pub fn new(cos: i64, sin: i64) -> (heading: Option<Heading>)
        ensures
            heading.is_some() <==> is_unit_heading(cos as int, sin as int),
            heading matches Some(h) ==> h.cos_steps() == cos && h.sin_steps() == sin && h.wf(),
    {
        if -UNIT <= cos && cos <= UNIT && -UNIT <= sin && sin <= UNIT {
            proof {
                lemma_product_bound(cos as int, cos as int, 48_600_000, 48_600_000);
                lemma_product_bound(sin as int, sin as int, 48_600_000, 48_600_000);
                assert(UNIT * UNIT == 2_361_960_000_000_000) by (nonlinear_arith)
                    requires
                        UNIT == 48_600_000,
                ;
            }
            let squared: i64 = cos * cos + sin * sin;
            if 2_361_960_000_000_000 - HEADING_SLACK <= squared && squared
                <= 2_361_960_000_000_000 + HEADING_SLACK {
                Some(Heading { cos, sin })
            } else {
                None
            }
        } else {
            None
        }
    }

    /// The heading of angle zero.
    pub fn ahead() -> (heading: Heading)
        ensures
            heading.cos_steps() == UNIT,
            heading.sin_steps() == 0,
            heading.wf(),
    {
        proof {
            assert(UNIT * UNIT + 0 * 0 == UNIT * UNIT) by (nonlinear_arith);
        }
        Heading { cos: UNIT, sin: 0 }
    }

    /// The cosine, in steps.
    pub fn cos(&self) -> (c: i64)
        ensures
            c == self.cos_steps(),
            -UNIT <= c <= UNIT,
            self.wf(),
    {
        proof {
            use_type_invariant(self);
        }
        self.cos
    }

    /// The sine, in steps.
    pub fn sin(&self) -> (s: i64)
        ensures
            s == self.sin_steps(),
            -UNIT <= s <= UNIT,
    {
        proof {
            use_type_invariant(self);
        }
        self.sin
    }
}

impl Vec3 {
    /// Componentwise sum.
    pub fn plus(self, other: Vec3) -> (sum: Vec3)
        requires
            self@.plus(other@).fits(),
        ensures
            sum@ == self@.plus(other@),
    {
        Vec3 { x: self.x + other.x, y: self.y + other.y, z: self.z + other.z }
    }

    /// The vector times a fixed-point factor.
    pub fn scaled(self, f: i64) -> (product: Vec3)
        requires
            self@.scaled(f as int).fits(),
        ensures
            product@ == self@.scaled(f as int),
    {
        Vec3 {
            x: scale_component(self.x, f),
            y: scale_component(self.y, f),
            z: scale_component(self.z, f),
        }
    }

    /// The vector turned about the vertical axis.
    pub fn rotated_y(self, heading: Heading) -> (turned: Vec3)
        requires
            self@.rotated_y(heading.cos_steps(), heading.sin_steps()).fits(),
        ensures
            turned@ == self@.rotated_y(heading.cos_steps(), heading.sin_steps()),
    {
        let c: i128 = heading.cos() as i128;
        let s: i128 = heading.sin() as i128;
        let x: i128 = self.x as i128;
        let z: i128 = self.z as i128;
        proof {
            lemma_product_bound(c as int, x as int, 48_600_000, 0x8000_0000_0000_0000);
            lemma_product_bound(s as int, z as int, 48_600_000, 0x8000_0000_0000_0000);
            lemma_product_bound(c as int, z as int, 48_600_000, 0x8000_0000_0000_0000);
            lemma_product_bound(s as int, x as int, 48_600_000, 0x8000_0000_0000_0000);
        }
        Vec3 {
            x: div_floor_wide(c * x + s * z, UNIT as i128) as i64,
            y: self.y,
            z: div_floor_wide(c * z - s * x, UNIT as i128) as i64,
        }
    }

    /// The vector rescaled to length one unit.
    pub fn normalized(self) -> (unit: Vec3)
        ensures
            unit@ == self@.normalized(),
            self@.length() > 0 ==> unit@.within(UNIT as int),
    {
        let x: i128 = self.x as i128;
        let y: i128 = self.y as i128;
        let z: i128 = self.z as i128;
        proof {
            lemma_product_bound(x as int, x as int, 0x8000_0000_0000_0000, 0x8000_0000_0000_0000);
            lemma_product_bound(y as int, y as int, 0x8000_0000_0000_0000, 0x8000_0000_0000_0000);
            lemma_product_bound(z as int, z as int, 0x8000_0000_0000_0000, 0x8000_0000_0000_0000);
            assert(x * x >= 0 && y * y >= 0 && z * z >= 0) by (nonlinear_arith);
        }
        let squared: u128 = (x * x) as u128 + (y * y) as u128 + (z * z) as u128;
        let len: i128 = isqrt(squared) as i128;
        if len == 0 {
            self
        } else {
            proof {
                lemma_component_below_length(x as int, y as int, z as int, len as int);
                lemma_component_below_length(y as int, z as int, x as int, len as int);
                lemma_component_below_length(z as int, x as int, y as int, len as int);
                lemma_unit_quotient(x as int, len as int);
                lemma_unit_quotient(y as int, len as int);
                lemma_unit_quotient(z as int, len as int);
                lemma_product_bound(x as int, UNIT as int, 0x8000_0000_0000_0000, 48_600_000);
                lemma_product_bound(y as int, UNIT as int, 0x8000_0000_0000_0000, 48_600_000);
                lemma_product_bound(z as int, UNIT as int, 0x8000_0000_0000_0000, 48_600_000);
            }
            Vec3 {
                x: div_floor_wide(x * (UNIT as i128), len) as i64,
                y: div_floor_wide(y * (UNIT as i128), len) as i64,
                z: div_floor_wide(z * (UNIT as i128), len) as i64,
            }
        }
    }
}

/// One component times a fixed-point factor, rounded down.
fn scale_component(c: i64, f: i64) -> (r: i64)
    requires
        i64::MIN <= (c * f) / (UNIT as int) <= i64::MAX,
    ensures
        r == (c * f) / (UNIT as int),
{
    proof {
        lemma_product_bound(c as int, f as int, 0x8000_0000_0000_0000, 0x8000_0000_0000_0000);
    }
    div_floor_wide((c as i128) * (f as i128), UNIT as i128) as i64
}

/// A vector within one unit, scaled by a factor within one unit, stays
/// within one unit.
pub proof fn lemma_scaled_within(v: SpaceVec, f: int)
    requires
        v.within(UNIT as int),
        -UNIT <= f <= UNIT,
    ensures
        v.scaled(f).within(UNIT as int),
{
    lemma_product_bound(v.x, f, 48_600_000, 48_600_000);
    lemma_product_bound(v.y, f, 48_600_000, 48_600_000);
    lemma_product_bound(v.z, f, 48_600_000, 48_600_000);
}

/// A product is bounded by the product of the bounds of its factors.
proof fn lemma_product_bound(a: int, b: int, bound_a: int, bound_b: int)
    requires
        -bound_a <= a <= bound_a,
        -bound_b <= b <= bound_b,
    ensures
        -(bound_a * bound_b) <= a * b <= bound_a * bound_b,
{
    assert(-(bound_a * bound_b) <= a * b <= bound_a * bound_b) by (nonlinear_arith)
        requires
            -bound_a <= a <= bound_a,
            -bound_b <= b <= bound_b,
    ;
}

/// No component of a vector is longer than the vector.
proof fn lemma_component_below_length(a: int, b: int, c: int, len: int)
    requires
        is_sqrt_floor(a * a + b * b + c * c, len),
    ensures
        -len <= a <= len,
{
    assert(-len <= a <= len) by (nonlinear_arith)
        requires
            0 <= len,
            a * a + b * b + c * c < (len + 1) * (len + 1),
    ;
}

/// A component rescaled by the length of its vector is at most one unit.
proof fn lemma_unit_quotient(a: int, len: int)
    requires
        0 < len,
        -len <= a <= len,
    ensures
        -UNIT <= (a * UNIT) / len <= UNIT,
{
    assert(-UNIT <= (a * UNIT) / len <= UNIT) by (nonlinear_arith)
        requires
            0 < len,
            -len <= a <= len,
    ;
}

/// The model of a [`Camera`]: the eye and its three basis vectors.
pub struct CameraModel {
    pub origin: SpaceVec,
    pub forward: SpaceVec,
    pub right: SpaceVec,
    pub down: SpaceVec,
}

impl CameraModel {
    /// Cosine of the angle by which the basis is turned.
    pub open spec fn cos(self) -> int {
        self.right.x
    }

    /// Sine of the angle by which the basis is turned.
    pub open spec fn sin(self) -> int {
        -self.right.z
    }

    /// The eye lies in the unit cube, and the basis is the canonical one
    /// turned about the vertical axis by some heading.
    pub open spec fn wf(self) -> bool {
        &&& 0 <= self.origin.x < UNIT
        &&& 0 <= self.origin.y < UNIT
        &&& 0 <= self.origin.z < UNIT
        &&& is_unit_heading(self.cos(), self.sin())
        &&& self.right == (SpaceVec { x: self.cos(), y: 0, z: -self.sin() })
        &&& self.forward == (SpaceVec { x: -self.sin(), y: 0, z: -self.cos() })
        &&& self.down == (SpaceVec { x: 0, y: -(UNIT as int), z: 0 })
    }

    /// The vector from the eye to the point of the image plane that pixel
    /// `(x, y)` of a `width` by `height` image looks through.
    pub open spec fn pixel_offset(self, x: int, y: int, width: int, height: int) -> SpaceVec {
        self.right.scaled(device_coordinate(x, width)).plus(
            self.down.scaled(device_coordinate(y, height)),
        ).plus(self.forward)
    }

    /// Direction of the ray through pixel `(x, y)`, of length one unit.
    pub open spec fn pixel_direction(self, x: int, y: int, width: int, height: int) -> SpaceVec {
        self.pixel_offset(x, y, width, height).normalized()
    }
}

/// The camera of frame `frame`, for the heading with the given cosine and
/// sine.  The eye starts at the centre of the unit cube and advances along
/// the canonical forward axis by `DOLLY_STEP` per frame, wrapped into the
/// cube; the basis is the canonical one turned about the vertical axis.
pub open spec fn camera_at(frame: int, cos: int, sin: int) -> CameraModel {
    CameraModel {
        origin: SpaceVec {
            x: UNIT as int / 2,
            y: UNIT as int / 2,
            z: wrapped(UNIT as int / 2 - frame * DOLLY_STEP),
        },
        forward: forward_axis().rotated_y(cos, sin),
        right: right_axis().rotated_y(cos, sin),
        down: down_axis().rotated_y(cos, sin),
    }
}

/// Turning the canonical axes needs no rounding: the basis is read off the
/// cosine and sine.
pub proof fn lemma_camera_basis(frame: int, cos: int, sin: int)
    ensures
        camera_at(frame, cos, sin).forward == (SpaceVec { x: -sin, y: 0, z: -cos }),
        camera_at(frame, cos, sin).right == (SpaceVec { x: cos, y: 0, z: -sin }),
        camera_at(frame, cos, sin).down == (SpaceVec { x: 0, y: -(UNIT as int), z: 0 }),
{
    assert((cos * 0 + sin * (-(UNIT as int))) / (UNIT as int) == -sin) by (nonlinear_arith);
    assert((cos * (-(UNIT as int)) - sin * 0) / (UNIT as int) == -cos) by (nonlinear_arith);
    assert((cos * (UNIT as int) + sin * 0) / (UNIT as int) == cos) by (nonlinear_arith);
    assert((cos * 0 - sin * (UNIT as int)) / (UNIT as int) == -sin) by (nonlinear_arith);
    assert((cos * 0 + sin * 0) / (UNIT as int) == 0) by (nonlinear_arith);
    assert((cos * 0 - sin * 0) / (UNIT as int) == 0) by (nonlinear_arith);
}

/// The eye returns to where it was every `DOLLY_PERIOD` frames: under the
/// same heading the camera is the same.
pub proof fn lemma_camera_repeats(frame: int, cos: int, sin: int)
    ensures
        camera_at(frame + DOLLY_PERIOD, cos, sin) == camera_at(frame, cos, sin),
{
    assert((frame + DOLLY_PERIOD) * DOLLY_STEP == frame * DOLLY_STEP + UNIT) by (nonlinear_arith)
        requires
            DOLLY_PERIOD == 200,
            DOLLY_STEP == 243_000,
            UNIT == 48_600_000,
    ;
    lemma_wrapped_periodic(UNIT as int / 2 - (frame + DOLLY_PERIOD) * DOLLY_STEP, 1);
}

/// The camera of a frame is well formed under any heading.
pub proof fn lemma_camera_at_wf(frame: int, cos: int, sin: int)
    requires
        is_unit_heading(cos, sin),
    ensures
        camera_at(frame, cos, sin).wf(),
        camera_at(frame, cos, sin).cos() == cos,
        camera_at(frame, cos, sin).sin() == sin,
{
    lemma_camera_basis(frame, cos, sin);
}

/// The basis of a camera is orthonormal: its vectors are perpendicular to
/// each other and one unit long, the two turned ones up to the rounding of
/// the heading.
pub proof fn lemma_basis_is_orthonormal(camera: CameraModel)
    requires
        camera.wf(),
    ensures
        camera.forward.dot(camera.right) == 0,
        camera.forward.dot(camera.down) == 0,
        camera.right.dot(camera.down) == 0,
        camera.down.length_squared() == UNIT * UNIT,
        UNIT * UNIT - HEADING_SLACK <= camera.forward.length_squared() <= UNIT * UNIT
            + HEADING_SLACK,
        UNIT * UNIT - HEADING_SLACK <= camera.right.length_squared() <= UNIT * UNIT
            + HEADING_SLACK,
{
    let c: int = camera.cos();
    let s: int = camera.sin();
    assert((-s) * c + 0 * 0 + (-c) * (-s) == 0) by (nonlinear_arith);
    assert((-s) * 0 + 0 * (-(UNIT as int)) + (-c) * 0 == 0) by (nonlinear_arith);
    assert(c * 0 + 0 * (-(UNIT as int)) + (-s) * 0 == 0) by (nonlinear_arith);
    assert(0 * 0 + (-(UNIT as int)) * (-(UNIT as int)) + 0 * 0 == UNIT * UNIT) by (nonlinear_arith);
    assert((-s) * (-s) + 0 * 0 + (-c) * (-c) == c * c + s * s) by (nonlinear_arith);
    assert(c * c + 0 * 0 + (-s) * (-s) == c * c + s * s) by (nonlinear_arith);
}

/// Every pixel has a ray: the vector from the eye to a pixel is at least
/// one step long, so that its direction is that vector rescaled to one unit,
/// and no component of the direction exceeds one unit.
pub proof fn lemma_pixel_offset_nonzero(
    camera: CameraModel,
    x: int,
    y: int,
    width: int,
    height: int,
)
    requires
        camera.wf(),
        0 <= x < width,
        0 <= y < height,
    ensures
        camera.pixel_offset(x, y, width, height).length() > 0,
        camera.pixel_direction(x, y, width, height).within(UNIT as int),
{
    let cos: int = camera.cos();
    let sin: int = camera.sin();
    let offset = camera.pixel_offset(x, y, width, height);
    let fx: int = device_coordinate(x, width);
    let fy: int = device_coordinate(y, height);
    lemma_unit_heading_nonzero(cos, sin);
    lemma_device_range(x, width);
    let p: int = cos * fx;
    let q: int = sin * fx;
    lemma_product_bound(cos, fx, if cos >= 0 { cos } else { -cos }, UNIT as int);
    lemma_product_bound(sin, fx, if sin >= 0 { sin } else { -sin }, UNIT as int);
    assert((-sin) * fx == -q) by (nonlinear_arith)
        requires
            q == sin * fx,
    ;
    assert(0 * fx == 0 && 0 * fy == 0);
    assert(offset.x == p / (UNIT as int) - sin);
    assert(offset.z == (-q) / (UNIT as int) - cos);
    if offset.x == 0 && offset.z == 0 {
        if cos == sin {
            assert(q == p);
        } else {
            assert(cos == -sin);
            assert(q == -p) by (nonlinear_arith)
                requires
                    p == cos * fx,
                    q == sin * fx,
                    cos == -sin,
            ;
        }
        assert(false);
    }
    assert(offset.length_squared() >= 1) by (nonlinear_arith)
        requires
            offset.x != 0 || offset.z != 0,
            offset.length_squared() == offset.x * offset.x + offset.y * offset.y + offset.z
                * offset.z,
    ;
    lemma_sqrt_floor_exists(offset.length_squared());
    let len: int = offset.length();
    lemma_component_below_length(offset.x, offset.y, offset.z, len);
    lemma_component_below_length(offset.y, offset.z, offset.x, len);
    lemma_component_below_length(offset.z, offset.x, offset.y, len);
    lemma_unit_quotient(offset.x, len);
    lemma_unit_quotient(offset.y, len);
    lemma_unit_quotient(offset.z, len);
}

/// Device coordinates run from minus one unit up to, not including, one
/// unit.
pub proof fn lemma_device_range(i: int, n: int)
    requires
        0 <= i < n,
    ensures
        -UNIT <= device_coordinate(i, n) < UNIT,
{
    assert(0 <= (2 * i * UNIT) / n < 2 * UNIT) by (nonlinear_arith)
        requires
            0 <= i < n,
            UNIT == 48_600_000,
    ;
}

/// The eye and orientation of one frame.
#[derive(Clone, Copy, Debug)]
pub struct Camera {
    origin: Vec3,
    forward: Vec3,
    right: Vec3,
    down: Vec3,
}

impl View for Camera {
    type V = CameraModel;

    closed spec fn view(&self) -> CameraModel {
        CameraModel {
            origin: self.origin@,
            forward: self.forward@,
            right: self.right@,
            down: self.down@,
        }
    }
}

impl Camera {
    #[verifier::type_invariant]
    closed spec fn inv(self) -> bool {
        self@.wf()
    }

    /// The camera of frame `frame_index` for the given heading.
    pub fn at_frame(frame_index: u64, heading: Heading) -> (camera: Camera)
        ensures
            camera@ == camera_at(frame_index as int, heading.cos_steps(), heading.sin_steps()),
            camera@.wf(),
    {
        proof {
            use_type_invariant(heading);
            lemma_camera_at_wf(frame_index as int, heading.cos_steps(), heading.sin_steps());
        }
        let c: i64 = heading.cos();
        let s: i64 = heading.sin();
        let phase: i64 = (frame_index % DOLLY_PERIOD) as i64;
        let z: i64 = wrap(UNIT / 2 - phase * DOLLY_STEP);
        proof {
            lemma_camera_basis(frame_index as int, c as int, s as int);
            let whole: int = (frame_index as int) / (DOLLY_PERIOD as int);
            assert(frame_index * DOLLY_STEP == phase * DOLLY_STEP + whole * UNIT) by (nonlinear_arith)
                requires
                    frame_index == whole * 200 + phase,
                    DOLLY_STEP == 243_000,
                    UNIT == 48_600_000,
            ;
            lemma_wrapped_periodic(UNIT / 2 - frame_index * DOLLY_STEP, whole);
        }
        Camera {
            origin: Vec3 { x: UNIT / 2, y: UNIT / 2, z },
            forward: (Vec3 { x: 0, y: 0, z: -UNIT }).rotated_y(heading),
            right: (Vec3 { x: UNIT, y: 0, z: 0 }).rotated_y(heading),
            down: (Vec3 { x: 0, y: -UNIT, z: 0 }).rotated_y(heading),
        }
    }

    /// The eye, inside the unit cube.
    pub fn origin(&self) -> (origin: Vec3)
        ensures
            origin@ == self@.origin,
    {
        self.origin
    }

    /// The direction the camera looks in.
    pub fn forward(&self) -> (forward: Vec3)
        ensures
            forward@ == self@.forward,
    {
        self.forward
    }

    /// The direction of growing pixel columns.
    pub fn right(&self) -> (right: Vec3)
        ensures
            right@ == self@.right,
    {
        self.right
    }

    /// The direction of growing pixel rows.
    pub fn down(&self) -> (down: Vec3)
        ensures
            down@ == self@.down,
    {
        self.down
    }

    /// Direction of the ray through pixel `(x, y)` of a `width` by `height`
    /// image.
    pub fn pixel_direction(&self, x: u32, y: u32, width: u32, height: u32) -> (direction: Vec3)
        requires
            x < width,
            y < height,
        ensures
            direction@ == self@.pixel_direction(x as int, y as int, width as int, height as int),
            direction@.within(UNIT as int),
    {
        proof {
            use_type_invariant(self);
            lemma_pixel_offset_nonzero(self@, x as int, y as int, width as int, height as int);
        }
        let fx: i64 = device(x, width);
        let fy: i64 = device(y, height);
        proof {
            lemma_scaled_within(self.right@, fx as int);
            lemma_scaled_within(self.down@, fy as int);
        }
        let across: Vec3 = self.right.scaled(fx);
        let along: Vec3 = self.down.scaled(fy);
        let offset: Vec3 = across.plus(along).plus(self.forward);
        offset.normalized()
    }
}

/// Normalized device coordinate of pixel `i` of `n`.
fn device(i: u32, n: u32) -> (f: i64)
    requires
        i < n,
    ensures
        f == device_coordinate(i as int, n as int),
        -UNIT <= f < UNIT,
{
    assert(2 * i * UNIT <= 2 * 0xffff_ffff * 48_600_000 && 2 * i * UNIT >= 0) by (nonlinear_arith)
        requires
            0 <= i <= 0xffff_ffff,
            UNIT == 48_600_000,
    ;
    let scaled: i64 = 2 * (i as i64) * UNIT;
    assert(0 <= scaled / (n as i64) < 2 * UNIT) by (nonlinear_arith)
        requires
            scaled == 2 * i * UNIT,
            0 <= i < n,
            UNIT == 48_600_000,
    ;
    scaled / (n as i64) - UNIT
}

} // verus!

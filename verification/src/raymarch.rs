//! The raymarcher: marches one ray per pixel through the periodic fractal
//! and turns the number of steps taken into an intensity.

use vstd::prelude::*;
use crate::camera::{Camera, CameraModel, Heading, SpaceVec, Vec3, camera_at};
use crate::fixed::{div_floor, lemma_wrapped_sum, wrap, wrapped, UNIT};
use crate::oracle::{empty_cell_size, test_cube, FractalMask, CUBE_MASK};
use crate::table::{gamma_rounded, ColorLookupTable};

verus! {

/// Largest number of steps marched along one ray.
pub const STEP_COUNT: u32 = 192;

/// Distance covered by a full march: one unit.
pub const TOTAL_DISTANCE: i64 = 48_600_000;

/// Length of one march step: `TOTAL_DISTANCE / STEP_COUNT`.
pub const STEP_SIZE: i64 = 253_125;

/// Distance from the eye to the first sample: half the edge of an outermost
/// subcell.
pub const START_DISTANCE: i64 = 8_100_000;

/// A ray: where it starts and the direction it runs in.
#[derive(Clone, Copy, Debug, PartialEq, Eq, Structural)]
pub struct Ray {
    pub origin: Vec3,
    pub direction: Vec3,
}

/// The model of a [`Ray`].
pub struct RayModel {
    pub origin: SpaceVec,
    pub direction: SpaceVec,
}

impl View for Ray {
    type V = RayModel;

    open spec fn view(&self) -> RayModel {
        RayModel { origin: self.origin@, direction: self.direction@ }
    }
}

/// One coordinate of the sample taken after `step` steps: the origin, plus
/// the direction scaled by `START_DISTANCE`, plus `step` times the direction
/// scaled by `STEP_SIZE`, wrapped into the unit interval.
pub open spec fn sample_coordinate(origin: int, direction: int, step: int) -> int {
    wrapped(
        origin + (direction * START_DISTANCE) / (UNIT as int) + step * ((direction * STEP_SIZE) / (
        UNIT as int)),
    )
}

impl RayModel {
    /// The point sampled after `step` steps, inside the unit cube.
    pub open spec fn sample(self, step: int) -> SpaceVec {
        SpaceVec {
            x: sample_coordinate(self.origin.x, self.direction.x, step),
            y: sample_coordinate(self.origin.y, self.direction.y, step),
            z: sample_coordinate(self.origin.z, self.direction.z, step),
        }
    }

    /// The sample after `step` steps lies in an empty cell.
    pub open spec fn empty_at(self, mask: FractalMask, step: int) -> bool {
        let p = self.sample(step);
        empty_cell_size(mask, p.x, p.y, p.z).is_some()
    }

    /// The first step from `from` on, below `STEP_COUNT`, whose sample lies
    /// in an empty cell; `STEP_COUNT` if there is none.
    pub open spec fn first_empty_step(self, mask: FractalMask, from: nat) -> nat
        decreases STEP_COUNT - from,
    {
        if from >= STEP_COUNT {
            STEP_COUNT as nat
        } else if self.empty_at(mask, from as int) {
            from
        } else {
            self.first_empty_step(mask, from + 1)
        }
    }

    /// Intensity of the pixel that this ray belongs to: the table entry of
    /// the first empty step, the background entry if the ray stays in solid
    /// material.
    pub open spec fn intensity(self, mask: FractalMask) -> int {
        gamma_rounded(self.first_empty_step(mask, 0) as int)
    }
}

/// What `first_empty_step` finds: no earlier sample is empty, and the one
/// found is, unless the march ran out of steps.
pub proof fn lemma_first_empty_step(ray: RayModel, mask: FractalMask, from: nat)
    requires
        from <= STEP_COUNT,
    ensures
        from <= ray.first_empty_step(mask, from) <= STEP_COUNT,
        forall|step: int| from <= step < ray.first_empty_step(mask, from) ==> !ray.empty_at(mask, step),
        ray.first_empty_step(mask, from) < STEP_COUNT ==> ray.empty_at(
            mask,
            ray.first_empty_step(mask, from) as int,
        ),
    decreases STEP_COUNT - from,
{
    if from < STEP_COUNT && !ray.empty_at(mask, from as int) {
        lemma_first_empty_step(ray, mask, from + 1);
    }
}

/// A ray that finds empty space no later than another gives a pixel that is
/// no brighter: the intensities never decrease with the step count.
pub proof fn lemma_earlier_hit_is_no_brighter(first: RayModel, second: RayModel, mask: FractalMask)
    requires
        first.first_empty_step(mask, 0) <= second.first_empty_step(mask, 0),
    ensures
        first.intensity(mask) <= second.intensity(mask),
{
    crate::table::lemma_gamma_rounded_monotonic(
        first.first_empty_step(mask, 0) as int,
        second.first_empty_step(mask, 0) as int,
    );
}

/// The march sees space as periodic: a ray started a whole number of units
/// away along each axis takes the same samples and gives the same intensity.
pub proof fn lemma_march_is_periodic(ray: RayModel, mask: FractalMask, kx: int, ky: int, kz: int)
    ensures
        (RayModel {
            origin: SpaceVec {
                x: ray.origin.x + kx * UNIT,
                y: ray.origin.y + ky * UNIT,
                z: ray.origin.z + kz * UNIT,
            },
            direction: ray.direction,
        }).intensity(mask) == ray.intensity(mask),
{
    let moved = RayModel {
        origin: SpaceVec {
            x: ray.origin.x + kx * UNIT,
            y: ray.origin.y + ky * UNIT,
            z: ray.origin.z + kz * UNIT,
        },
        direction: ray.direction,
    };
    assert forall|step: int| moved.sample(step) == ray.sample(step) by {
        lemma_sample_is_periodic(ray.origin.x, ray.direction.x, step, kx);
        lemma_sample_is_periodic(ray.origin.y, ray.direction.y, step, ky);
        lemma_sample_is_periodic(ray.origin.z, ray.direction.z, step, kz);
    }
    lemma_same_samples(moved, ray, mask, 0);
}

proof fn lemma_sample_is_periodic(origin: int, direction: int, step: int, k: int)
    ensures
        sample_coordinate(origin + k * UNIT, direction, step) == sample_coordinate(
            origin,
            direction,
            step,
        ),
{
    let rest: int = (direction * START_DISTANCE) / (UNIT as int) + step * ((direction * STEP_SIZE)
        / (UNIT as int));
    crate::fixed::lemma_wrapped_periodic(origin + rest, k);
}

proof fn lemma_same_samples(first: RayModel, second: RayModel, mask: FractalMask, from: nat)
    requires
        forall|step: int| first.sample(step) == second.sample(step),
    ensures
        first.first_empty_step(mask, from) == second.first_empty_step(mask, from),
    decreases STEP_COUNT - from,
{
    if from < STEP_COUNT {
        assert(first.sample(from as int) == second.sample(from as int));
        lemma_same_samples(first, second, mask, from + 1);
    }
}

/// The march constants fit together: the steps of a full march add up to
/// the total distance, which is one unit, and the first sample lies half an
/// outermost subcell from the eye.
pub proof fn lemma_march_constants()
    ensures
        STEP_SIZE * STEP_COUNT == TOTAL_DISTANCE,
        TOTAL_DISTANCE == UNIT,
        2 * START_DISTANCE == crate::oracle::cell_size(0),
{
}

/// Scaling by a distance that divides the unit is division by the quotient.
proof fn lemma_scale_is_division(direction: int)
    ensures
        (direction * START_DISTANCE) / (UNIT as int) == direction / 6,
        (direction * STEP_SIZE) / (UNIT as int) == direction / 192,
{
    assert(direction * START_DISTANCE == 8_100_000 * direction);
    assert(direction * STEP_SIZE == 253_125 * direction);
}

/// The ray through the pixel with row-major index `index` of a `width` by
/// `height` image: from the eye, through column `index % width` of row
/// `index / width`.
pub open spec fn pixel_ray(camera: CameraModel, index: int, width: int, height: int) -> RayModel {
    RayModel {
        origin: camera.origin,
        direction: camera.pixel_direction(index % width, index / width, width, height),
    }
}

/// Intensity of the pixel with row-major index `index`.
pub open spec fn pixel_intensity(
    mask: FractalMask,
    camera: CameraModel,
    index: int,
    width: int,
    height: int,
) -> int {
    pixel_ray(camera, index, width, height).intensity(mask)
}

/// `pixels` is the frame that `camera` sees of the fractal of `mask`: one
/// byte per pixel in row-major order, each the intensity of its pixel.
pub open spec fn is_frame(
    pixels: Seq<u8>,
    mask: FractalMask,
    camera: CameraModel,
    width: int,
    height: int,
) -> bool {
    &&& pixels.len() == width * height
    &&& forall|index: int|
        0 <= index < pixels.len() ==> #[trigger] pixels[index] == pixel_intensity(
            mask,
            camera,
            index,
            width,
            height,
        )
}

/// A frame is determined by the mask, the camera and the image size: two
/// buffers rendered from the same inputs agree byte for byte.
pub proof fn lemma_frame_is_determined(
    first: Seq<u8>,
    second: Seq<u8>,
    mask: FractalMask,
    camera: CameraModel,
    width: int,
    height: int,
)
    requires
        is_frame(first, mask, camera, width, height),
        is_frame(second, mask, camera, width, height),
    ensures
        first == second,
{
    assert(first =~= second);
}

/// A fractal mask together with the lookup table, ready to render.
pub struct Raymarcher {
    mask: FractalMask,
    table: ColorLookupTable,
}

impl Raymarcher {
    /// The mask in use.
    pub closed spec fn mask_model(self) -> FractalMask {
        self.mask
    }

    #[verifier::type_invariant]
    closed spec fn inv(self) -> bool {
        self.table.wf()
    }

    /// A raymarcher for `mask`; builds the lookup table.
    pub fn new(mask: FractalMask) -> (marcher: Raymarcher)
        ensures
            marcher.mask_model() == mask,
    {
        Raymarcher { mask, table: ColorLookupTable::new() }
    }

    /// The mask in use.
    pub fn mask(&self) -> (mask: FractalMask)
        ensures
            mask == self.mask_model(),
    {
        self.mask
    }

    /// Marches along `ray` in steps of `STEP_SIZE`, starting `START_DISTANCE`
    /// from its origin, and returns the intensity for the first step whose
    /// sample is empty, or the background intensity after `STEP_COUNT` solid
    /// samples.
    pub fn march(&self, ray: Ray) -> (intensity: u8)
        ensures
            intensity == ray@.intensity(self.mask_model()),
    {
        proof {
            use_type_invariant(self);
            lemma_scale_is_division(ray.direction.x as int);
            lemma_scale_is_division(ray.direction.y as int);
            lemma_scale_is_division(ray.direction.z as int);
        }
        // Scaling by a distance that divides the unit is a division, which
        // cannot overflow however long the direction is.
        let per_step: i64 = UNIT / STEP_SIZE;
        let per_start: i64 = UNIT / START_DISTANCE;
        let sx: i64 = wrap(div_floor(ray.direction.x, per_step));
        let sy: i64 = wrap(div_floor(ray.direction.y, per_step));
        let sz: i64 = wrap(div_floor(ray.direction.z, per_step));
        let mut px: i64 = wrap(wrap(ray.origin.x) + wrap(div_floor(ray.direction.x, per_start)));
        let mut py: i64 = wrap(wrap(ray.origin.y) + wrap(div_floor(ray.direction.y, per_start)));
        let mut pz: i64 = wrap(wrap(ray.origin.z) + wrap(div_floor(ray.direction.z, per_start)));
        proof {
            lemma_wrapped_sum(ray.origin.x as int, (ray.direction.x as int) / 6);
            lemma_wrapped_sum(ray.origin.y as int, (ray.direction.y as int) / 6);
            lemma_wrapped_sum(ray.origin.z as int, (ray.direction.z as int) / 6);
        }
        let mut step: u32 = 0;
        while step < STEP_COUNT
            invariant
                step <= STEP_COUNT,
                self.table.wf(),
                sx == wrapped((ray.direction.x as int) / 192),
                sy == wrapped((ray.direction.y as int) / 192),
                sz == wrapped((ray.direction.z as int) / 192),
                (ray.direction.x * STEP_SIZE) / (UNIT as int) == (ray.direction.x as int) / 192,
                (ray.direction.y * STEP_SIZE) / (UNIT as int) == (ray.direction.y as int) / 192,
                (ray.direction.z * STEP_SIZE) / (UNIT as int) == (ray.direction.z as int) / 192,
                (ray.direction.x * START_DISTANCE) / (UNIT as int) == (ray.direction.x as int) / 6,
                (ray.direction.y * START_DISTANCE) / (UNIT as int) == (ray.direction.y as int) / 6,
                (ray.direction.z * START_DISTANCE) / (UNIT as int) == (ray.direction.z as int) / 6,
                px == ray@.sample(step as int).x,
                py == ray@.sample(step as int).y,
                pz == ray@.sample(step as int).z,
                ray@.first_empty_step(self.mask, 0) == ray@.first_empty_step(self.mask, step as nat),
            decreases STEP_COUNT - step,
        {
            match test_cube(self.mask, px, py, pz) {
                Some(_) => {
                    return self.table.get(step as usize);
                },
                None => {},
            }
            proof {
                lemma_march_step(ray.origin.x as int, ray.direction.x as int, step as int);
                lemma_march_step(ray.origin.y as int, ray.direction.y as int, step as int);
                lemma_march_step(ray.origin.z as int, ray.direction.z as int, step as int);
            }
            px = wrap(px + sx);
            py = wrap(py + sy);
            pz = wrap(pz + sz);
            step = step + 1;
        }
        self.table.get(STEP_COUNT as usize)
    }

    /// Intensity of the pixel with row-major index `index` of a `width` by
    /// `height` image.  Pixels are independent of each other, so a caller may
    /// compute them in any order or in parallel.
    pub fn render_pixel(&self, camera: &Camera, index: u64, width: u32, height: u32) -> (intensity: u8)
        requires
            index < width * height,
        ensures
            intensity == pixel_intensity(
                self.mask_model(),
                camera@,
                index as int,
                width as int,
                height as int,
            ),
    {
        assert(width > 0 && index / (width as u64) < height) by (nonlinear_arith)
            requires
                0 <= index < width * height,
                0 <= width,
                0 <= height,
        ;
        let x: u32 = (index % (width as u64)) as u32;
        let y: u32 = (index / (width as u64)) as u32;
        let direction: Vec3 = camera.pixel_direction(x, y, width, height);
        self.march(Ray { origin: camera.origin(), direction })
    }

    /// Renders the whole frame: `width * height` intensities in row-major
    /// order.
    pub fn render_frame(&self, camera: &Camera, width: u32, height: u32) -> (pixels: Vec<u8>)
        ensures
            is_frame(pixels@, self.mask_model(), camera@, width as int, height as int),
    {
        assert(width * height <= 0xffff_ffff * 0xffff_ffff) by (nonlinear_arith)
            requires
                0 <= width <= 0xffff_ffff,
                0 <= height <= 0xffff_ffff,
        ;
        let count: u64 = (width as u64) * (height as u64);
        let mut pixels: Vec<u8> = Vec::new();
        let mut index: u64 = 0;
        while index < count
            invariant
                index <= count,
                count == width * height,
                pixels@.len() == index,
                forall|i: int|
                    0 <= i < index ==> #[trigger] pixels@[i] == pixel_intensity(
                        self.mask_model(),
                        camera@,
                        i,
                        width as int,
                        height as int,
                    ),
            decreases count - index,
        {
            let intensity: u8 = self.render_pixel(camera, index, width, height);
            pixels.push(intensity);
            index = index + 1;
        }
        pixels
    }
}

/// Advancing a wrapped sample by the wrapped step gives the next sample.
proof fn lemma_march_step(origin: int, direction: int, step: int)
    ensures
        wrapped(
            wrapped(origin + direction / 6 + step * (direction / 192)) + wrapped(direction / 192),
        ) == wrapped(origin + direction / 6 + (step + 1) * (direction / 192)),
{
    let stride: int = direction / 192;
    assert((step + 1) * stride == step * stride + stride) by (nonlinear_arith);
    lemma_wrapped_sum(origin + direction / 6 + step * stride, stride);
}

/// Renders frame `n` of the default fractal, as seen under `heading`.
pub fn sponge_renderer_3d(n: u64, heading: Heading, width: u32, height: u32) -> (pixels: Vec<u8>)
    ensures
        is_frame(
            pixels@,
            FractalMask { bits: CUBE_MASK },
            camera_at(n as int, heading.cos_steps(), heading.sin_steps()),
            width as int,
            height as int,
        ),
{
    let marcher: Raymarcher = Raymarcher::new(FractalMask::new(CUBE_MASK));
    let camera: Camera = Camera::at_frame(n, heading);
    marcher.render_frame(&camera, width, height)
}

} // verus!

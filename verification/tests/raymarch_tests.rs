use sponge::camera::{Camera, Heading, Vec3};
use sponge::fixed::UNIT;
use sponge::oracle::{FractalMask, CLEAR_MASK, CUBE_MASK, FULL_MASK};
use sponge::raymarch::{
    sponge_renderer_3d, Ray, Raymarcher, START_DISTANCE, STEP_COUNT, STEP_SIZE, TOTAL_DISTANCE,
};

fn v(x: i64, y: i64, z: i64) -> Vec3 {
    Vec3 { x, y, z }
}

fn ray(origin: (i64, i64, i64), direction: (i64, i64, i64)) -> Ray {
    Ray { origin: v(origin.0, origin.1, origin.2), direction: v(direction.0, direction.1, direction.2) }
}

fn digest(pixels: &[u8]) -> u64 {
    let mut acc: u64 = 0;
    for p in pixels {
        acc = (acc * 31 + (*p as u64)) % 1_000_003;
    }
    acc
}

fn total(pixels: &[u8]) -> u64 {
    pixels.iter().map(|p| *p as u64).sum()
}

const ONE_HOLE: u32 = 0x7ff_fffe;
const TOP_HOLE: u32 = 0x3ff_ffff;
const INVERTED_SPONGE: u32 = 0x41_7410;

#[test]
fn march_constants_fit_together() {
    assert_eq!(STEP_COUNT, 192);
    assert_eq!(TOTAL_DISTANCE, UNIT);
    assert_eq!(STEP_SIZE * (STEP_COUNT as i64), TOTAL_DISTANCE);
    assert_eq!(START_DISTANCE * 6, UNIT);
}

#[test]
fn march_in_solid_material_gives_the_background() {
    let marcher = Raymarcher::new(FractalMask::new(FULL_MASK));
    assert_eq!(marcher.march(ray((24_300_000, 24_300_000, 24_300_000), (0, 0, -UNIT))), 67);
    assert_eq!(marcher.march(ray((0, 0, 0), (UNIT, UNIT, UNIT))), 67);
}

#[test]
fn march_in_empty_space_stops_at_once() {
    let marcher = Raymarcher::new(FractalMask::new(CLEAR_MASK));
    assert_eq!(marcher.march(ray((24_300_000, 24_300_000, 24_300_000), (0, 0, -UNIT))), 0);
    assert_eq!(marcher.march(ray((1, 2, 3), (-5, 6, 7))), 0);
}

#[test]
fn march_reports_the_first_empty_step() {
    let marcher = Raymarcher::new(FractalMask::new(ONE_HOLE));
    assert_eq!(marcher.march(ray((24_300_000, 24_300_000, 24_300_000), (0, 0, -UNIT))), 67);
    assert_eq!(marcher.march(ray((24_300_000, 24_300_000, 24_300_000), (UNIT, 0, 0))), 67);
    assert_eq!(marcher.march(ray((0, 0, 0), (UNIT, UNIT, UNIT))), 0);
    assert_eq!(marcher.march(ray((5, 7, 11), (-UNIT, 12_345_678, 3))), 2);
    assert_eq!(
        marcher.march(ray((24_300_000, 24_300_000, 24_300_000), (-28_059_223, -28_059_223, -28_059_223))),
        0
    );
    // A ray that does not move samples its origin.
    assert_eq!(marcher.march(ray((1, 2, 3), (0, 0, 0))), 0);
}

#[test]
fn march_wraps_origin_and_direction_of_any_size() {
    let marcher = Raymarcher::new(FractalMask::new(ONE_HOLE));
    assert_eq!(marcher.march(ray((-145_800_005, 48_600_007, 11), (-UNIT, 12_345_678, 3))), 2);
    assert_eq!(marcher.march(ray((1, 2, 3), (i64::MAX, i64::MIN, 123_456_789_012))), 67);
}

#[test]
fn march_is_invariant_under_whole_unit_shifts_of_the_origin() {
    let marcher = Raymarcher::new(FractalMask::new(TOP_HOLE));
    let direction = (-25_170_508, -20_606_359, -36_107_944);
    let here = marcher.march(ray((24_300_000, 24_300_000, 18_225_000), direction));
    for (kx, ky, kz) in [(1i64, 0i64, 0i64), (-2, 5, 9), (100, -100, 1)] {
        let origin = (24_300_000 + kx * UNIT, 24_300_000 + ky * UNIT, 18_225_000 + kz * UNIT);
        assert_eq!(marcher.march(ray(origin, direction)), here);
    }
}

#[test]
fn golden_frame_of_the_default_mask() {
    let pixels = sponge_renderer_3d(0, Heading::ahead(), 64, 64);
    assert_eq!(pixels.len(), 64 * 64);
    // The eye starts in the empty centre cell: every ray stops at step zero.
    assert_eq!(pixels[0], 0);
    assert_eq!(pixels[32 * 64 + 32], 0);
    assert_eq!(total(&pixels), 0);
}

#[test]
fn golden_frame_of_a_mask_with_one_hole() {
    let marcher = Raymarcher::new(FractalMask::new(ONE_HOLE));
    let camera = Camera::at_frame(0, Heading::ahead());
    let pixels = marcher.render_frame(&camera, 64, 64);
    assert_eq!(pixels.len(), 64 * 64);
    assert_eq!(pixels[0], 67);
    assert_eq!(pixels[32 * 64 + 32], 67);
    assert_eq!(pixels[64 * 64 - 1], 67);
    assert_eq!(total(&pixels), 38_820);
    assert_eq!(digest(&pixels), 254_828);
}

#[test]
fn golden_frames_under_turned_headings() {
    let heading = Heading::new(47_089_144, 12_023_832).unwrap();
    let camera = Camera::at_frame(25, heading);
    let pixels = Raymarcher::new(FractalMask::new(ONE_HOLE)).render_frame(&camera, 16, 12);
    assert_eq!(pixels.len(), 16 * 12);
    assert_eq!(&pixels[..8], &[1, 8, 5, 0, 9, 4, 8, 21]);
    assert_eq!(pixels[6 * 16 + 8], 67);
    assert_eq!(pixels[16 * 12 - 1], 6);
    assert_eq!(total(&pixels), 2449);
    assert_eq!(digest(&pixels), 566_197);

    let pixels = Raymarcher::new(FractalMask::new(TOP_HOLE)).render_frame(&camera, 16, 12);
    assert_eq!(&pixels[..8], &[7, 4, 24, 8, 17, 10, 0, 6]);
    assert_eq!(total(&pixels), 2749);
    assert_eq!(digest(&pixels), 649_530);

    let heading = Heading::new(42_650_513, 23_300_081).unwrap();
    let camera = Camera::at_frame(50, heading);
    let pixels = Raymarcher::new(FractalMask::new(ONE_HOLE)).render_frame(&camera, 8, 8);
    assert_eq!(&pixels[..8], &[9, 0, 9, 3, 8, 8, 4, 0]);
    assert_eq!(pixels[4 * 8 + 4], 67);
    assert_eq!(total(&pixels), 909);
    assert_eq!(digest(&pixels), 932_165);
}

#[test]
fn golden_frame_of_the_inverted_sponge() {
    let marcher = Raymarcher::new(FractalMask::new(INVERTED_SPONGE));
    let pixels = marcher.render_frame(&Camera::at_frame(0, Heading::ahead()), 64, 64);
    assert_eq!(pixels[0], 0);
    assert_eq!(pixels[32 * 64 + 32], 67);
    assert_eq!(total(&pixels), 67);
    assert_eq!(digest(&pixels), 692_958);
}

#[test]
fn rendering_twice_gives_identical_buffers() {
    let heading = Heading::new(47_089_144, 12_023_832).unwrap();
    let first = sponge_renderer_3d(25, heading, 16, 12);
    let second = sponge_renderer_3d(25, heading, 16, 12);
    assert_eq!(first, second);
    let marcher = Raymarcher::new(FractalMask::new(TOP_HOLE));
    let camera = Camera::at_frame(25, heading);
    assert_eq!(marcher.render_frame(&camera, 16, 12), marcher.render_frame(&camera, 16, 12));
    let again = Raymarcher::new(FractalMask::new(TOP_HOLE));
    assert_eq!(marcher.render_frame(&camera, 16, 12), again.render_frame(&Camera::at_frame(25, heading), 16, 12));
}

#[test]
fn default_renderer_uses_the_default_mask() {
    let heading = Heading::new(42_650_513, 23_300_081).unwrap();
    let marcher = Raymarcher::new(FractalMask::new(CUBE_MASK));
    assert_eq!(marcher.mask(), FractalMask::new(CUBE_MASK));
    let expected = marcher.render_frame(&Camera::at_frame(50, heading), 8, 8);
    assert_eq!(sponge_renderer_3d(50, heading, 8, 8), expected);
}

#[test]
fn pixels_can_be_rendered_one_by_one_in_any_order() {
    let heading = Heading::new(47_089_144, 12_023_832).unwrap();
    let camera = Camera::at_frame(25, heading);
    let marcher = Raymarcher::new(FractalMask::new(ONE_HOLE));
    let whole = marcher.render_frame(&camera, 16, 12);
    let mut index: u32 = 16 * 12;
    while index > 0 {
        index -= 1;
        assert_eq!(marcher.render_pixel(&camera, index as u64, 16, 12), whole[index as usize]);
    }
}

#[test]
fn a_pixel_is_the_march_along_its_ray() {
    let heading = Heading::new(47_089_144, 12_023_832).unwrap();
    let camera = Camera::at_frame(25, heading);
    let marcher = Raymarcher::new(FractalMask::new(TOP_HOLE));
    let index: u32 = 9 * 16 + 5;
    let direction = camera.pixel_direction(5, 9, 16, 12);
    let along = marcher.march(Ray { origin: camera.origin(), direction });
    assert_eq!(marcher.render_pixel(&camera, index as u64, 16, 12), along);
}

#[test]
fn an_image_without_pixels_is_empty() {
    let marcher = Raymarcher::new(FractalMask::new(CUBE_MASK));
    let camera = Camera::at_frame(3, Heading::ahead());
    assert!(marcher.render_frame(&camera, 0, 17).is_empty());
    assert!(marcher.render_frame(&camera, 17, 0).is_empty());
    assert!(marcher.render_frame(&camera, 0, 0).is_empty());
    assert!(sponge_renderer_3d(3, Heading::ahead(), 0, 5).is_empty());
}

#[test]
fn frames_repeat_when_the_eye_has_crossed_a_whole_unit() {
    let heading = Heading::new(42_650_513, 23_300_081).unwrap();
    let marcher = Raymarcher::new(FractalMask::new(ONE_HOLE));
    let near = marcher.render_frame(&Camera::at_frame(50, heading), 8, 8);
    let far = marcher.render_frame(&Camera::at_frame(250, heading), 8, 8);
    assert_eq!(near, far);
}

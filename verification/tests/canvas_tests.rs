use sponge::canvas::{GrayCanvas, MAX_PIXELS};
use sponge::pattern::{pattern_at, text_pattern_render, text_pattern_render_checked};

#[test]
fn new_canvas_is_black() {
    let canvas = GrayCanvas::new(5, 3).unwrap();
    assert_eq!(canvas.dimensions(), (5, 3));
    assert_eq!(canvas.into_raw(), vec![0u8; 15]);
}

#[test]
fn canvas_without_pixels() {
    let canvas = GrayCanvas::new(0, 7).unwrap();
    assert_eq!(canvas.dimensions(), (0, 7));
    assert!(canvas.into_raw().is_empty());
}

#[test]
fn canvas_beyond_the_limit_is_refused() {
    assert_eq!(MAX_PIXELS, (1 << 32) - 1);
    assert!(GrayCanvas::new(65_536, 65_536).is_none());
    assert!(GrayCanvas::new(65_536, 65_537).is_none());
    assert!(GrayCanvas::new(u32::MAX, u32::MAX).is_none());
    assert!(GrayCanvas::new(u32::MAX, 2).is_none());
}

#[test]
fn put_pixel_writes_one_sample_in_row_major_order() {
    let mut canvas = GrayCanvas::new(4, 3).unwrap();
    assert!(canvas.put_pixel(1, 2, 200));
    assert!(canvas.put_pixel(3, 0, 7));
    assert!(canvas.put_pixel(0, 0, 1));
    assert_eq!(canvas.dimensions(), (4, 3));
    let raw = canvas.into_raw();
    let mut expected = vec![0u8; 12];
    expected[2 * 4 + 1] = 200;
    expected[3] = 7;
    expected[0] = 1;
    assert_eq!(raw, expected);
}

#[test]
fn put_pixel_off_the_canvas_changes_nothing() {
    let mut canvas = GrayCanvas::new(4, 3).unwrap();
    assert!(!canvas.put_pixel(4, 0, 9));
    assert!(!canvas.put_pixel(0, 3, 9));
    assert!(!canvas.put_pixel(u32::MAX, u32::MAX, 9));
    assert_eq!(canvas.into_raw(), vec![0u8; 12]);
}

#[test]
fn pattern_is_the_sum_reduced_to_a_byte() {
    assert_eq!(pattern_at(0, 0, 0), 0);
    assert_eq!(pattern_at(1, 2, 3), 6);
    assert_eq!(pattern_at(250, 3, 3), 0);
    assert_eq!(pattern_at(255, 255, 255), 253);
    assert_eq!(pattern_at(u64::MAX, u32::MAX, u32::MAX), 253);
    assert_eq!(pattern_at(1 << 40, 256, 512), 0);
    assert_eq!(pattern_at((1 << 40) + 5, 257, 513), 7);
}

#[test]
fn pattern_fills_every_pixel() {
    let mut canvas = GrayCanvas::new(7, 5).unwrap();
    text_pattern_render(250, &mut canvas);
    assert_eq!(canvas.dimensions(), (7, 5));
    let raw = canvas.into_raw();
    assert_eq!(raw.len(), 35);
    for y in 0..5u32 {
        for x in 0..7u32 {
            assert_eq!(raw[(y * 7 + x) as usize], ((x + y + 250) % 256) as u8);
        }
    }
}

#[test]
fn pattern_overwrites_what_was_there() {
    let mut canvas = GrayCanvas::new(3, 2).unwrap();
    canvas.put_pixel(2, 1, 99);
    text_pattern_render(0, &mut canvas);
    assert_eq!(canvas.into_raw(), vec![0, 1, 2, 1, 2, 3]);
}

#[test]
fn pattern_shifts_with_the_frame_index() {
    let mut first = GrayCanvas::new(4, 1).unwrap();
    let mut second = GrayCanvas::new(4, 1).unwrap();
    text_pattern_render(10, &mut first);
    text_pattern_render(11, &mut second);
    assert_eq!(first.into_raw(), vec![10, 11, 12, 13]);
    assert_eq!(second.into_raw(), vec![11, 12, 13, 14]);
}

#[test]
fn pattern_of_frame_255_on_two_by_two() {
    let mut canvas = GrayCanvas::new(2, 2).unwrap();
    text_pattern_render(255, &mut canvas);
    assert_eq!(canvas.into_raw(), vec![255, 0, 0, 1]);
}

#[test]
fn raw_samples_are_exactly_the_pixels() {
    for (width, height) in [(1u32, 1u32), (3, 5), (16, 1), (1, 16), (0, 4), (4, 0)] {
        let mut canvas = GrayCanvas::new(width, height).unwrap();
        text_pattern_render(9, &mut canvas);
        assert_eq!(canvas.into_raw().len(), (width * height) as usize);
    }
}

#[test]
fn checked_pattern_fills_a_canvas_within_the_limit() {
    let mut canvas = GrayCanvas::new(2, 2).unwrap();
    assert!(text_pattern_render_checked(254, &mut canvas));
    assert_eq!(canvas.into_raw(), vec![254, 255, 255, 0]);
}

#[test]
fn pattern_on_an_empty_canvas_does_nothing() {
    let mut canvas = GrayCanvas::new(0, 0).unwrap();
    text_pattern_render(5, &mut canvas);
    assert!(text_pattern_render_checked(5, &mut canvas));
    assert!(canvas.into_raw().is_empty());
}

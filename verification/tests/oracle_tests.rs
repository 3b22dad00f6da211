use sponge::fixed::{div_floor, div_floor_wide, isqrt, wrap, UNIT};
use sponge::oracle::{
    point_to_offset, test_cube, FractalMask, CLEAR_MASK, CUBE_MASK, FULL_MASK, MAX_DEPTH,
    SPONGE_MASK,
};

#[test]
fn wrap_reduces_into_the_unit_interval() {
    assert_eq!(wrap(0), 0);
    assert_eq!(wrap(UNIT), 0);
    assert_eq!(wrap(UNIT + 5), 5);
    assert_eq!(wrap(-1), UNIT - 1);
    assert_eq!(wrap(-UNIT), 0);
    assert_eq!(wrap(3 * UNIT + 17), 17);
    assert_eq!(wrap(-3 * UNIT - 17), UNIT - 17);
    assert_eq!(wrap(i64::MAX), 36_775_807);
    assert_eq!(wrap(i64::MIN), 11_824_192);
}

#[test]
fn wrap_is_the_double_remainder() {
    for v in [-100_000_000i64, -48_600_001, -5, 0, 7, 48_599_999, 48_600_000, 1_000_000_007] {
        assert_eq!(wrap(v), ((v % UNIT) + UNIT) % UNIT);
    }
}

#[test]
fn div_floor_rounds_down() {
    assert_eq!(div_floor(7, 2), 3);
    assert_eq!(div_floor(-7, 2), -4);
    assert_eq!(div_floor(-8, 2), -4);
    assert_eq!(div_floor(0, 5), 0);
    assert_eq!(div_floor(-1, 192), -1);
    assert_eq!(div_floor(-192, 192), -1);
    assert_eq!(div_floor(-193, 192), -2);
    assert_eq!(div_floor(i64::MIN, 1), i64::MIN);
    assert_eq!(div_floor(i64::MIN, 6), -1_537_228_672_809_129_302);
    assert_eq!(div_floor(i64::MAX, 6), 1_537_228_672_809_129_301);
}

#[test]
fn div_floor_wide_rounds_down() {
    assert_eq!(div_floor_wide(7, 2), 3);
    assert_eq!(div_floor_wide(-7, 2), -4);
    assert_eq!(div_floor_wide(-8, 2), -4);
    assert_eq!(div_floor_wide(i128::MIN, 1), i128::MIN);
    assert_eq!(div_floor_wide(-1, i128::MAX), -1);
    assert_eq!(div_floor_wide((i64::MIN as i128) * 48_600_000, 48_600_000), i64::MIN as i128);
    assert_eq!(div_floor_wide((i64::MIN as i128) * 48_600_000 - 1, 48_600_000), (i64::MIN as i128) - 1);
}

#[test]
fn isqrt_is_the_floor_of_the_root() {
    assert_eq!(isqrt(0), 0);
    assert_eq!(isqrt(1), 1);
    assert_eq!(isqrt(3), 1);
    assert_eq!(isqrt(4), 2);
    assert_eq!(isqrt(24), 4);
    assert_eq!(isqrt(25), 5);
    assert_eq!(isqrt(2_361_960_000_000_000), 48_600_000);
    assert_eq!(isqrt(2_361_960_000_000_000 - 1), 48_599_999);
    assert_eq!(isqrt(u64::MAX as u128), 4_294_967_295);
    assert_eq!(isqrt(1 << 64), 1 << 32);
    assert_eq!(isqrt((1 << 126) - 1), (1 << 63) - 1);
    assert_eq!(isqrt(u128::MAX), u64::MAX);
}

#[test]
fn offset_follows_the_bit_layout() {
    let third = UNIT / 3;
    assert_eq!(point_to_offset(0, 0, 0), 0);
    assert_eq!(point_to_offset(third, 0, 0), 1);
    assert_eq!(point_to_offset(2 * third, 0, 0), 2);
    assert_eq!(point_to_offset(0, 0, third), 3);
    assert_eq!(point_to_offset(0, third, 0), 9);
    assert_eq!(point_to_offset(UNIT - 1, UNIT - 1, UNIT - 1), 26);
    assert_eq!(point_to_offset(third - 1, third, 2 * third), 0 + 6 + 9);
}

#[test]
fn clear_mask_is_empty_at_the_first_level() {
    let mask = FractalMask::new(CLEAR_MASK);
    assert_eq!(test_cube(mask, 0, 0, 0), Some(UNIT / 3));
    assert_eq!(test_cube(mask, UNIT - 1, 12345, UNIT / 2), Some(UNIT / 3));
    assert_eq!(test_cube(mask, UNIT / 3, UNIT / 9, UNIT / 27), Some(16_200_000));
}

#[test]
fn full_mask_is_solid_everywhere() {
    let mask = FractalMask::new(FULL_MASK);
    assert_eq!(test_cube(mask, 0, 0, 0), None);
    assert_eq!(test_cube(mask, UNIT - 1, 12345, UNIT / 2), None);
    assert_eq!(test_cube(mask, UNIT / 3, UNIT / 9, UNIT / 27), None);
    let mut c: i64 = 0;
    while c < UNIT {
        assert_eq!(test_cube(mask, c, (c * 7) % UNIT, (c * 13 + 5) % UNIT), None);
        c += 999_983;
    }
}

#[test]
fn sponge_centre_is_empty_and_corner_is_solid() {
    let mask = FractalMask::new(SPONGE_MASK);
    assert_eq!(test_cube(mask, UNIT / 2, UNIT / 2, UNIT / 2), Some(UNIT / 3));
    assert_eq!(test_cube(mask, 0, 0, 0), None);
    let ninth = UNIT / 9;
    // Solid at the outer level, in the centre of a face one level down.
    assert_eq!(test_cube(mask, ninth + ninth / 2, ninth + ninth / 2, ninth / 2), Some(UNIT / 9));
}

#[test]
fn empty_cell_sizes_shrink_by_thirds_with_depth() {
    // Only the subcell at (0, 0, 0) is solid, so a point is empty at the
    // first level where one of its ternary digits is not zero.
    let mask = FractalMask::new(1);
    let sizes: [i64; 5] = [16_200_000, 5_400_000, 1_800_000, 600_000, 200_000];
    assert_eq!(MAX_DEPTH, 5);
    for level in 0..5 {
        let x = sizes[level];
        assert_eq!(test_cube(mask, x, 0, 0), Some(sizes[level]));
        assert_eq!(test_cube(mask, 0, x, 0), Some(sizes[level]));
        assert_eq!(test_cube(mask, 0, 0, x), Some(sizes[level]));
        assert_eq!(test_cube(mask, x - 1, 0, 0), if level == 4 { None } else { Some(sizes[level + 1]) });
    }
    assert_eq!(test_cube(mask, 199_999, 199_999, 199_999), None);
    assert_eq!(test_cube(mask, 0, 0, 0), None);
}

#[test]
fn deeper_levels_read_the_same_mask() {
    // Everything solid but the subcell at (2, 0, 1): bit 2 + 3 * 1 = 5.
    let mask = FractalMask::new(FULL_MASK & !(1 << 5));
    let third = UNIT / 3;
    let ninth = UNIT / 9;
    assert_eq!(test_cube(mask, 2 * third, 0, third), Some(third));
    assert_eq!(test_cube(mask, 2 * ninth, 0, ninth), Some(ninth));
    assert_eq!(test_cube(mask, third + 2 * ninth, 2 * third, 2 * third + ninth), Some(ninth));
    assert_eq!(test_cube(mask, ninth, 0, 2 * ninth), None);
}

#[test]
fn default_mask_has_an_empty_centre() {
    let mask = FractalMask::new(CUBE_MASK);
    assert_eq!(mask.bits, 0b110101101_101100101_101001100);
    assert!(!mask.is_solid(13));
    assert!(mask.is_solid(2));
    assert!(!mask.is_solid(0));
    assert!(mask.is_solid(26));
    assert_eq!(test_cube(mask, UNIT / 2, UNIT / 2, UNIT / 2), Some(UNIT / 3));
}

#[test]
fn oracle_is_invariant_under_whole_unit_shifts() {
    let mask = FractalMask::new(SPONGE_MASK);
    let points: [(i64, i64, i64); 4] = [
        (123_456, 40_000_000, 7),
        (-5, -48_600_001, 99_999_999),
        (24_300_000, 16_200_000, 5_400_000),
        (1, 2, 3),
    ];
    let shifts: [(i64, i64, i64); 4] = [(1, 0, 0), (-3, 7, 2), (0, 0, -1), (1000, -1000, 12)];
    for (x, y, z) in points {
        let here = test_cube(mask, wrap(x), wrap(y), wrap(z));
        for (kx, ky, kz) in shifts {
            let there = test_cube(mask, wrap(x + kx * UNIT), wrap(y + ky * UNIT), wrap(z + kz * UNIT));
            assert_eq!(here, there);
        }
    }
}

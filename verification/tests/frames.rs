use cypress_astro::raw_frame::{convert_to_8bit_optimized, frame_fits_check};
use cypress_astro::rotate::{rotate_and_crop_fixed_point, rotation_fits, FixedPointWalk};

#[test]
fn eight_bit_contiguous_frame_is_copied_and_binned() {
    let buf: Vec<u8> = vec![10, 20, 30, 40, 50, 60, 70, 80];
    let mut image = vec![0u8; 8];
    let mut binned = vec![0u8; 2];
    convert_to_8bit_optimized(4, &buf, &mut image, &mut binned, 4, 2, false, false, false);
    assert_eq!(image, buf);
    assert_eq!(binned, vec![(10 + 20 + 50 + 60) / 4, (30 + 40 + 70 + 80) / 4]);
}

#[test]
fn eight_bit_padded_rows_skip_the_padding() {
    let buf: Vec<u8> = vec![1, 2, 9, 9, 3, 4, 9, 9];
    let mut image = vec![0u8; 4];
    let mut binned = vec![7u8; 2];
    convert_to_8bit_optimized(4, &buf, &mut image, &mut binned, 2, 2, false, false, false);
    assert_eq!(image, vec![1, 2, 3, 4]);
    assert_eq!(binned, vec![(1 + 2 + 3 + 4) / 4, 7]);
}

#[test]
fn raw10_keeps_the_high_bytes() {
    let buf: Vec<u8> = vec![10, 20, 30, 40, 0xFF, 50, 60, 70, 80, 0xFF];
    let mut image = vec![0u8; 8];
    let mut binned = vec![0u8; 2];
    convert_to_8bit_optimized(5, &buf, &mut image, &mut binned, 4, 2, true, false, true);
    assert_eq!(image, vec![10, 20, 30, 40, 50, 60, 70, 80]);
    assert_eq!(binned, vec![35, 55]);
}

#[test]
fn raw10_padded_rows() {
    let buf: Vec<u8> = vec![1, 2, 3, 4, 0xAA, 0, 0, 0, 5, 6, 7, 8, 0xBB, 0, 0, 0];
    let mut image = vec![0u8; 8];
    let mut binned = vec![0u8; 2];
    convert_to_8bit_optimized(8, &buf, &mut image, &mut binned, 4, 2, true, false, true);
    assert_eq!(image, vec![1, 2, 3, 4, 5, 6, 7, 8]);
    assert_eq!(binned, vec![(1 + 2 + 5 + 6) / 4, (3 + 4 + 7 + 8) / 4]);
}

#[test]
fn raw10_incomplete_group_leaves_pixels_unchanged() {
    // Six pixels in one contiguous row: one whole group of four, two left over.
    let buf: Vec<u8> = vec![1, 2, 3, 4, 0, 5, 6];
    let mut image = vec![99u8; 6];
    let mut binned = vec![0u8; 3];
    convert_to_8bit_optimized(7, &buf, &mut image, &mut binned, 6, 1, true, false, true);
    assert_eq!(image, vec![1, 2, 3, 4, 99, 99]);
    assert_eq!(binned, vec![0, 0, 0]);
}

#[test]
fn raw12_keeps_two_of_three_bytes() {
    let buf: Vec<u8> = vec![100, 200, 0x12, 50, 60, 0x34, 10, 20, 0x56, 30, 40, 0x78];
    let mut image = vec![0u8; 8];
    let mut binned = vec![0u8; 2];
    convert_to_8bit_optimized(6, &buf, &mut image, &mut binned, 4, 2, false, true, true);
    assert_eq!(image, vec![100, 200, 50, 60, 10, 20, 30, 40]);
    assert_eq!(binned, vec![((100u32 + 200 + 10 + 20) / 4) as u8, ((50u32 + 60 + 30 + 40) / 4) as u8]);
}

#[test]
fn raw10_takes_precedence_over_raw12() {
    let buf: Vec<u8> = vec![1, 2, 3, 4, 0];
    let mut image = vec![0u8; 4];
    let mut binned = vec![0u8; 0];
    convert_to_8bit_optimized(5, &buf, &mut image, &mut binned, 4, 1, true, true, true);
    assert_eq!(image, vec![1, 2, 3, 4]);
}

#[test]
fn binning_rounds_down() {
    let buf: Vec<u8> = vec![255, 255, 255, 254];
    let mut image = vec![0u8; 4];
    let mut binned = vec![0u8; 1];
    convert_to_8bit_optimized(2, &buf, &mut image, &mut binned, 2, 2, false, false, false);
    assert_eq!(binned, vec![254]);
}

fn identity_walk() -> FixedPointWalk {
    FixedPointWalk {
        start_x: 0,
        start_y: 0,
        dx_src_x: 65536,
        dx_src_y: 0,
        dy_src_x: 0,
        dy_src_y: 65536,
    }
}

#[test]
fn identity_walk_crops_the_left_square() {
    let image: Vec<u8> = vec![1, 2, 3, 4, 5, 6];
    let out = rotate_and_crop_fixed_point(&image, 3, 2, identity_walk());
    assert_eq!(out, vec![1, 2, 4, 5]);
}

#[test]
fn shifted_walk_samples_the_next_column() {
    let image: Vec<u8> = vec![1, 2, 3, 4, 5, 6];
    let mut walk = identity_walk();
    walk.start_x = 65536;
    let out = rotate_and_crop_fixed_point(&image, 3, 2, walk);
    assert_eq!(out, vec![2, 3, 5, 6]);
}

#[test]
fn half_pixel_rounds_up() {
    let image: Vec<u8> = vec![1, 2, 3, 4, 5, 6];
    let mut walk = identity_walk();
    walk.start_x = 32768;
    let out = rotate_and_crop_fixed_point(&image, 3, 2, walk);
    assert_eq!(out, vec![2, 3, 5, 6]);
    walk.start_x = 32767;
    let out = rotate_and_crop_fixed_point(&image, 3, 2, walk);
    assert_eq!(out, vec![1, 2, 4, 5]);
}

#[test]
fn outside_the_source_is_black() {
    let image: Vec<u8> = vec![1, 2, 3, 4, 5, 6];
    let mut walk = identity_walk();
    walk.start_x = -2 * 65536;
    let out = rotate_and_crop_fixed_point(&image, 3, 2, walk);
    assert_eq!(out, vec![0, 0, 0, 0]);
}

#[test]
fn quarter_turn_walk() {
    // Output (x, y) samples source (y, 1 - x): a quarter turn of the left square.
    let image: Vec<u8> = vec![1, 2, 3, 4, 5, 6];
    let walk = FixedPointWalk {
        start_x: 0,
        start_y: 65536,
        dx_src_x: 0,
        dx_src_y: -65536,
        dy_src_x: 65536,
        dy_src_y: 0,
    };
    let out = rotate_and_crop_fixed_point(&image, 3, 2, walk);
    assert_eq!(out, vec![4, 1, 5, 2]);
}

#[test]
fn empty_image_gives_empty_crop() {
    let image: Vec<u8> = vec![];
    let out = rotate_and_crop_fixed_point(&image, 5, 0, identity_walk());
    assert!(out.is_empty());
}

#[test]
fn uniform_blocks_keep_their_value() {
    let buf: Vec<u8> = vec![9, 9, 200, 200, 9, 9, 200, 200];
    let mut image = vec![0u8; 8];
    let mut binned = vec![0u8; 2];
    convert_to_8bit_optimized(4, &buf, &mut image, &mut binned, 4, 2, false, false, false);
    assert_eq!(binned, vec![9, 200]);
}

#[test]
fn frame_sizes_are_checked() {
    // 8-bit contiguous 4x2 frame.
    assert!(frame_fits_check(4, 8, 8, 2, 4, 2, false, false));
    assert!(!frame_fits_check(4, 7, 8, 2, 4, 2, false, false));
    assert!(!frame_fits_check(4, 8, 7, 2, 4, 2, false, false));
    assert!(!frame_fits_check(4, 8, 8, 1, 4, 2, false, false));
    // Packed RAW10: four pixels in five bytes.
    assert!(frame_fits_check(5, 10, 8, 2, 4, 2, true, false));
    assert!(!frame_fits_check(5, 9, 8, 2, 4, 2, true, false));
    // Packed RAW12 with padded rows: the last row needs only its own bytes.
    assert!(frame_fits_check(8, 14, 8, 2, 4, 2, false, true));
    assert!(!frame_fits_check(8, 13, 8, 2, 4, 2, false, true));
    // A frame whose pixel count overflows.
    assert!(!frame_fits_check(1, usize::MAX, usize::MAX, usize::MAX, usize::MAX, 2, false, false));
    // An empty frame with padded rows reads nothing.
    assert!(frame_fits_check(9, 0, 0, 0, 4, 0, false, false));
}

#[test]
fn rotation_ranges_are_checked() {
    assert!(rotation_fits(3, 2, identity_walk()));
    assert!(!rotation_fits(2, 3, identity_walk()));
    assert!(rotation_fits(5, 0, identity_walk()));
    let mut walk = identity_walk();
    walk.start_x = i32::MAX;
    assert!(!rotation_fits(3, 2, walk));
    let mut walk = identity_walk();
    walk.start_x = i32::MAX - 32768;
    walk.dx_src_x = 0;
    walk.dy_src_x = 0;
    assert!(rotation_fits(3, 2, walk));
    let mut walk = identity_walk();
    walk.dy_src_y = i32::MIN;
    assert!(!rotation_fits(3, 2, walk));
    assert!(!rotation_fits(0x8000_0000, 1, identity_walk()));
}

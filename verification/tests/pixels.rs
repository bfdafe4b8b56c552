use qr_screen::binary64::round_significand;
use qr_screen::pixels::{darken_bitmap, gray_of, grayscale, pixel_bytes, top_down_layout, BitmapLayout};

fn double_precision_gray(b: u8, g: u8, r: u8) -> u8 {
    (0.114 * b as f64 + 0.587 * g as f64 + 0.299 * r as f64) as u8
}

#[test]
fn layout_is_top_down_and_uncompressed() {
    assert_eq!(
        top_down_layout(640, 480),
        BitmapLayout { width: 640, height: -480, planes: 1, bit_count: 32, compression: 0 }
    );
}

#[test]
fn pixel_bytes_are_four_per_pixel() {
    assert_eq!(pixel_bytes(3, 5), 60);
    assert_eq!(pixel_bytes(0, 5), 0);
    assert_eq!(pixel_bytes(1920, 1080), 8_294_400);
}

#[test]
fn darkening_dims_colors_and_keeps_alpha() {
    let mut px = vec![255, 100, 10, 200, 0, 3, 4, 255];
    darken_bitmap(&mut px);
    assert_eq!(px, vec![76, 30, 3, 200, 0, 0, 1, 255]);
}

#[test]
fn darkening_leaves_an_incomplete_pixel() {
    let mut px = vec![255, 255, 255, 255, 90, 90, 90];
    darken_bitmap(&mut px);
    assert_eq!(px, vec![76, 76, 76, 255, 90, 90, 90]);
    let mut empty: Vec<u8> = Vec::new();
    darken_bitmap(&mut empty);
    assert!(empty.is_empty());
}

#[test]
fn gray_of_single_channels() {
    assert_eq!(gray_of(0, 0, 0), 0);
    assert_eq!(gray_of(255, 0, 0), 29);
    assert_eq!(gray_of(0, 255, 0), 149);
    assert_eq!(gray_of(0, 0, 255), 76);
    assert_eq!(gray_of(10, 20, 30), 21);
}

#[test]
fn gray_of_whole_sum_may_be_one_lower() {
    // 587 * 118 + 299 * 66 is 89000 thousandths.
    assert_eq!(gray_of(0, 118, 66), 88);
    assert_eq!(double_precision_gray(0, 118, 66), 88);
}

#[test]
fn gray_of_white_is_what_doubles_give() {
    assert_eq!(gray_of(255, 255, 255), double_precision_gray(255, 255, 255));
}

#[test]
fn gray_agrees_with_doubles_on_whole_sums() {
    for b in 0..=255u32 {
        for g in 0..=255u32 {
            for r in 0..=255u32 {
                if (114 * b + 587 * g + 299 * r) % 1000 == 0 {
                    let (b, g, r) = (b as u8, g as u8, r as u8);
                    assert_eq!(gray_of(b, g, r), double_precision_gray(b, g, r));
                }
            }
        }
    }
}

#[test]
fn gray_agrees_with_doubles_on_a_lattice() {
    for b in (0..=255u16).step_by(5) {
        for g in (0..=255u16).step_by(3) {
            for r in (0..=255u16).step_by(5) {
                let (b, g, r) = (b as u8, g as u8, r as u8);
                assert_eq!(gray_of(b, g, r), double_precision_gray(b, g, r));
            }
        }
    }
}

#[test]
fn gray_is_monotone_on_samples() {
    assert!(gray_of(10, 20, 30) <= gray_of(11, 20, 30));
    assert!(gray_of(10, 20, 30) <= gray_of(10, 21, 30));
    assert!(gray_of(10, 20, 30) <= gray_of(10, 20, 31));
}

#[test]
fn grayscale_takes_whole_pixels() {
    let px = vec![255, 0, 0, 1, 0, 255, 0, 2, 0, 0, 255, 3, 9, 9];
    assert_eq!(grayscale(&px), vec![29, 149, 76]);
    assert!(grayscale(&vec![1, 2, 3]).is_empty());
}

#[test]
fn rounding_agrees_with_doubles() {
    let limit = 1u64 << 53;
    for n in [0, 1, limit - 1, limit, limit + 1, limit + 3, 2 * limit + 2, 2 * limit + 6, u64::MAX - 5000] {
        assert_eq!(round_significand(n), n as f64 as u64);
    }
    assert_eq!(round_significand(limit + 1), limit);
    assert_eq!(round_significand(limit + 3), limit + 4);
}

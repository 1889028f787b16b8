use sprite_norm::pixels::PixelBuffer;
use sprite_norm::scan::{
    count_bottom_empty_rows, count_empty_padding, count_left_empty_columns,
    count_right_empty_columns, count_top_empty_rows, is_image_good, is_padding_zero,
};
use sprite_norm::trim::clean_image;
use sprite_norm::pad::optimize_image;
use sprite_norm::resize::resize_image;
use sprite_norm::pipeline::process_image;

/// A fully opaque white image.
fn opaque(width: u32, height: u32) -> PixelBuffer {
    let data = vec![255u8; (4 * width * height) as usize];
    PixelBuffer::from_raw(width, height, data).unwrap()
}

/// A transparent image with a fully opaque rectangle at (x0, y0) spanning
/// `rw` x `rh` pixels.
fn with_opaque_rect(width: u32, height: u32, x0: u32, y0: u32, rw: u32, rh: u32) -> PixelBuffer {
    let mut data = vec![0u8; (4 * width * height) as usize];
    for y in y0..y0 + rh {
        for x in x0..x0 + rw {
            let base = (4 * (y * width + x)) as usize;
            data[base] = 255;
            data[base + 1] = 255;
            data[base + 2] = 255;
            data[base + 3] = 255;
        }
    }
    PixelBuffer::from_raw(width, height, data).unwrap()
}

#[test]
fn check_test_image() {
    let test_image = opaque(5, 5);
    let empty = sprite_norm::padding::Padding::new(
        count_top_empty_rows(&test_image),
        count_bottom_empty_rows(&test_image),
        count_left_empty_columns(&test_image),
        count_right_empty_columns(&test_image),
    );

    assert_eq!(empty.top, 0);
    assert_eq!(empty.left, 0);
    assert_eq!(empty.right, 0);
    assert_eq!(empty.bottom, 0);
}

#[test]
fn clean_test_image() {
    let test_image = opaque(5, 5);

    let test_image = clean_image(test_image);
    let empty = count_empty_padding(&test_image);

    assert_eq!(empty.top, 0);
    assert_eq!(empty.left, 0);
    assert_eq!(empty.right, 0);
    assert_eq!(empty.bottom, 0);
}

#[test]
fn optimize_test_image() {
    let test_image = opaque(5, 5);

    let test_image = optimize_image(test_image);
    let empty = count_empty_padding(&test_image);

    assert_eq!(empty.top, 1);
    assert_eq!(empty.left, 1);
    assert_eq!(empty.right, 2);
    assert_eq!(empty.bottom, 2);
}

#[test]
fn clean_ball_image() {
    let ball_image = with_opaque_rect(242, 242, 2, 2, 238, 238);

    let empty = count_empty_padding(&ball_image);
    assert_eq!(is_image_good(&ball_image, &empty), false);
    assert_eq!(is_padding_zero(&empty), false);

    let ball_image = clean_image(ball_image);
    let empty = count_empty_padding(&ball_image);

    assert_eq!(is_padding_zero(&empty), true);
}

#[test]
fn clean_and_optimize_ball_image() {
    let ball_image = with_opaque_rect(242, 242, 2, 2, 238, 238);

    let ball_image = clean_image(ball_image);
    let ball_image = optimize_image(ball_image);
    let empty = count_empty_padding(&ball_image);

    assert_eq!(is_image_good(&ball_image, &empty), true);
}

#[test]
fn resize_ball_image() {
    let ball_image = with_opaque_rect(242, 242, 2, 2, 238, 238);

    let ball_image = clean_image(ball_image);
    let empty = count_empty_padding(&ball_image);
    assert_eq!(is_padding_zero(&empty), true);

    let ball_image = resize_image(ball_image, 238);
    assert_eq!(ball_image.width, 238);
    assert_eq!(ball_image.height, 238);

    let empty = count_empty_padding(&ball_image);
    assert_eq!(is_padding_zero(&empty), true);

    let ball_image = optimize_image(ball_image);
    let empty = count_empty_padding(&ball_image);
    assert_eq!(is_image_good(&ball_image, &empty), true);
    assert_eq!(ball_image.width, 240);
    assert_eq!(ball_image.height, 240);
}

#[test]
fn pad_eight_by_eight_opaque() {
    let image = optimize_image(opaque(8, 8));
    assert_eq!(image.width % 4, 0);
    assert_eq!(image.height % 4, 0);
    assert_eq!(image.width, 12);
    assert_eq!(image.height, 12);
    let empty = count_empty_padding(&image);
    assert!((1..=3).contains(&empty.top));
    assert!((1..=3).contains(&empty.bottom));
    assert!((1..=3).contains(&empty.left));
    assert!((1..=3).contains(&empty.right));
    assert!(is_image_good(&image, &empty));
}

#[test]
fn pad_lands_on_multiple_of_4_across_residues() {
    for width in 5..=12u32 {
        for height in 5..=12u32 {
            let image = optimize_image(opaque(width, height));
            assert_eq!(image.width % 4, 0);
            assert_eq!(image.height % 4, 0);
        }
    }
}

#[test]
fn resize_wide_image_long_edge_exact() {
    let image = resize_image(opaque(100, 30), 50);
    assert_eq!(image.width, 50);
    assert_eq!(image.height, 15);
    assert_eq!(image.data.len(), 4 * 50 * 15);
}

#[test]
fn resize_tall_image_long_edge_exact() {
    let image = resize_image(opaque(30, 100), 50);
    assert_eq!(image.width, 15);
    assert_eq!(image.height, 50);
}

#[test]
fn resize_never_below_two() {
    let image = resize_image(opaque(1000, 2), 10);
    assert_eq!(image.width, 10);
    assert_eq!(image.height, 2);
}

#[test]
fn resample_produces_new_dimensions() {
    let image = resize_image(opaque(8, 8), 4);
    assert_eq!(image.width, 4);
    assert_eq!(image.height, 4);
    assert_eq!(image.data.len(), 64);
}

#[test]
fn trim_fully_transparent_is_noop() {
    let image = PixelBuffer::from_raw(6, 4, vec![0u8; 4 * 6 * 4]).unwrap();
    let trimmed = clean_image(image);
    assert_eq!(trimmed.width, 6);
    assert_eq!(trimmed.height, 4);
    assert_eq!(trimmed.data, vec![0u8; 4 * 6 * 4]);
}

#[test]
fn trim_good_image_is_identity() {
    let image = with_opaque_rect(12, 12, 2, 2, 8, 8);
    let reference = with_opaque_rect(12, 12, 2, 2, 8, 8);
    let empty = count_empty_padding(&image);
    assert!(is_image_good(&image, &empty));
    let trimmed = clean_image(image);
    assert_eq!(trimmed.width, reference.width);
    assert_eq!(trimmed.height, reference.height);
    assert_eq!(trimmed.data, reference.data);
}

#[test]
fn trim_twice_equals_trim_once() {
    let once = clean_image(with_opaque_rect(10, 10, 4, 4, 2, 2));
    let empty = count_empty_padding(&once);
    assert!(is_padding_zero(&empty));
    let twice = clean_image(clean_image(with_opaque_rect(10, 10, 4, 4, 2, 2)));
    assert_eq!(once.width, twice.width);
    assert_eq!(once.height, twice.height);
    assert_eq!(once.data, twice.data);
}

#[test]
fn trim_out_of_range_border_crops_fully() {
    let image = with_opaque_rect(12, 12, 5, 5, 1, 1);
    let trimmed = clean_image(image);
    assert_eq!(trimmed.width, 1);
    assert_eq!(trimmed.height, 1);
    let empty = count_empty_padding(&trimmed);
    assert!(is_padding_zero(&empty));
}

#[test]
fn from_raw_rejects_wrong_length() {
    assert!(PixelBuffer::from_raw(2, 2, vec![0u8; 15]).is_none());
    assert!(PixelBuffer::from_raw(2, 2, vec![0u8; 16]).is_some());
}

#[test]
fn pipeline_downsize_238_by_201() {
    let image = opaque(238, 201);
    let result = process_image(image, true, Some(238));
    assert_eq!(result.width, 240);
    assert_eq!(result.height, 204);
    assert_eq!(result.width % 4, 0);
    assert_eq!(result.height % 4, 0);
    let empty = count_empty_padding(&result);
    assert!((1..=3).contains(&empty.top));
    assert!((1..=3).contains(&empty.bottom));
    assert!((1..=3).contains(&empty.left));
    assert!((1..=3).contains(&empty.right));
    assert!(is_image_good(&result, &empty));
}

#[test]
fn pipeline_without_downsize_only_trims_and_pads() {
    let image = with_opaque_rect(10, 10, 4, 4, 2, 2);
    let result = process_image(image, false, None);
    assert_eq!(result.width, 4);
    assert_eq!(result.height, 4);
    let empty = count_empty_padding(&result);
    assert!(is_image_good(&result, &empty));
}

#[test]
fn pipeline_downsize_within_bound_is_noop_resize() {
    let image = opaque(100, 100);
    let result = process_image(image, true, Some(104));
    assert_eq!(result.width, 104);
    assert_eq!(result.height, 104);
}

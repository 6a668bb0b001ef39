use framepix::buffer::{Color, Error, Margin, PixelBuffer};
use framepix::corners::draw_round_corners;
use framepix::crop::crop;

fn sample_value(x: usize, y: usize, c: usize) -> u8 {
    if c == 3 {
        255
    } else {
        ((x * 7 + y * 13 + c * 31) % 251) as u8
    }
}

fn sample_color(x: usize, y: usize) -> Color {
    Color::new(
        sample_value(x, y, 0),
        sample_value(x, y, 1),
        sample_value(x, y, 2),
        sample_value(x, y, 3),
    )
}

fn patterned(width: usize, height: usize) -> PixelBuffer {
    let mut buf = PixelBuffer::new(width, height);
    for y in 0..height {
        for x in 0..width {
            buf.put_pixel(x, y, sample_color(x, y));
        }
    }
    buf
}

#[test]
fn should_crop() {
    let image = patterned(12, 9);
    let (width, height) = (image.width, image.height);

    let cropped = crop(image, &Margin::new(1, 1, 1, 1)).unwrap();

    assert_eq!(cropped.width, width - 2);
    assert_eq!(cropped.height, height - 2);
}

#[test]
fn should_round_corners() {
    let mut image = patterned(100, 100);
    let fill_color = Color::new(0xff, 0xff, 0xff, 0xff);
    let radius = 10;

    draw_round_corners(&mut image, &fill_color, radius).unwrap();

    assert_eq!(image.get_pixel(0, 0), fill_color);
    assert_eq!(image.get_pixel(99, 0), fill_color);
    assert_eq!(image.get_pixel(0, 99), fill_color);
    assert_eq!(image.get_pixel(99, 99), fill_color);
    assert_eq!(image.get_pixel(50, 50), sample_color(50, 50));
}

#[test]
fn crop_10x10_margin_one_yields_8x8() {
    let image = patterned(10, 10);
    let origin_source = sample_color(1, 1);

    let cropped = crop(image, &Margin::new(1, 1, 1, 1)).unwrap();

    assert_eq!(cropped.width, 8);
    assert_eq!(cropped.height, 8);
    assert_eq!(cropped.get_pixel(0, 0), origin_source);
}

#[test]
fn crop_copies_shifted_pixels() {
    let image = patterned(7, 5);
    let margin = Margin::new(2, 1, 1, 0);

    let cropped = crop(image, &margin).unwrap();

    assert_eq!(cropped.width, 4);
    assert_eq!(cropped.height, 4);
    for y in 0..cropped.height {
        for x in 0..cropped.width {
            assert_eq!(cropped.get_pixel(x, y), sample_color(x + 2, y + 1));
        }
    }
}

#[test]
fn crop_rejects_wide_margin() {
    let image = patterned(10, 10);
    assert!(matches!(crop(image, &Margin::new(6, 0, 4, 0)), Err(Error::InvalidMargin)));
}

#[test]
fn crop_rejects_tall_margin() {
    let image = patterned(10, 10);
    assert!(matches!(crop(image, &Margin::new(0, 5, 0, 5)), Err(Error::InvalidMargin)));
}

#[test]
fn crop_rejects_empty_source() {
    let image = PixelBuffer::new(0, 5);
    assert!(matches!(crop(image, &Margin::new(0, 0, 0, 0)), Err(Error::InvalidMargin)));
}

#[test]
fn round_corners_100x100_radius_10() {
    let mut image = patterned(100, 100);
    let fill = Color::new(255, 255, 255, 255);

    draw_round_corners(&mut image, &fill, 10).unwrap();

    assert_eq!(image.get_pixel(0, 0), fill);
    assert_eq!(image.get_pixel(50, 50), sample_color(50, 50));
}

#[test]
fn round_corners_leaves_pixels_outside_squares() {
    let mut image = patterned(100, 100);
    let fill = Color::new(1, 2, 3, 4);

    draw_round_corners(&mut image, &fill, 10).unwrap();

    assert_eq!(image.get_pixel(50, 0), sample_color(50, 0));
    assert_eq!(image.get_pixel(0, 50), sample_color(0, 50));
    assert_eq!(image.get_pixel(99, 50), sample_color(99, 50));
    assert_eq!(image.get_pixel(50, 99), sample_color(50, 99));
    assert_eq!(image.get_pixel(10, 10), sample_color(10, 10));
}

#[test]
fn round_corners_circle_membership() {
    let mut image = patterned(100, 100);
    let fill = Color::new(9, 9, 9, 9);

    draw_round_corners(&mut image, &fill, 10).unwrap();

    // Top-left square, reference point (10, 10).
    // (2, 2): squared distance 64 + 64 = 128 >= 100, painted.
    assert_eq!(image.get_pixel(2, 2), fill);
    // (3, 3): squared distance 49 + 49 = 98 < 100, untouched.
    assert_eq!(image.get_pixel(3, 3), sample_color(3, 3));
    // (9, 9): squared distance 1 + 1 = 2 < 100, untouched.
    assert_eq!(image.get_pixel(9, 9), sample_color(9, 9));
    // Top-right square, reference point (90, 10).
    // (99, 0): squared distance 81 + 100 = 181 >= 100, painted.
    assert_eq!(image.get_pixel(99, 0), fill);
    // (90, 9): squared distance 0 + 1 = 1 < 100, untouched.
    assert_eq!(image.get_pixel(90, 9), sample_color(90, 9));
    // Bottom-left square, reference point (10, 90).
    // (0, 99): squared distance 100 + 81 = 181 >= 100, painted.
    assert_eq!(image.get_pixel(0, 99), fill);
    // Bottom-right square, reference point (90, 90).
    // (97, 97): squared distance 49 + 49 = 98 < 100, untouched.
    assert_eq!(image.get_pixel(97, 97), sample_color(97, 97));
}

#[test]
fn round_corners_rejects_large_radius() {
    let mut image = patterned(20, 30);

    let result = draw_round_corners(&mut image, &Color::new(0, 0, 0, 0), 11);

    assert_eq!(result, Err(Error::InvalidRadius));
    for y in 0..30 {
        for x in 0..20 {
            assert_eq!(image.get_pixel(x, y), sample_color(x, y));
        }
    }
}

#[test]
fn round_corners_radius_zero_is_identity() {
    let mut image = patterned(10, 10);

    draw_round_corners(&mut image, &Color::new(7, 7, 7, 7), 0).unwrap();

    for y in 0..10 {
        for x in 0..10 {
            assert_eq!(image.get_pixel(x, y), sample_color(x, y));
        }
    }
}

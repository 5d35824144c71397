use ray_tracer::canvas::Canvas;
use ray_tracer::ppm::{push_decimal, push_signed_decimal, rgb_text};

#[test]
fn new_canvas_is_filled() {
    let c = Canvas::new(3, 2, [7u8, 8, 9]);
    assert_eq!(c.width, 3);
    assert_eq!(c.height, 2);
    assert_eq!(c.pixels.len(), 3);
    for column in &c.pixels {
        assert_eq!(column, &vec![[7u8, 8, 9], [7u8, 8, 9]]);
    }
}

#[test]
fn new_canvas_with_negative_size_is_empty() {
    let c = Canvas::new(-4, 5, 0u32);
    assert!(c.pixels.is_empty());
    let d = Canvas::new(2, 0, 0u32);
    assert_eq!(d.pixels, vec![Vec::<u32>::new(), Vec::new()]);
}

#[test]
fn ppm_has_header_and_one_line_per_row() {
    let c = Canvas::new(2, 1, [255u8, 128, 0]);
    assert_eq!(c.to_ppm(), "P3\n2 1\n255\n255 128 0  255 128 0 \n");
    let c = Canvas::new(1, 3, [0u8, 0, 0]);
    assert_eq!(c.to_ppm(), "P3\n1 3\n255\n0 0 0 \n0 0 0 \n0 0 0 \n");
}

#[test]
fn ppm_writes_pixels_in_row_major_order() {
    let mut c = Canvas::new(3, 2, [0u8, 0, 0]);
    for x in 0..3 {
        for y in 0..2 {
            c.pixels[x][y] = [(1 + x + 3 * y) as u8, 0, 0];
        }
    }
    assert_eq!(
        c.to_ppm(),
        "P3\n3 2\n255\n1 0 0  2 0 0  3 0 0 \n4 0 0  5 0 0  6 0 0 \n"
    );
}

#[test]
fn ppm_of_empty_canvas_is_header_only() {
    let c = Canvas::new(0, -3, [1u8, 2, 3]);
    assert_eq!(c.to_ppm(), "P3\n0 -3\n255\n");
    let c = Canvas::new(0, 2, [1u8, 2, 3]);
    assert_eq!(c.to_ppm(), "P3\n0 2\n255\n\n\n");
}

#[test]
fn ppm_wraps_lines_past_seventy_characters() {
    let c = Canvas::new(6, 1, [255u8, 255, 255]);
    assert_eq!(
        c.to_ppm(),
        "P3\n6 1\n255\n255 255 255  255 255 255  255 255 255  255 255 255  255 255 255  \n255 255 255 \n"
    );
}

#[test]
fn ppm_keeps_short_pixels_on_one_line() {
    let c = Canvas::new(7, 1, [0u8, 0, 0]);
    assert_eq!(
        c.to_ppm(),
        "P3\n7 1\n255\n0 0 0  0 0 0  0 0 0  0 0 0  0 0 0  0 0 0  0 0 0 \n"
    );
}

#[test]
fn rgb_text_writes_decimal_channels() {
    assert_eq!(rgb_text([255, 0, 51]), "255 0 51");
    assert_eq!(rgb_text([0, 0, 0]), "0 0 0");
    assert_eq!(rgb_text([9, 10, 100]), "9 10 100");
}

#[test]
fn decimal_text_of_integers() {
    let mut s = String::from("x=");
    push_decimal(&mut s, 0);
    assert_eq!(s, "x=0");
    let mut s = String::new();
    push_decimal(&mut s, 4294967295);
    assert_eq!(s, "4294967295");
    let mut s = String::new();
    push_signed_decimal(&mut s, -2147483648);
    assert_eq!(s, "-2147483648");
    let mut s = String::new();
    push_signed_decimal(&mut s, 1000);
    assert_eq!(s, "1000");
}

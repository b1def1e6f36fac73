use rayrs::color::Pixel;
use rayrs::image::{ppm_from_rows, ppm_image, push_decimal, push_pixel_line, push_ppm_header};

fn px(r: u8, g: u8, b: u8) -> Pixel {
    Pixel { r, g, b }
}

#[test]
fn decimal_digits() {
    for (n, text) in [
        (0u32, "0"),
        (7, "7"),
        (10, "10"),
        (42, "42"),
        (255, "255"),
        (1200, "1200"),
        (4294967295, "4294967295"),
    ] {
        let mut out: Vec<u8> = Vec::new();
        push_decimal(&mut out, n);
        assert_eq!(out, text.as_bytes().to_vec());
    }
}

#[test]
fn decimal_appends_after_existing_bytes() {
    let mut out: Vec<u8> = b"x".to_vec();
    push_decimal(&mut out, 675);
    assert_eq!(out, b"x675".to_vec());
}

#[test]
fn pixel_line_bytes() {
    let mut out: Vec<u8> = Vec::new();
    push_pixel_line(&mut out, px(12, 0, 255));
    assert_eq!(out, b"12 0 255\n".to_vec());
}

#[test]
fn header_bytes() {
    let mut out: Vec<u8> = Vec::new();
    push_ppm_header(&mut out, 1200, 675);
    assert_eq!(out, b"P3\n1200 675\n255\n\n".to_vec());
}

#[test]
fn image_document_in_row_major_order() {
    let pixels = vec![px(1, 2, 3), px(4, 5, 6), px(7, 8, 9), px(10, 11, 12)];
    let out = ppm_image(2, 2, &pixels);
    assert_eq!(out, b"P3\n2 2\n255\n\n1 2 3\n4 5 6\n7 8 9\n10 11 12\n".to_vec());
}

#[test]
fn empty_image_is_header_only() {
    let pixels: Vec<Pixel> = Vec::new();
    let out = ppm_image(3, 0, &pixels);
    assert_eq!(out, b"P3\n3 0\n255\n\n".to_vec());
}

#[test]
fn rows_assemble_to_the_same_document() {
    let rows = vec![
        vec![px(1, 2, 3), px(4, 5, 6)],
        vec![px(7, 8, 9), px(10, 11, 12)],
        vec![px(0, 0, 0), px(255, 255, 255)],
    ];
    let mut flat: Vec<Pixel> = Vec::new();
    for row in rows.iter() {
        for p in row.iter() {
            flat.push(*p);
        }
    }
    assert_eq!(ppm_from_rows(2, 3, &rows), ppm_image(2, 3, &flat));
}

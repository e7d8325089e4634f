use raybow::decimal::{push_decimal, push_decimal_text};
use raybow::output_formats::ppm::{rgb_to_ascii_ppm, rgb_to_binary_ppm, PixelText, Rgb8};
use raybow::output_formats::ExportError;

fn px(r: u8, g: u8, b: u8) -> Rgb8 {
    Rgb8 { r, g, b }
}

fn text(r: &str, g: &str, b: &str) -> PixelText {
    PixelText {
        r: r.to_string(),
        g: g.to_string(),
        b: b.to_string(),
    }
}

#[test]
fn binary_header_for_two_by_two_image() {
    let pixels = vec![px(255, 0, 0), px(0, 255, 0), px(0, 0, 255), px(10, 20, 30)];
    let bytes = rgb_to_binary_ppm(&pixels, 2, 2).unwrap();
    let header = b"P6\n2 2\n255\n";
    assert_eq!(&bytes[..header.len()], &header[..]);
    assert_eq!(bytes.len(), header.len() + 12);
    assert_eq!(
        &bytes[header.len()..],
        &[255, 0, 0, 0, 255, 0, 0, 0, 255, 10, 20, 30][..]
    );
}

#[test]
fn binary_writes_exactly_the_image() {
    let pixels = vec![px(1, 2, 3), px(4, 5, 6), px(7, 8, 9)];
    let bytes = rgb_to_binary_ppm(&pixels, 1, 2).unwrap();
    let mut expected = b"P6\n1 2\n255\n".to_vec();
    expected.extend_from_slice(&[1, 2, 3, 4, 5, 6]);
    assert_eq!(bytes.len(), 11 + 6);
    assert_eq!(bytes, expected);
}

#[test]
fn binary_empty_image_is_header_only() {
    let bytes = rgb_to_binary_ppm(&[], 0, 7).unwrap();
    assert_eq!(bytes, b"P6\n0 7\n255\n".to_vec());
}

#[test]
fn binary_multi_digit_sizes() {
    let pixels = vec![px(0, 0, 0); 1280 * 10];
    let bytes = rgb_to_binary_ppm(&pixels, 1280, 10).unwrap();
    let header = b"P6\n1280 10\n255\n";
    assert_eq!(&bytes[..header.len()], &header[..]);
    assert_eq!(bytes.len(), header.len() + 3 * 1280 * 10);
}

#[test]
fn binary_too_few_pixels_is_an_error() {
    let pixels = vec![px(1, 1, 1); 3];
    let result = rgb_to_binary_ppm(&pixels, 2, 2);
    assert_eq!(result, Err(ExportError::SizeExceedsData(2, 2, 3)));
}

#[test]
fn binary_overflowing_size_is_an_error() {
    let pixels = vec![px(1, 1, 1)];
    let result = rgb_to_binary_ppm(&pixels, usize::MAX, 2);
    assert_eq!(result, Err(ExportError::SizeExceedsData(usize::MAX, 2, 1)));
}

#[test]
fn error_message_names_the_figures() {
    let error = ExportError::SizeExceedsData(2, 3, 5);
    assert_eq!(
        error.message(),
        "PPMError: Promised size (2x3=6) exceeds the actual data (5)"
    );
}

#[test]
fn error_message_with_large_product() {
    let error = ExportError::SizeExceedsData(usize::MAX, 2, 0);
    let product = (usize::MAX as u128) * 2;
    assert_eq!(
        error.message(),
        format!(
            "PPMError: Promised size ({}x2={}) exceeds the actual data (0)",
            usize::MAX,
            product
        )
    );
}

#[test]
fn ascii_layout() {
    let pixels = vec![text("255", "0", "127.5"), text("1", "2", "3")];
    let bytes = rgb_to_ascii_ppm(&pixels, 2, 1).unwrap();
    assert_eq!(
        String::from_utf8(bytes).unwrap(),
        "P3\n2 1\n255\n255 0 127.5\n1 2 3"
    );
}

#[test]
fn ascii_empty_image_is_header_only() {
    let bytes = rgb_to_ascii_ppm(&[], 0, 0).unwrap();
    assert_eq!(String::from_utf8(bytes).unwrap(), "P3\n0 0\n255\n");
}

#[test]
fn ascii_too_few_pixels_is_an_error() {
    let pixels = vec![text("0", "0", "0")];
    let result = rgb_to_ascii_ppm(&pixels, 1, 2);
    assert_eq!(result, Err(ExportError::SizeExceedsData(1, 2, 1)));
}

#[test]
fn decimal_bytes() {
    let mut out = b"n=".to_vec();
    push_decimal(&mut out, 0);
    assert_eq!(out, b"n=0".to_vec());
    let mut out = Vec::new();
    push_decimal(&mut out, 10);
    assert_eq!(out, b"10".to_vec());
    let mut out = Vec::new();
    push_decimal(&mut out, u128::MAX);
    assert_eq!(out, u128::MAX.to_string().into_bytes());
}

#[test]
fn decimal_text() {
    let mut out = String::from("size ");
    push_decimal_text(&mut out, 255);
    assert_eq!(out, "size 255");
    let mut out = String::new();
    push_decimal_text(&mut out, 1_000_000_007);
    assert_eq!(out, "1000000007");
}

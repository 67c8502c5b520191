use rplace::canvas::{Canvas, OutOfBounds};
use rplace::codec::InvalidColor;
use rplace::ops::{information, is_authorized, set_pixel, BadAuth, ColorJson, SetPixelError};
use rplace::raster::{encode, render_png};

fn decode(bytes: &[u8]) -> (png::OutputInfo, Vec<u8>) {
    let decoder = png::Decoder::new(std::io::Cursor::new(bytes));
    let mut reader = decoder.read_info().expect("valid PNG header");
    let mut buf = vec![0u8; reader.output_buffer_size().expect("sane buffer size")];
    let info = reader.next_frame(&mut buf).expect("valid PNG frame");
    buf.truncate(info.buffer_size());
    (info, buf)
}

#[test]
fn all_zero_canvas_encodes_to_an_all_black_truecolor_png() {
    let canvas = Canvas::new(64, 64);
    let stream = render_png(&canvas).expect("encoding succeeds");
    let (info, pixels) = decode(&stream);
    assert_eq!(info.width, 64);
    assert_eq!(info.height, 64);
    assert_eq!(info.color_type, png::ColorType::Rgb);
    assert_eq!(info.bit_depth, png::BitDepth::Eight);
    assert_eq!(pixels.len(), 64 * 64 * 3);
    assert!(pixels.iter().all(|&b| b == 0));
}

#[test]
fn encoded_stream_opens_with_the_png_signature_and_header() {
    let canvas = Canvas::new(64, 64);
    let stream = render_png(&canvas).expect("encoding succeeds");
    assert!(stream.len() >= 33);
    assert_eq!(&stream[0..8], &[137, 80, 78, 71, 13, 10, 26, 10]);
    assert_eq!(&stream[8..16], &[0, 0, 0, 13, 73, 72, 68, 82]);
    assert_eq!(&stream[16..24], &[0, 0, 0, 64, 0, 0, 0, 64]);
    assert_eq!(&stream[24..29], &[8, 2, 0, 0, 0]);
}

#[test]
fn encoded_header_carries_the_exact_dimensions() {
    let pixels = vec![7u8; 300 * 2 * 3];
    let stream = encode(300, 2, &pixels).expect("encoding succeeds");
    assert_eq!(&stream[16..24], &[0, 0, 1, 44, 0, 0, 0, 2]);
}

#[test]
fn encode_accepts_a_raw_buffer() {
    let pixels = vec![0u8; 3 * 3 * 3];
    let stream = encode(3, 3, &pixels).expect("encoding succeeds");
    let (info, decoded) = decode(&stream);
    assert_eq!(info.width, 3);
    assert_eq!(info.height, 3);
    assert_eq!(decoded, pixels);
}

#[test]
fn set_pixel_then_image_shows_the_pixel() {
    let secret = String::from("abc");
    let mut canvas = Canvas::new(64, 64);
    let query = ColorJson { color: String::from("ff0000") };
    let result = set_pixel(&mut canvas, 0, 0, &query, &String::from("abc"), &secret);
    assert_eq!(result, Ok(()));
    let stream = render_png(&canvas).expect("encoding succeeds");
    let (info, pixels) = decode(&stream);
    assert_eq!(info.width, 64);
    assert_eq!(info.height, 64);
    assert_eq!(&pixels[0..3], &[255, 0, 0]);
    assert!(pixels[3..].iter().all(|&b| b == 0));
}

#[test]
fn set_pixel_out_of_bounds_on_a_64_by_64_canvas() {
    let secret = String::from("abc");
    let mut canvas = Canvas::new(64, 64);
    let before = canvas.read();
    let query = ColorJson { color: String::from("ff0000") };
    let result = set_pixel(&mut canvas, 100, 0, &query, &String::from("abc"), &secret);
    assert_eq!(result, Err(SetPixelError::OutOfBounds(OutOfBounds)));
    assert_eq!(canvas.read(), before);
}

#[test]
fn set_pixel_rejects_a_malformed_color() {
    let secret = String::from("abc");
    let mut canvas = Canvas::new(64, 64);
    let before = canvas.read();
    let query = ColorJson { color: String::from("zzzzzz") };
    let result = set_pixel(&mut canvas, 0, 0, &query, &String::from("abc"), &secret);
    assert_eq!(result, Err(SetPixelError::InvalidColor(InvalidColor)));
    assert_eq!(canvas.read(), before);
}

#[test]
fn set_pixel_rejects_a_wrong_or_missing_credential() {
    let secret = String::from("abc");
    let mut canvas = Canvas::new(64, 64);
    let before = canvas.read();
    let query = ColorJson { color: String::from("ff0000") };
    let wrong = set_pixel(&mut canvas, 0, 0, &query, &String::from("nope"), &secret);
    assert_eq!(wrong, Err(SetPixelError::BadAuth(BadAuth)));
    let missing = set_pixel(&mut canvas, 0, 0, &query, &String::new(), &secret);
    assert_eq!(missing, Err(SetPixelError::BadAuth(BadAuth)));
    assert_eq!(canvas.read(), before);
}

#[test]
fn auth_check_is_exact_string_equality() {
    let secret = String::from("abc");
    assert!(is_authorized(&String::from("abc"), &secret));
    assert!(!is_authorized(&String::from("abc "), &secret));
    assert!(!is_authorized(&String::from("ABC"), &secret));
    assert!(!is_authorized(&String::new(), &secret));
}

#[test]
fn information_returns_the_welcome_message() {
    assert_eq!(information(), "Welcome to r/place but in Rust!");
}

use rplace::codec::{hex_to_rgb, offset_of, InvalidColor};

#[test]
fn parses_exact_color_values() {
    assert_eq!(hex_to_rgb("ff0000"), Ok((255, 0, 0)));
    assert_eq!(hex_to_rgb("000000"), Ok((0, 0, 0)));
    assert_eq!(hex_to_rgb("ffffff"), Ok((255, 255, 255)));
    assert_eq!(hex_to_rgb("a1b2c3"), Ok((0xa1, 0xb2, 0xc3)));
    assert_eq!(hex_to_rgb("123456"), Ok((0x12, 0x34, 0x56)));
}

#[test]
fn parsing_is_case_insensitive() {
    assert_eq!(hex_to_rgb("A1B2C3"), hex_to_rgb("a1b2c3"));
    assert_eq!(hex_to_rgb("DeAdBe"), Ok((0xde, 0xad, 0xbe)));
    assert_eq!(hex_to_rgb("FFFFFF"), Ok((255, 255, 255)));
}

#[test]
fn rejects_non_hex_characters() {
    assert_eq!(hex_to_rgb("zzzzzz"), Err(InvalidColor));
    assert_eq!(hex_to_rgb("ff00gg"), Err(InvalidColor));
    assert_eq!(hex_to_rgb("ff 000"), Err(InvalidColor));
    assert_eq!(hex_to_rgb("ff-000"), Err(InvalidColor));
}

#[test]
fn rejects_wrong_lengths() {
    assert_eq!(hex_to_rgb(""), Err(InvalidColor));
    assert_eq!(hex_to_rgb("fff"), Err(InvalidColor));
    assert_eq!(hex_to_rgb("fffff"), Err(InvalidColor));
    assert_eq!(hex_to_rgb("fffffff"), Err(InvalidColor));
    assert_eq!(hex_to_rgb("#ff0000"), Err(InvalidColor));
}

#[test]
fn rejects_non_ascii_input() {
    assert_eq!(hex_to_rgb("fffff\u{00e9}"), Err(InvalidColor));
    assert_eq!(hex_to_rgb("\u{0661}23456"), Err(InvalidColor));
}

#[test]
fn offsets_follow_row_major_layout() {
    assert_eq!(offset_of(0, 0, 64, 64), 0);
    assert_eq!(offset_of(1, 0, 64, 64), 3);
    assert_eq!(offset_of(0, 1, 64, 64), 192);
    assert_eq!(offset_of(63, 63, 64, 64), 64 * 64 * 3 - 3);
}

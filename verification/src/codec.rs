//! Pure translation between external representations and internal
//! offsets/values: coordinate-to-offset mapping and hex-color parsing.

use vstd::prelude::*;

verus! {

/// Malformed color string: not exactly six hexadecimal digits.
#[derive(Debug, PartialEq, Eq, Structural)]
pub struct InvalidColor;

/// Byte offset of pixel `(x, y)` in a row-major RGB buffer of width `width`.
pub open spec fn spec_offset_of(x: int, y: int, width: int) -> int {
    3 * (x + y * width)
}

/// An in-bounds pixel coordinate maps to an offset whose 3 bytes lie inside
/// a `width * height * 3` buffer.
pub proof fn lemma_offset_in_range(x: int, y: int, width: int, height: int)
    requires
        0 <= x < width,
        0 <= y < height,
    ensures
        0 <= spec_offset_of(x, y, width),
        spec_offset_of(x, y, width) + 3 <= 3 * width * height,
{
    assert(3 * (x + y * width) + 3 <= 3 * width * height) by (nonlinear_arith)
        requires
            0 <= x < width,
            0 <= y < height,
    ;
}

/// Distinct in-bounds coordinates map to offsets at least 3 bytes apart,
/// so their RGB triples never overlap.
pub proof fn lemma_offset_disjoint(x1: int, y1: int, x2: int, y2: int, width: int)
    requires
        0 <= x1 < width,
        0 <= x2 < width,
        0 <= y1,
        0 <= y2,
        !(x1 == x2 && y1 == y2),
    ensures
        spec_offset_of(x1, y1, width) + 3 <= spec_offset_of(x2, y2, width)
            || spec_offset_of(x2, y2, width) + 3 <= spec_offset_of(x1, y1, width),
{
    assert(x1 + y1 * width + 1 <= x2 + y2 * width || x2 + y2 * width + 1 <= x1 + y1 * width)
        by (nonlinear_arith)
        requires
            0 <= x1 < width,
            0 <= x2 < width,
            0 <= y1,
            0 <= y2,
            !(x1 == x2 && y1 == y2),
    ;
}

/// Byte offset of pixel `(x, y)`; the caller must already have
/// bounds-checked the coordinates.
pub fn offset_of(x: usize, y: usize, width: usize, height: usize) -> (i: usize)
    requires
        x < width,
        y < height,
        3 * width * height <= usize::MAX,
    ensures
        i == spec_offset_of(x as int, y as int, width as int),
{
    proof {
        lemma_offset_in_range(x as int, y as int, width as int, height as int);
    }
    3 * (x + y * width)
}

/// Whether `c` is a hexadecimal digit: `0-9`, `a-f` or `A-F`.
pub open spec fn spec_is_hex_digit(c: char) -> bool {
    ('0' as u32 <= c as u32 && c as u32 <= '9' as u32)
        || ('a' as u32 <= c as u32 && c as u32 <= 'f' as u32)
        || ('A' as u32 <= c as u32 && c as u32 <= 'F' as u32)
}

/// Numeric value of a hexadecimal digit, in `0..16`.
pub open spec fn spec_hex_val(c: char) -> u8
    recommends
        spec_is_hex_digit(c),
{
    if '0' as u32 <= c as u32 && c as u32 <= '9' as u32 {
        (c as u32 - '0' as u32) as u8
    } else if 'a' as u32 <= c as u32 && c as u32 <= 'f' as u32 {
        (c as u32 - 'a' as u32 + 10) as u8
    } else {
        (c as u32 - 'A' as u32 + 10) as u8
    }
}

/// A valid color string: exactly six hexadecimal digits, nothing else.
pub open spec fn spec_is_color(s: Seq<char>) -> bool {
    s.len() == 6 && (forall|i: int| 0 <= i < 6 ==> spec_is_hex_digit(#[trigger] s[i]))
}

/// Red channel of a valid color string: its first two digits.
pub open spec fn spec_red(s: Seq<char>) -> u8
    recommends
        spec_is_color(s),
{
    (16 * spec_hex_val(s[0]) + spec_hex_val(s[1])) as u8
}

/// Green channel of a valid color string: its middle two digits.
pub open spec fn spec_green(s: Seq<char>) -> u8
    recommends
        spec_is_color(s),
{
    (16 * spec_hex_val(s[2]) + spec_hex_val(s[3])) as u8
}

/// Blue channel of a valid color string: its last two digits.
pub open spec fn spec_blue(s: Seq<char>) -> u8
    recommends
        spec_is_color(s),
{
    (16 * spec_hex_val(s[4]) + spec_hex_val(s[5])) as u8
}

/// The 24-bit big-endian value a valid color string denotes.
pub open spec fn spec_color_value(s: Seq<char>) -> int
    recommends
        spec_is_color(s),
{
    0x10000 * spec_red(s) + 0x100 * spec_green(s) + spec_blue(s)
}

/// The channels are exactly the three bytes of the string's 24-bit value:
/// red is bits 16-23, green bits 8-15, blue bits 0-7.
pub proof fn lemma_color_value_split(s: Seq<char>)
    requires
        spec_is_color(s),
    ensures
        0 <= spec_color_value(s) < 0x1000000,
        spec_red(s) == spec_color_value(s) / 0x10000,
        spec_green(s) == (spec_color_value(s) / 0x100) % 0x100,
        spec_blue(s) == spec_color_value(s) % 0x100,
{
    assert forall|i: int| 0 <= i < 6 implies spec_hex_val(#[trigger] s[i]) < 16 by {
        lemma_hex_val_bound(s[i]);
    }
    let r = spec_red(s) as int;
    let g = spec_green(s) as int;
    let b = spec_blue(s) as int;
    let v = spec_color_value(s);
    assert(v == r * 0x10000 + (g * 0x100 + b));
    vstd::arithmetic::div_mod::lemma_fundamental_div_mod_converse(v, 0x10000, r, g * 0x100 + b);
    assert(v == (r * 0x100 + g) * 0x100 + b) by (nonlinear_arith)
        requires
            v == r * 0x10000 + g * 0x100 + b,
    ;
    vstd::arithmetic::div_mod::lemma_fundamental_div_mod_converse(v, 0x100, r * 0x100 + g, b);
    vstd::arithmetic::div_mod::lemma_fundamental_div_mod_converse(
        r * 0x100 + g,
        0x100,
        r,
        g,
    );
}

/// Numeric value of one hexadecimal digit, or `None` for any other character.
pub fn hex_digit_value(c: char) -> (r: Option<u8>)
    ensures
        r is Some <==> spec_is_hex_digit(c),
        r is Some ==> r->0 == spec_hex_val(c),
{
    let u = c as u32;
    if '0' as u32 <= u && u <= '9' as u32 {
        Some((u - '0' as u32) as u8)
    } else if 'a' as u32 <= u && u <= 'f' as u32 {
        Some((u - 'a' as u32 + 10) as u8)
    } else if 'A' as u32 <= u && u <= 'F' as u32 {
        Some((u - 'A' as u32 + 10) as u8)
    } else {
        None
    }
}

/// Parse a color string into an RGB triple.
///
/// Accepts only exactly-six-character strings of hexadecimal digits,
/// interpreted as a 24-bit big-endian integer split into three bytes; any
/// other input is rejected as `InvalidColor`. No leading `#`, no
/// three-character shorthand, no alpha channel.
pub fn hex_to_rgb(s: &str) -> (r: Result<(u8, u8, u8), InvalidColor>)
    ensures
        r is Ok <==> spec_is_color(s@),
        r is Ok ==> r->Ok_0 == (spec_red(s@), spec_green(s@), spec_blue(s@)),
{
    let n = s.unicode_len();
    if n != 6 {
        return Err(InvalidColor);
    }
    let d0 = hex_digit_value(s.get_char(0));
    let d1 = hex_digit_value(s.get_char(1));
    let d2 = hex_digit_value(s.get_char(2));
    let d3 = hex_digit_value(s.get_char(3));
    let d4 = hex_digit_value(s.get_char(4));
    let d5 = hex_digit_value(s.get_char(5));
    match (d0, d1, d2, d3, d4, d5) {
        (Some(a), Some(b), Some(c), Some(d), Some(e), Some(f)) => {
            proof {
                lemma_hex_val_bound(s@[0]);
                lemma_hex_val_bound(s@[1]);
                lemma_hex_val_bound(s@[2]);
                lemma_hex_val_bound(s@[3]);
                lemma_hex_val_bound(s@[4]);
                lemma_hex_val_bound(s@[5]);
            }
            Ok((16 * a + b, 16 * c + d, 16 * e + f))
        },
        _ => Err(InvalidColor),
    }
}

/// A hexadecimal digit's value is below 16.
pub proof fn lemma_hex_val_bound(c: char)
    requires
        spec_is_hex_digit(c),
    ensures
        spec_hex_val(c) < 16,
{
}

/// The lowercase counterpart of a character: `A-F` folded to `a-f`,
/// everything else unchanged.
pub open spec fn spec_lower_hex(c: char) -> char {
    if 'A' as u32 <= c as u32 && c as u32 <= 'F' as u32 {
        (c as u32 + 32) as char
    } else {
        c
    }
}

/// The lowercase hexadecimal digit denoting a value below 16.
pub open spec fn spec_hex_char(d: u8) -> char
    recommends
        d < 16,
{
    if d < 10 {
        (d + '0' as u32) as char
    } else {
        (d - 10 + 'a' as u32) as char
    }
}

/// The canonical (lowercase) six-digit hex string of an RGB triple.
pub open spec fn spec_rgb_to_hex(r: u8, g: u8, b: u8) -> Seq<char> {
    seq![
        spec_hex_char(r / 16),
        spec_hex_char(r % 16),
        spec_hex_char(g / 16),
        spec_hex_char(g % 16),
        spec_hex_char(b / 16),
        spec_hex_char(b % 16),
    ]
}

/// A value below 16 and its hexadecimal digit denote each other.
pub proof fn lemma_hex_char_val(d: u8)
    requires
        d < 16,
    ensures
        spec_is_hex_digit(spec_hex_char(d)),
        spec_hex_val(spec_hex_char(d)) == d,
{
}

/// Lowercasing a hexadecimal digit keeps it one and keeps its value, and
/// re-encoding a digit's value gives exactly its lowercase form.
pub proof fn lemma_lower_hex_val(c: char)
    requires
        spec_is_hex_digit(c),
    ensures
        spec_is_hex_digit(spec_lower_hex(c)),
        spec_hex_val(spec_lower_hex(c)) == spec_hex_val(c),
        spec_hex_char(spec_hex_val(c)) == spec_lower_hex(c),
{
}

/// Round trip, triple first: every RGB triple re-encodes as a valid color
/// string that parses back to exactly that triple. With the string-first
/// round trip below, `parseColor` is a bijection between canonical
/// lowercase color strings and RGB triples.
pub proof fn lemma_rgb_hex_round_trip(r: u8, g: u8, b: u8)
    ensures
        spec_is_color(spec_rgb_to_hex(r, g, b)),
        spec_red(spec_rgb_to_hex(r, g, b)) == r,
        spec_green(spec_rgb_to_hex(r, g, b)) == g,
        spec_blue(spec_rgb_to_hex(r, g, b)) == b,
{
    lemma_hex_char_val(r / 16);
    lemma_hex_char_val(r % 16);
    lemma_hex_char_val(g / 16);
    lemma_hex_char_val(g % 16);
    lemma_hex_char_val(b / 16);
    lemma_hex_char_val(b % 16);
}

/// Round trip, string first: re-encoding the triple a valid color string
/// parses to reproduces the string up to letter case — its lowercase
/// folding, exactly.
pub proof fn lemma_hex_rgb_round_trip(s: Seq<char>)
    requires
        spec_is_color(s),
    ensures
        spec_rgb_to_hex(spec_red(s), spec_green(s), spec_blue(s)) == s.map_values(
            |c: char| spec_lower_hex(c),
        ),
{
    let t = s.map_values(|c: char| spec_lower_hex(c));
    assert forall|i: int| 0 <= i < 6 implies spec_is_hex_digit(#[trigger] s[i])
        && spec_hex_val(s[i]) < 16 by {
        lemma_hex_val_bound(s[i]);
    }
    lemma_lower_hex_val(s[0]);
    lemma_lower_hex_val(s[1]);
    lemma_lower_hex_val(s[2]);
    lemma_lower_hex_val(s[3]);
    lemma_lower_hex_val(s[4]);
    lemma_lower_hex_val(s[5]);
    assert(spec_rgb_to_hex(spec_red(s), spec_green(s), spec_blue(s)) =~= t);
}

} // verus!

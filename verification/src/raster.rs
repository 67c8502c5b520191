//! The raster encoder: renders the canvas buffer as a truecolor PNG byte
//! stream, through the mtpng encoder.

use vstd::prelude::*;
use crate::canvas::Canvas;

verus! {

/// The raster encoder failed; the canvas itself is unaffected.
#[derive(Debug, PartialEq, Eq, Structural)]
pub struct EncodeError;

/// The four big-endian bytes of a 32-bit value.
pub open spec fn spec_be32(v: int) -> Seq<u8> {
    seq![
        ((v / 0x1000000) % 0x100) as u8,
        ((v / 0x10000) % 0x100) as u8,
        ((v / 0x100) % 0x100) as u8,
        (v % 0x100) as u8,
    ]
}

/// The fixed opening every stream the encoder produces carries: the 8-byte
/// PNG signature, then the IHDR chunk — its 13-byte length and tag, width
/// and height big-endian, bit depth 8, color type 2 (truecolor), and
/// compression, filter and interlace method 0. The chunk's closing 4 CRC
/// bytes bring the prefix to 33 bytes; their value is not pinned here.
pub open spec fn spec_png_header(stream: Seq<u8>, width: int, height: int) -> bool {
    &&& stream.len() >= 33
    &&& stream.subrange(0, 8) == seq![137u8, 80u8, 78u8, 71u8, 13u8, 10u8, 26u8, 10u8]
    &&& stream.subrange(8, 12) == seq![0u8, 0u8, 0u8, 13u8]
    &&& stream.subrange(12, 16) == seq![73u8, 72u8, 68u8, 82u8]
    &&& stream.subrange(16, 20) == spec_be32(width)
    &&& stream.subrange(20, 24) == spec_be32(height)
    &&& stream[24] == 8u8
    &&& stream[25] == 2u8
    &&& stream[26] == 0u8
    &&& stream[27] == 0u8
    &&& stream[28] == 0u8
}

/// Relies on mtpng's encoder pipeline — `Header::set_size` and `set_color`
/// (which accept any non-zero dimensions and `Truecolor` at depth 8),
/// `Encoder::write_header`, `write_image_rows` and `finish` — writing a
/// complete PNG stream into the `Vec<u8>` sink: first the fixed signature
/// and IHDR bytes of `spec_png_header`, then the image data. The compressed
/// body is produced by zlib, so beyond that prefix the stream's bytes are
/// not a function of the pixels alone; nothing more is claimed of them.
/// Every error is reported, never panicked on: the bound on `24 * width`
/// keeps the encoder's row-stride arithmetic, which unwraps a checked
/// multiplication of the bits per row, from overflowing `usize`.
#[verifier::external_body]
fn mtpng_encode(width: u32, height: u32, pixels: &Vec<u8>) -> (r: Result<Vec<u8>, ()>)
    requires
        1 <= width,
        1 <= height,
        24 * width <= usize::MAX,
        pixels@.len() == 3 * width * height,
    ensures
        r is Ok ==> spec_png_header(r->Ok_0@, width as int, height as int),
{
    let mut header = mtpng::Header::new();
    header.set_size(width, height).map_err(|_| ())?;
    header.set_color(mtpng::ColorType::Truecolor, 8).map_err(|_| ())?;
    let options = mtpng::encoder::Options::new();
    let mut encoder = mtpng::encoder::Encoder::new(Vec::new(), &options);
    encoder.write_header(&header).map_err(|_| ())?;
    encoder.write_image_rows(pixels.as_slice()).map_err(|_| ())?;
    encoder.finish().map_err(|_| ())
}

/// Encode a row-major RGB buffer of exactly `width * height * 3` bytes as a
/// truecolor 8-bit-per-channel PNG with the given dimensions, row `y`'s
/// pixels appearing in order `x = 0..width`. A successful stream opens with
/// the signature and IHDR bytes of `spec_png_header`; an encoder-internal
/// failure is reported as `EncodeError`.
pub fn encode(width: u32, height: u32, pixels: &Vec<u8>) -> (r: Result<Vec<u8>, EncodeError>)
    requires
        1 <= width,
        1 <= height,
        24 * width <= usize::MAX,
        pixels@.len() == 3 * width * height,
    ensures
        r is Ok ==> spec_png_header(r->Ok_0@, width as int, height as int),
{
    match mtpng_encode(width, height, pixels) {
        Ok(stream) => Ok(stream),
        Err(()) => Err(EncodeError),
    }
}

/// Render the current canvas state as a PNG image, suitable for direct
/// delivery as an image response. A successful stream opens with the
/// signature and IHDR bytes of `spec_png_header`, carrying the canvas's
/// dimensions. A canvas too wide for the encoder's row-stride arithmetic is
/// reported as an encoding failure, not attempted.
pub fn render_png(canvas: &Canvas) -> (r: Result<Vec<u8>, EncodeError>)
    requires
        canvas.wf(),
    ensures
        r is Ok ==> spec_png_header(r->Ok_0@, canvas.spec_width(), canvas.spec_height()),
        24 * canvas.spec_width() > usize::MAX ==> r is Err,
{
    let width = canvas.width();
    if width > usize::MAX / 24 {
        return Err(EncodeError);
    }
    let pixels = canvas.read();
    encode(width as u32, canvas.height() as u32, &pixels)
}

} // verus!

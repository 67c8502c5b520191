//! The operations the core exposes to the request router: the static
//! credential check and the authenticated pixel mutation. Transport-level
//! concerns (routing, status codes, JSON framing) stay outside the core.

use vstd::prelude::*;
use vstd::string::StringExecFns;
use crate::canvas::{Canvas, OutOfBounds, spec_write_pixel};
use crate::codec::{InvalidColor, hex_to_rgb, spec_blue, spec_green, spec_is_color, spec_red};

verus! {

/// Missing or incorrect credential on a mutating request.
#[derive(Debug, PartialEq, Eq, Structural)]
pub struct BadAuth;

/// The body of a pixel mutation request: the color to write.
pub struct ColorJson {
    pub color: String,
}

/// The closed set of failures a pixel mutation can report. Each variant
/// carries the marker for that failure; none mutates the canvas.
#[derive(Debug, PartialEq, Eq, Structural)]
pub enum SetPixelError {
    BadAuth(BadAuth),
    OutOfBounds(OutOfBounds),
    InvalidColor(InvalidColor),
}

/// Whether a request-supplied credential matches the process-configured
/// secret, by exact string equality.
pub fn is_authorized(supplied: &String, secret: &String) -> (r: bool)
    ensures
        r == (supplied@ == secret@),
{
    *supplied == *secret
}

/// Apply one authenticated pixel mutation to the canvas.
///
/// The credential is checked first; then the coordinates; then the color
/// string. The pixel is written if and only if all three pass, and on any
/// failure the canvas is left byte-for-byte unchanged.
pub fn set_pixel(
    canvas: &mut Canvas,
    x: usize,
    y: usize,
    query: &ColorJson,
    supplied: &String,
    secret: &String,
) -> (r: Result<(), SetPixelError>)
    requires
        old(canvas).wf(),
    ensures
        final(canvas).wf(),
        final(canvas).spec_width() == old(canvas).spec_width(),
        final(canvas).spec_height() == old(canvas).spec_height(),
        r is Ok <==> supplied@ == secret@ && x < old(canvas).spec_width() && y < old(
            canvas,
        ).spec_height() && spec_is_color(query.color@),
        supplied@ != secret@ ==> r == Result::<(), SetPixelError>::Err(
            SetPixelError::BadAuth(BadAuth),
        ),
        supplied@ == secret@ && !(x < old(canvas).spec_width() && y < old(canvas).spec_height())
            ==> r == Result::<(), SetPixelError>::Err(SetPixelError::OutOfBounds(OutOfBounds)),
        supplied@ == secret@ && x < old(canvas).spec_width() && y < old(canvas).spec_height()
            && !spec_is_color(query.color@) ==> r == Result::<(), SetPixelError>::Err(
            SetPixelError::InvalidColor(InvalidColor),
        ),
        r is Ok ==> final(canvas)@ == spec_write_pixel(
            old(canvas)@,
            old(canvas).spec_width(),
            x as int,
            y as int,
            (spec_red(query.color@), spec_green(query.color@), spec_blue(query.color@)),
        ),
        r is Err ==> *final(canvas) == *old(canvas),
{
    if !is_authorized(supplied, secret) {
        return Err(SetPixelError::BadAuth(BadAuth));
    }
    if x >= canvas.width() || y >= canvas.height() {
        return Err(SetPixelError::OutOfBounds(OutOfBounds));
    }
    let rgb = match hex_to_rgb(query.color.as_str()) {
        Err(InvalidColor) => return Err(SetPixelError::InvalidColor(InvalidColor)),
        Ok(rgb) => rgb,
    };
    match canvas.write_pixel(x, y, rgb) {
        Ok(()) => Ok(()),
        Err(OutOfBounds) => Err(SetPixelError::OutOfBounds(OutOfBounds)),
    }
}

/// The static welcome message served to an information request.
pub fn information() -> (r: String)
    ensures
        r@ == "Welcome to r/place but in Rust!"@,
{
    String::from_str("Welcome to r/place but in Rust!")
}

} // verus!

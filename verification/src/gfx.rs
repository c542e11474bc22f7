//! What the display providers share: rectangles, modes, errors, and the checks that
//! every drawing operation makes first.
use vstd::prelude::*;
use vstd::string::*;

use crate::text::{decimal, push_decimal, push_wide_decimal};

verus! {

/// Bytes of one pixel: blue, green, red and an unused one.
pub const BYTES_PER_PIXEL: u64 = 4;

/// A rectangle of pixels.
#[derive(Clone, Copy, PartialEq, Eq, Structural, Debug)]
pub struct Rect {
    pub x: u32,
    pub y: u32,
    pub width: u32,
    pub height: u32,
}

/// The geometry of a framebuffer; its pixels are always 32 bits each.
#[derive(Clone, Copy, PartialEq, Eq, Structural, Debug)]
pub struct ModeInfo {
    pub width: u32,
    pub height: u32,
    pub stride: u32,
}

/// Failures of the display operations.
#[derive(Debug)]
pub enum GfxError {
    Denied,
    OutOfBounds,
    BadBuffer(String),
    Io(String),
}

/// Failures of the display operations, over contents.
pub enum GfxFailure {
    Denied,
    OutOfBounds,
    BadBuffer(Seq<char>),
    Io(Seq<char>),
}

impl View for GfxError {
    type V = GfxFailure;

    open spec fn view(&self) -> GfxFailure {
        match self {
            GfxError::Denied => GfxFailure::Denied,
            GfxError::OutOfBounds => GfxFailure::OutOfBounds,
            GfxError::BadBuffer(text) => GfxFailure::BadBuffer(text@),
            GfxError::Io(text) => GfxFailure::Io(text@),
        }
    }
}

/// Whether a rectangle lies within a mode of that size.
pub open spec fn inside(width: u32, height: u32, rect: Rect) -> bool {
    rect.x + rect.width <= width && rect.y + rect.height <= height
}

/// The bytes of a rectangle's pixels, packed row by row.
pub open spec fn packed_len(rect: Rect) -> int {
    rect.width * rect.height * BYTES_PER_PIXEL
}

/// What is said of a buffer that is too short for a rectangle.
pub open spec fn short_buffer(rect: Rect, len: u64) -> Seq<char> {
    "the rectangle needs "@ + decimal(packed_len(rect) as nat) + " bytes ("@ + decimal(
        rect.width as nat,
    ) + "x"@ + decimal(rect.height as nat) + " xrgb8888), the buffer holds "@ + decimal(len as nat)
}

/// Why a drawing operation on a rectangle is refused, if it is: the rectangle is looked
/// at before the buffer.
pub open spec fn refusal(width: u32, height: u32, rect: Rect, len: u64) -> Option<GfxFailure> {
    if !inside(width, height, rect) {
        Some(GfxFailure::OutOfBounds)
    } else if len < packed_len(rect) {
        Some(GfxFailure::BadBuffer(short_buffer(rect, len)))
    } else {
        None
    }
}

/// Check that a rectangle lies within a mode.
pub fn check_bounds(width: u32, height: u32, rect: &Rect) -> (result: Result<(), GfxError>)
    ensures
        match result {
            Ok(_) => inside(width, height, *rect),
            Err(error) => error is OutOfBounds && !inside(width, height, *rect),
        },
{
    match (rect.x.checked_add(rect.width), rect.y.checked_add(rect.height)) {
        (Some(end_x), Some(end_y)) => if end_x > width || end_y > height {
            Err(GfxError::OutOfBounds)
        } else {
            Ok(())
        },
        _ => Err(GfxError::OutOfBounds),
    }
}

/// Check that a buffer covers the packed pixels of a rectangle.
pub fn check_buffer(rect: &Rect, buffer_len: u64) -> (result: Result<u64, GfxError>)
    ensures
        match result {
            Ok(needed) => needed == packed_len(*rect) <= buffer_len,
            Err(error) => buffer_len < packed_len(*rect) && error@ == GfxFailure::BadBuffer(
                short_buffer(*rect, buffer_len),
            ),
        },
{
    assert(0 <= rect.width * rect.height <= u32::MAX * u32::MAX) by (nonlinear_arith)
        requires
            0 <= rect.width <= u32::MAX,
            0 <= rect.height <= u32::MAX,
    ;
    let pixels: u128 = rect.width as u128 * rect.height as u128;
    let needed: u128 = 4 * pixels;
    if (buffer_len as u128) < needed {
        let mut text = String::from_str("the rectangle needs ");
        push_wide_decimal(&mut text, needed);
        text.append(" bytes (");
        push_decimal(&mut text, rect.width as u64);
        text.append("x");
        push_decimal(&mut text, rect.height as u64);
        text.append(" xrgb8888), the buffer holds ");
        push_decimal(&mut text, buffer_len);
        Err(GfxError::BadBuffer(text))
    } else {
        Ok(needed as u64)
    }
}

/// The pixels of a rectangle inside a mode are no more than the pixels of the mode.
pub proof fn lemma_inside_area(width: u32, height: u32, rect: Rect)
    requires
        inside(width, height, rect),
    ensures
        rect.width * rect.height <= width * height,
        packed_len(rect) <= width * height * BYTES_PER_PIXEL,
{
    assert(rect.width * rect.height <= width * height) by (nonlinear_arith)
        requires
            rect.width <= width,
            rect.height <= height,
    ;
}

/// An operation is refused exactly where a pixel of the rectangle would lie outside, or the
/// buffer is shorter than four bytes for each of its pixels; then the failure says which.
pub proof fn law_refused_where_it_does_not_fit(width: u32, height: u32, rect: Rect, len: u64)
    ensures
        ({
            let fits = rect.x + rect.width <= width && rect.y + rect.height <= height;
            let covered = 4 * (rect.width * rect.height) <= len;
            match refusal(width, height, rect, len) {
                None => fits && covered,
                Some(GfxFailure::OutOfBounds) => !fits,
                Some(GfxFailure::BadBuffer(_)) => fits && !covered,
                _ => false,
            }
        }),
{
    assert(packed_len(rect) == 4 * (rect.width * rect.height)) by (nonlinear_arith)
        requires
            packed_len(rect) == rect.width * rect.height * BYTES_PER_PIXEL,
            BYTES_PER_PIXEL == 4,
    ;
}

/// What a value is over contents is of the same kind as the value itself: no two kinds are
/// taken for one another.
pub proof fn law_contents_keep_their_kind(gfx_error: GfxError)
    ensures
        gfx_error is Denied <==> gfx_error@ is Denied,
        gfx_error is OutOfBounds <==> gfx_error@ is OutOfBounds,
        gfx_error is BadBuffer <==> gfx_error@ is BadBuffer,
        gfx_error is Io <==> gfx_error@ is Io,
{
}

} // verus!

//! Block rectangles: checking them against the image and shrinking them
//! by border and padding.

use vstd::prelude::*;

use crate::error::OverlayError;

verus! {

/// A rectangle in pixel coordinates, both edges of each axis included.
#[derive(Clone, Copy, Debug, PartialEq, Eq, Structural)]
pub struct Rect {
    pub top: u32,
    pub bottom: u32,
    pub left: u32,
    pub right: u32,
}

/// Whether `rect` lies within a `width` x `height` image and has a positive
/// width and a non-negative height.
pub open spec fn rect_fits_image(rect: Rect, width: u32, height: u32) -> bool {
    &&& rect.left <= width
    &&& rect.right <= width
    &&& rect.top <= height
    &&& rect.bottom <= height
    &&& rect.left < rect.right
    &&& rect.top <= rect.bottom
}

/// Checks a block's rectangle against the image it is drawn on.
pub fn check_rect(rect: &Rect, width: u32, height: u32) -> (r: Result<(), OverlayError>)
    ensures
        rect_fits_image(*rect, width, height) <==> r is Ok,
        r is Err ==> r == Err::<(), OverlayError>(OverlayError::GeometryError),
{
    if rect.left > width || rect.right > width || rect.top > height || rect.bottom > height {
        Err(OverlayError::GeometryError)
    } else if rect.left >= rect.right || rect.top > rect.bottom {
        Err(OverlayError::GeometryError)
    } else {
        Ok(())
    }
}

/// The rectangle left inside `rect` once `border` is taken from every side
/// and then `padding` from each side, as integers (possibly inverted).
pub open spec fn inner_edges(rect: Rect, border: int, padding: Option<Rect>) -> (int, int, int, int) {
    let (pt, pb, pl, pr) = match padding {
        Some(p) => (p.top as int, p.bottom as int, p.left as int, p.right as int),
        None => (0int, 0int, 0int, 0int),
    };
    (
        rect.top + border + pt,
        rect.bottom - border - pb,
        rect.left + border + pl,
        rect.right - border - pr,
    )
}

/// The area left for text inside a rectangle, after its border and padding.
///
/// Succeeds when what is left is not inverted on either axis; the result then
/// has exactly the edges of `inner_edges`.
pub fn content_rect(rect: &Rect, border_width: u32, padding: &Option<Rect>) -> (r: Result<
    Rect,
    OverlayError,
>)
    ensures
        ({
            let (t, b, l, rt) = inner_edges(*rect, border_width as int, *padding);
            &&& (t <= b && l <= rt) <==> r is Ok
            &&& r matches Ok(c) ==> c.top == t && c.bottom == b && c.left == l && c.right == rt
            &&& r is Err ==> r == Err::<Rect, OverlayError>(OverlayError::GeometryError)
        }),
{
    let (pt, pb, pl, pr) = match padding {
        Some(p) => (p.top as u64, p.bottom as u64, p.left as u64, p.right as u64),
        None => (0u64, 0u64, 0u64, 0u64),
    };
    let bw = border_width as u64;
    let top = rect.top as u64 + bw + pt;
    let left = rect.left as u64 + bw + pl;
    let bottom_cut = bw + pb;
    let right_cut = bw + pr;
    if bottom_cut > rect.bottom as u64 || right_cut > rect.right as u64 {
        return Err(OverlayError::GeometryError);
    }
    let bottom = rect.bottom as u64 - bottom_cut;
    let right = rect.right as u64 - right_cut;
    if top > bottom || left > right {
        return Err(OverlayError::GeometryError);
    }
    Ok(Rect { top: top as u32, bottom: bottom as u32, left: left as u32, right: right as u32 })
}

} // verus!

//! The RGBA8 pixel grid that layers and the final image are held in.

use vstd::prelude::*;

use crate::color::{pixel, Pixel};
use crate::geometry::Rect;

verus! {

/// The fully transparent pixel.
pub open spec fn transparent() -> Pixel {
    Pixel { r: 0, g: 0, b: 0, a: 0 }
}

/// The pixel stored at index `i` of a row-major RGBA8 buffer.
pub open spec fn pixel_of(data: Seq<u8>, i: int) -> Pixel {
    Pixel { r: data[4 * i], g: data[4 * i + 1], b: data[4 * i + 2], a: data[4 * i + 3] }
}

/// A width x height grid of RGBA8 pixels, row-major from the top-left corner.
pub struct Canvas {
    pub width: u32,
    pub height: u32,
    pub data: Vec<u8>,
}

impl Canvas {
    /// The buffer holds four bytes for each pixel, and its size fits in memory.
    pub open spec fn wf(&self) -> bool {
        &&& self.data@.len() == self.width * self.height * 4
        &&& self.width * self.height * 4 <= usize::MAX
    }

    pub open spec fn pixel_count(&self) -> int {
        self.width * self.height
    }

    /// The pixel at column `x`, row `y`.
    pub open spec fn at(&self, x: int, y: int) -> Pixel {
        pixel_of(self.data@, y * self.width + x)
    }

    /// Wraps a row-major RGBA8 buffer; `None` when its length is not four bytes
    /// per pixel.
    pub fn from_raw(width: u32, height: u32, data: Vec<u8>) -> (r: Option<Canvas>)
        ensures
            r is Some <==> data@.len() == width * height * 4,
            r matches Some(c) ==> c.wf() && c.width == width && c.height == height && c.data@
                == data@,
    {
        if grid_bytes(width, height) != data.len() as u128 {
            return None;
        }
        let c = Canvas { width, height, data };
        Some(c)
    }

    /// The row-major RGBA8 buffer.
    pub fn into_raw(self) -> (r: Vec<u8>)
        ensures
            r@ == self.data@,
    {
        self.data
    }

    /// A `width` x `height` canvas of transparent pixels; `None` when its
    /// buffer would not fit in memory.
    pub fn new(width: u32, height: u32) -> (r: Option<Canvas>)
        ensures
            r is Some <==> width * height * 4 <= usize::MAX,
            r matches Some(c) ==> c.wf() && c.width == width && c.height == height && forall|
                i: int,
            |
                0 <= i < c.pixel_count() ==> #[trigger] pixel_of(c.data@, i) == transparent(),
    {
        if grid_bytes(width, height) > usize::MAX as u128 {
            return None;
        }
        let total: usize = (width as u64 * height as u64) as usize;
        let mut data: Vec<u8> = Vec::new();
        let mut i: usize = 0;
        while i < total
            invariant
                total == width * height,
                total * 4 <= usize::MAX,
                i <= total,
                data@.len() == 4 * i,
                forall|j: int| 0 <= j < i ==> #[trigger] pixel_of(data@, j) == transparent(),
            decreases total - i,
        {
            push_pixel(&mut data, pixel(0, 0, 0, 0));
            i = i + 1;
        }
        Some(Canvas { width, height, data })
    }

    /// The pixel at index `i` of the row-major order.
    pub fn get(&self, i: usize) -> (p: Pixel)
        requires
            self.wf(),
            i < self.pixel_count(),
        ensures
            p == pixel_of(self.data@, i as int),
    {
        let k = 4 * i;
        pixel(self.data[k], self.data[k + 1], self.data[k + 2], self.data[k + 3])
    }

    /// Writes `p` at column `x`, row `y`; a place outside the canvas is left alone.
    pub fn put(&mut self, x: i64, y: i64, p: Pixel)
        requires
            old(self).wf(),
        ensures
            final(self).wf(),
            final(self).width == old(self).width,
            final(self).height == old(self).height,
            forall|i: int|
                0 <= i < old(self).pixel_count() ==> #[trigger] pixel_of(final(self).data@, i) == if (0
                    <= x < old(self).width && 0 <= y < old(self).height && i == y * old(self).width
                    + x) {
                    p
                } else {
                    pixel_of(old(self).data@, i)
                },
    {
        if x < 0 || y < 0 || x >= self.width as i64 || y >= self.height as i64 {
            return;
        }
        let w = self.width as u64;
        proof {
            lemma_index_in_grid(x as int, y as int, self.width as int, self.height as int);
        }
        let i = (y as u64 * w + x as u64) as usize;
        let k = 4 * i;
        self.data.set(k, p.r);
        self.data.set(k + 1, p.g);
        self.data.set(k + 2, p.b);
        self.data.set(k + 3, p.a);
    }
}

/// The number of bytes of a `width` x `height` RGBA8 buffer.
fn grid_bytes(width: u32, height: u32) -> (r: u128)
    ensures
        r == width * height * 4,
{
    proof {
        lemma_grid_bound(width as int, height as int);
    }
    (width as u64 * height as u64) as u128 * 4
}

proof fn lemma_grid_bound(w: int, h: int)
    requires
        0 <= w <= u32::MAX,
        0 <= h <= u32::MAX,
    ensures
        0 <= w * h <= u32::MAX * u32::MAX,
{
    assert(0 <= w * h <= u32::MAX * u32::MAX) by (nonlinear_arith)
        requires
            0 <= w <= u32::MAX,
            0 <= h <= u32::MAX,
    ;
}

pub(crate) proof fn lemma_index_in_grid(x: int, y: int, w: int, h: int)
    requires
        0 <= x < w,
        0 <= y < h,
    ensures
        0 <= y * w + x < w * h,
{
    assert(y * w + x < w * h) by (nonlinear_arith)
        requires
            0 <= x < w,
            0 <= y < h,
    ;
    assert(0 <= y * w) by (nonlinear_arith)
        requires
            0 <= y,
            0 <= w,
    ;
}

/// Appends the four channels of `p`.
pub(crate) fn push_pixel(data: &mut Vec<u8>, p: Pixel)
    requires
        old(data)@.len() % 4 == 0,
    ensures
        final(data)@.len() == old(data)@.len() + 4,
        forall|j: int|
            0 <= j < old(data)@.len() / 4 ==> #[trigger] pixel_of(final(data)@, j) == pixel_of(
                old(data)@,
                j,
            ),
        pixel_of(final(data)@, old(data)@.len() as int / 4) == p,
{
    data.push(p.r);
    data.push(p.g);
    data.push(p.b);
    data.push(p.a);
}

} // verus!

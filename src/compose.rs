//! Building a block's layers and compositing them onto the canvas.

use vstd::prelude::*;

use crate::canvas::{lemma_index_in_grid, pixel_of, push_pixel, transparent, Canvas};
use crate::color::{pixel, Pixel};
use crate::geometry::Rect;
use crate::imaging::{overlay_buffers, overlay_result, replace_buffers};

verus! {

/// The largest coordinate or offset that the glyph stamping functions accept.
pub const COORD_LIMIT: i64 = 0x100_0000_0000;

/// One channel of `dest * (1 - c) + src * c`, coverage `c` in 255ths.
pub open spec fn mix_channel(dest: u8, src: u8, c: u8) -> u8 {
    ((dest * (255 - c) + src * c) / 255) as u8
}

/// `src` blended over `dest` at coverage `c` (in 255ths): each color channel is
/// `dest * (1 - c) + src * c`, the alpha is `dest.a * (1 - c) + 255 * c`, and
/// full coverage replaces `dest` by `src`.
pub open spec fn blend_spec(dest: Pixel, src: Pixel, c: u8) -> Pixel {
    if c == 255 {
        src
    } else {
        Pixel {
            r: mix_channel(dest.r, src.r, c),
            g: mix_channel(dest.g, src.g, c),
            b: mix_channel(dest.b, src.b, c),
            a: mix_channel(dest.a, 255, c),
        }
    }
}

/// The pixel a glyph leaves in the text layer where its outline covers a
/// pixel by `c`: the run's color over the block's background.
pub open spec fn glyph_pixel(color: Pixel, background: Pixel, c: u8) -> Pixel {
    blend_spec(background, color, c)
}

/// The pixel a glyph's shadow leaves where the outline covers a pixel by `c`:
/// the shadow color with its alpha scaled by the coverage.
pub open spec fn shadow_pixel(color: Pixel, c: u8) -> Pixel {
    Pixel { a: (color.a * c / 255) as u8, ..color }
}

proof fn lemma_mix_bound(d: int, s: int, c: int)
    requires
        0 <= d <= 255,
        0 <= s <= 255,
        0 <= c <= 255,
    ensures
        0 <= d * (255 - c) + s * c <= 255 * 255,
{
    assert(0 <= d * (255 - c) + s * c <= 255 * 255) by (nonlinear_arith)
        requires
            0 <= d <= 255,
            0 <= s <= 255,
            0 <= c <= 255,
    ;
}

fn mix(dest: u8, src: u8, c: u8) -> (r: u8)
    ensures
        r == mix_channel(dest, src, c),
{
    proof {
        lemma_mix_bound(dest as int, src as int, c as int);
    }
    let d = dest as u32;
    let s = src as u32;
    let k = c as u32;
    ((d * (255 - k) + s * k) / 255) as u8
}

/// Blends `src` over `dest` at coverage `c`, in 255ths.
pub fn blend(dest: Pixel, src: Pixel, c: u8) -> (p: Pixel)
    ensures
        p == blend_spec(dest, src, c),
{
    if c == 255 {
        return src;
    }
    pixel(mix(dest.r, src.r, c), mix(dest.g, src.g, c), mix(dest.b, src.b, c), mix(dest.a, 255, c))
}

/// Whether column `x`, row `y` lies in `rect`, edges included.
pub open spec fn in_rect(rect: Rect, x: int, y: int) -> bool {
    rect.left <= x <= rect.right && rect.top <= y <= rect.bottom
}

/// The block's decoration at column `x`, row `y`: transparent outside its
/// rectangle, the border color within `border` pixels of its edges, the
/// background color inside.
pub open spec fn decoration_pixel(
    rect: Rect,
    border: int,
    border_color: Pixel,
    background: Pixel,
    x: int,
    y: int,
) -> Pixel {
    if !in_rect(rect, x, y) {
        transparent()
    } else if x < rect.left + border || x > rect.right - border || y < rect.top + border || y
        > rect.bottom - border {
        border_color
    } else {
        background
    }
}

/// The shadow that a block's border casts at column `x`, row `y`: the
/// shadow color over the block's rectangle moved by (`dx`, `dy`).
pub open spec fn border_shadow_pixel(rect: Rect, dx: int, dy: int, color: Pixel, x: int, y: int) -> Pixel {
    if rect.left + dx <= x <= rect.right + dx && rect.top + dy <= y <= rect.bottom + dy {
        color
    } else {
        transparent()
    }
}

/// A canvas-sized layer holding a block's border and background.
pub fn decoration_layer(
    width: u32,
    height: u32,
    rect: &Rect,
    border_width: u32,
    border_color: Pixel,
    background: Pixel,
) -> (c: Canvas)
    requires
        width * height * 4 <= usize::MAX,
    ensures
        c.wf(),
        c.width == width,
        c.height == height,
        forall|i: int|
            0 <= i < width * height ==> #[trigger] pixel_of(c.data@, i) == decoration_pixel(
                *rect,
                border_width as int,
                border_color,
                background,
                i % (width as int),
                i / (width as int),
            ),
{
    let total: usize = (width as u64 * height as u64) as usize;
    let w = width as u64;
    let bw = border_width as u64;
    let (left, right, top, bottom) = (
        rect.left as u64,
        rect.right as u64,
        rect.top as u64,
        rect.bottom as u64,
    );
    let mut data: Vec<u8> = Vec::new();
    let mut i: usize = 0;
    while i < total
        invariant
            total == width * height,
            total * 4 <= usize::MAX,
            w == width,
            bw == border_width,
            left == rect.left,
            right == rect.right,
            top == rect.top,
            bottom == rect.bottom,
            i <= total,
            data@.len() == 4 * i,
            forall|j: int|
                0 <= j < i ==> #[trigger] pixel_of(data@, j) == decoration_pixel(
                    *rect,
                    border_width as int,
                    border_color,
                    background,
                    j % (width as int),
                    j / (width as int),
                ),
        decreases total - i,
    {
        proof {
            lemma_split_index(i as int, width as int, height as int);
        }
        let x = i as u64 % w;
        let y = i as u64 / w;
        let p = if x < left || x > right || y < top || y > bottom {
            pixel(0, 0, 0, 0)
        } else if x < left + bw || x + bw > right || y < top + bw || y + bw > bottom {
            border_color
        } else {
            background
        };
        push_pixel(&mut data, p);
        i = i + 1;
    }
    Canvas { width, height, data }
}

/// A canvas-sized layer holding the shadow cast by a block's border: `color`
/// over `rect` moved by (`dx`, `dy`).
pub fn border_shadow_layer(width: u32, height: u32, rect: &Rect, dx: u32, dy: u32, color: Pixel) -> (c:
    Canvas)
    requires
        width * height * 4 <= usize::MAX,
    ensures
        c.wf(),
        c.width == width,
        c.height == height,
        forall|i: int|
            0 <= i < width * height ==> #[trigger] pixel_of(c.data@, i) == border_shadow_pixel(
                *rect,
                dx as int,
                dy as int,
                color,
                i % (width as int),
                i / (width as int),
            ),
{
    let total: usize = (width as u64 * height as u64) as usize;
    let w = width as u64;
    let (left, right, top, bottom) = (
        rect.left as u64 + dx as u64,
        rect.right as u64 + dx as u64,
        rect.top as u64 + dy as u64,
        rect.bottom as u64 + dy as u64,
    );
    let mut data: Vec<u8> = Vec::new();
    let mut i: usize = 0;
    while i < total
        invariant
            total == width * height,
            total * 4 <= usize::MAX,
            w == width,
            i <= total,
            data@.len() == 4 * i,
            left == rect.left + dx,
            right == rect.right + dx,
            top == rect.top + dy,
            bottom == rect.bottom + dy,
            forall|j: int|
                0 <= j < i ==> #[trigger] pixel_of(data@, j) == border_shadow_pixel(
                    *rect,
                    dx as int,
                    dy as int,
                    color,
                    j % (width as int),
                    j / (width as int),
                ),
        decreases total - i,
    {
        let x = i as u64 % w;
        let y = i as u64 / w;
        let p = if y >= top && y <= bottom && x >= left && x <= right {
            color
        } else {
            pixel(0, 0, 0, 0)
        };
        push_pixel(&mut data, p);
        i = i + 1;
    }
    Canvas { width, height, data }
}

/// Draws `top` over `bottom`, pixel by pixel, with source-over blending.
pub fn overlay(bottom: &mut Canvas, top: &Canvas)
    requires
        old(bottom).wf(),
        top.wf(),
        top.width == old(bottom).width,
        top.height == old(bottom).height,
    ensures
        final(bottom).wf(),
        final(bottom).width == old(bottom).width,
        final(bottom).height == old(bottom).height,
        final(bottom).data@ == overlay_result(
            old(bottom).data@,
            top.data@,
            old(bottom).width,
            old(bottom).height,
        ),
        forall|i: int|
            0 <= i < old(bottom).pixel_count() && (#[trigger] pixel_of(top.data@, i)).a == 0
                ==> pixel_of(final(bottom).data@, i) == pixel_of(old(bottom).data@, i),
        forall|i: int|
            0 <= i < old(bottom).pixel_count() && (#[trigger] pixel_of(top.data@, i)).a == 255
                ==> pixel_of(final(bottom).data@, i) == pixel_of(top.data@, i),
{
    let width = bottom.width;
    let height = bottom.height;
    overlay_buffers(&mut bottom.data, &top.data, width, height);
}

/// The buffer left by drawing `layers`, first to last, over `background`.
pub open spec fn composite(background: Seq<u8>, layers: Seq<Seq<u8>>, width: u32, height: u32) -> Seq<
    u8,
>
    decreases layers.len(),
{
    if layers.len() == 0 {
        background
    } else {
        overlay_result(
            composite(background, layers.drop_last(), width, height),
            layers.last(),
            width,
            height,
        )
    }
}

/// The buffers of a list of layers.
pub open spec fn layer_buffers(layers: Seq<Canvas>) -> Seq<Seq<u8>> {
    layers.map_values(|c: Canvas| c.data@)
}

/// Draws `layers` over `canvas`, first to last, each with source-over
/// blending.
pub fn composite_layers(canvas: &mut Canvas, layers: &Vec<Canvas>)
    requires
        old(canvas).wf(),
        forall|i: int|
            0 <= i < layers@.len() ==> (#[trigger] layers@[i]).wf() && layers@[i].width == old(
                canvas,
            ).width && layers@[i].height == old(canvas).height,
    ensures
        final(canvas).wf(),
        final(canvas).width == old(canvas).width,
        final(canvas).height == old(canvas).height,
        final(canvas).data@ == composite(
            old(canvas).data@,
            layer_buffers(layers@),
            old(canvas).width,
            old(canvas).height,
        ),
{
    let ghost start = canvas.data@;
    let ghost all = layer_buffers(layers@);
    let mut i: usize = 0;
    while i < layers.len()
        invariant
            canvas.wf(),
            canvas.width == old(canvas).width,
            canvas.height == old(canvas).height,
            start == old(canvas).data@,
            all == layer_buffers(layers@),
            forall|i: int|
                0 <= i < layers@.len() ==> (#[trigger] layers@[i]).wf() && layers@[i].width
                    == canvas.width && layers@[i].height == canvas.height,
            i <= layers@.len(),
            canvas.data@ == composite(start, all.subrange(0, i as int), canvas.width, canvas.height),
        decreases layers@.len() - i,
    {
        overlay(canvas, &layers[i]);
        assert(all.subrange(0, i + 1).drop_last() =~= all.subrange(0, i as int));
        i = i + 1;
    }
    assert(all.subrange(0, i as int) =~= all);
}

/// Compositing depends on its inputs alone: the same layers drawn in the
/// same order over two equal backgrounds leave byte-identical buffers.
pub proof fn composite_is_deterministic(
    background1: Seq<u8>,
    background2: Seq<u8>,
    layers: Seq<Seq<u8>>,
    width: u32,
    height: u32,
)
    requires
        background1 == background2,
    ensures
        composite(background1, layers, width, height) == composite(
            background2,
            layers,
            width,
            height,
        ),
{
}

/// Makes every pixel of `rect` (edges included) transparent, leaving the
/// rest of the layer as it was.
pub fn clear_rect(layer: &mut Canvas, rect: &Rect)
    requires
        old(layer).wf(),
        rect.left <= rect.right,
        rect.top <= rect.bottom,
    ensures
        final(layer).wf(),
        final(layer).width == old(layer).width,
        final(layer).height == old(layer).height,
        forall|i: int|
            0 <= i < old(layer).pixel_count() ==> #[trigger] pixel_of(final(layer).data@, i) == if in_rect(
                *rect,
                i % (old(layer).width as int),
                i / (old(layer).width as int),
            ) {
                transparent()
            } else {
                pixel_of(old(layer).data@, i)
            },
{
    let width = layer.width;
    let height = layer.height;
    if rect.left >= width || rect.top >= height {
        assert forall|i: int| 0 <= i < layer.pixel_count() implies !#[trigger] in_rect(
            *rect,
            i % (width as int),
            i / (width as int),
        ) by {
            lemma_split_index(i, width as int, height as int);
        }
        return;
    }
    let right = if rect.right < width {
        rect.right
    } else {
        width - 1
    };
    let bottom = if rect.bottom < height {
        rect.bottom
    } else {
        height - 1
    };
    let tw = right - rect.left + 1;
    let th = bottom - rect.top + 1;
    proof {
        lemma_sub_grid(tw as int, th as int, width as int, height as int);
    }
    let hole = Canvas::new(tw, th);
    let hole = match hole {
        Some(h) => h,
        None => {
            return;
        },
    };
    let ghost before = layer.data@;
    replace_buffers(&mut layer.data, width, height, &hole.data, tw, th, rect.left, rect.top);
    assert forall|i: int| 0 <= i < layer.pixel_count() implies #[trigger] pixel_of(
        layer.data@,
        i,
    ) == if in_rect(*rect, i % (width as int), i / (width as int)) {
        transparent()
    } else {
        pixel_of(before, i)
    } by {
        lemma_split_index(i, width as int, height as int);
        let x = i % (width as int);
        let y = i / (width as int);
        if rect.left <= x < rect.left + tw && rect.top <= y < rect.top + th {
            lemma_index_in_grid(x - rect.left, y - rect.top, tw as int, th as int);
        }
    }
}

/// Where a glyph's outline covers the pixel (`x`, `y`) of its raster by
/// `coverage`, writes the run's color over the block's background into the
/// text layer. The raster's origin is (`base_x`, `base_y + shift_y`); a
/// place outside the layer is skipped.
pub fn stamp_text(
    layer: &mut Canvas,
    base_x: i64,
    base_y: i64,
    shift_y: i64,
    x: u32,
    y: u32,
    coverage: u8,
    color: Pixel,
    background: Pixel,
)
    requires
        old(layer).wf(),
        -COORD_LIMIT <= base_x <= COORD_LIMIT,
        -COORD_LIMIT <= base_y <= COORD_LIMIT,
        -COORD_LIMIT <= shift_y <= COORD_LIMIT,
    ensures
        final(layer).wf(),
        final(layer).width == old(layer).width,
        final(layer).height == old(layer).height,
        ({
            let px = base_x + x;
            let py = base_y + shift_y + y;
            forall|i: int|
                0 <= i < old(layer).pixel_count() ==> #[trigger] pixel_of(final(layer).data@, i)
                    == if 0 <= px < old(layer).width && 0 <= py < old(layer).height && i == py
                    * old(layer).width + px {
                    glyph_pixel(color, background, coverage)
                } else {
                    pixel_of(old(layer).data@, i)
                }
        }),
{
    let p = blend(background, color, coverage);
    layer.put(base_x + x as i64, base_y + shift_y + y as i64, p);
}

/// Where a glyph's outline covers the pixel (`x`, `y`) of its raster by
/// `coverage`, writes the shadow color, its alpha scaled by the coverage,
/// into the shadow layer at that place moved by (`dx`, `dy`). A place outside
/// the layer is skipped.
pub fn stamp_shadow(
    layer: &mut Canvas,
    base_x: i64,
    base_y: i64,
    shift_y: i64,
    x: u32,
    y: u32,
    dx: u32,
    dy: u32,
    coverage: u8,
    color: Pixel,
)
    requires
        old(layer).wf(),
        -COORD_LIMIT <= base_x <= COORD_LIMIT,
        -COORD_LIMIT <= base_y <= COORD_LIMIT,
        -COORD_LIMIT <= shift_y <= COORD_LIMIT,
    ensures
        final(layer).wf(),
        final(layer).width == old(layer).width,
        final(layer).height == old(layer).height,
        ({
            let px = base_x + x + dx;
            let py = base_y + shift_y + y + dy;
            forall|i: int|
                0 <= i < old(layer).pixel_count() ==> #[trigger] pixel_of(final(layer).data@, i)
                    == if 0 <= px < old(layer).width && 0 <= py < old(layer).height && i == py
                    * old(layer).width + px {
                    shadow_pixel(color, coverage)
                } else {
                    pixel_of(old(layer).data@, i)
                }
        }),
{
    proof {
        assert(0 <= color.a * coverage <= 255 * 255) by (nonlinear_arith)
            requires
                0 <= color.a <= 255,
                0 <= coverage <= 255,
        ;
    }
    let alpha = (color.a as u32 * coverage as u32 / 255) as u8;
    let p = pixel(color.r, color.g, color.b, alpha);
    layer.put(base_x + x as i64 + dx as i64, base_y + shift_y + y as i64 + dy as i64, p);
}

/// A sub-grid no larger than the grid fits where the grid does.
proof fn lemma_sub_grid(tw: int, th: int, w: int, h: int)
    requires
        0 <= tw <= w,
        0 <= th <= h,
    ensures
        tw * th <= w * h,
{
    assert(tw * th <= w * h) by (nonlinear_arith)
        requires
            0 <= tw <= w,
            0 <= th <= h,
    ;
}

/// Splitting an index of a non-empty grid into column and row.
proof fn lemma_split_index(i: int, w: int, h: int)
    requires
        0 <= i < w * h,
        0 <= w,
        0 <= h,
    ensures
        w > 0,
        0 <= i % w < w,
        0 <= i / w < h,
{
    if w == 0 {
        assert(w * h == 0);
    }
    assert(0 <= i / w < h) by (nonlinear_arith)
        requires
            0 <= i < w * h,
            w > 0,
    ;
}

} // verus!

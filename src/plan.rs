//! Checking a block and resolving what it is drawn with.

use vstd::prelude::*;

use crate::block::{Block, Text};
use crate::canvas::transparent;
use crate::color::{color_pixel, pixel, Color, Pixel};
use crate::error::OverlayError;
use crate::geometry::{check_rect, content_rect, inner_edges, rect_fits_image, Rect};
use crate::layout::{font_index, font_position};
use crate::segment::{
    hard_lines, hard_lines_of, line_breaks_of, lines_ok, lines_view, paragraph, text_bytes,
    Span,
};

verus! {

/// Translucent black: the color of a shadow that names none.
pub open spec fn default_shadow_color() -> Pixel {
    Pixel { r: 0, g: 0, b: 0, a: 25 }
}

/// Opaque black: the color of a border that names none.
pub open spec fn black() -> Pixel {
    Pixel { r: 0, g: 0, b: 0, a: 255 }
}

/// The pixel of an optional color, `default` when it is absent; `None` when
/// the color does not parse.
pub open spec fn pixel_or(c: Option<Color>, default: Pixel) -> Option<Pixel> {
    match c {
        Some(c) => color_pixel(c),
        None => Some(default),
    }
}

/// The colors and the border width that a block is drawn with.
#[derive(Clone, Copy, Debug, PartialEq, Eq, Structural)]
pub struct BlockStyle {
    /// The color of the glyphs' shadow.
    pub shadow_color: Pixel,
    pub border_color: Pixel,
    pub border_width: u32,
    /// The color of the shadow cast by the border, when the border has one.
    pub border_shadow_color: Option<Pixel>,
    pub background: Pixel,
}

/// The style of a block, or `None` when one of its colors does not parse.
pub open spec fn style_of(block: Block) -> Option<BlockStyle> {
    let shadow = pixel_or(
        match block.shadow {
            Some(s) => s.color,
            None => None,
        },
        default_shadow_color(),
    );
    let border = match block.border {
        Some(b) => color_pixel(b.color),
        None => Some(black()),
    };
    let border_shadow: Option<Option<Pixel>> = match block.border {
        Some(b) => match b.shadow {
            Some(s) => match pixel_or(s.color, default_shadow_color()) {
                Some(p) => Some(Some(p)),
                None => None,
            },
            None => Some(None),
        },
        None => Some(None),
    };
    let background = pixel_or(block.background, transparent());
    if shadow is Some && border is Some && border_shadow is Some && background is Some {
        Some(
            BlockStyle {
                shadow_color: shadow.unwrap(),
                border_color: border.unwrap(),
                border_width: match block.border {
                    Some(b) => b.width,
                    None => 0,
                },
                border_shadow_color: border_shadow.unwrap(),
                background: background.unwrap(),
            },
        )
    } else {
        None
    }
}

fn resolve_or(c: &Option<Color>, default: Pixel) -> (r: Result<Pixel, OverlayError>)
    ensures
        pixel_or(*c, default) matches Some(p) ==> r == Ok::<Pixel, OverlayError>(p),
        pixel_or(*c, default) is None ==> r == Err::<Pixel, OverlayError>(
            OverlayError::ColorParseError,
        ),
{
    match c {
        Some(c) => c.to_pixel(),
        None => Ok(default),
    }
}

/// Resolves the colors of a block's shadow (translucent black by default),
/// border (opaque black), border shadow and background (transparent), and
/// its border width (0 without a border).
pub fn resolve_style(block: &Block) -> (r: Result<BlockStyle, OverlayError>)
    ensures
        style_of(*block) matches Some(s) ==> r == Ok::<BlockStyle, OverlayError>(s),
        style_of(*block) is None ==> r == Err::<BlockStyle, OverlayError>(
            OverlayError::ColorParseError,
        ),
{
    let none: Option<Color> = None;
    let shadow_color = match &block.shadow {
        Some(s) => resolve_or(&s.color, pixel(0, 0, 0, 25)),
        None => resolve_or(&none, pixel(0, 0, 0, 25)),
    };
    let shadow_color = match shadow_color {
        Ok(p) => p,
        Err(e) => {
            return Err(e);
        },
    };
    let (border_color, border_width) = match &block.border {
        Some(b) => match b.color.to_pixel() {
            Ok(p) => (p, b.width),
            Err(e) => {
                return Err(e);
            },
        },
        None => (pixel(0, 0, 0, 255), 0),
    };
    let border_shadow_color = match &block.border {
        Some(b) => match &b.shadow {
            Some(s) => match resolve_or(&s.color, pixel(0, 0, 0, 25)) {
                Ok(p) => Some(p),
                Err(e) => {
                    return Err(e);
                },
            },
            None => None,
        },
        None => None,
    };
    let background = match resolve_or(&block.background, pixel(0, 0, 0, 0)) {
        Ok(p) => p,
        Err(e) => {
            return Err(e);
        },
    };
    Ok(BlockStyle { shadow_color, border_color, border_width, border_shadow_color, background })
}

/// The color a run is drawn in: its own, else the block's.
pub open spec fn run_color_of(run: Text, block_color: Color) -> Option<Pixel> {
    match run.color {
        Some(c) => color_pixel(c),
        None => color_pixel(block_color),
    }
}

/// Resolves the color of a run: its own color if it has one, else the
/// block's.
pub fn run_color(run: &Text, block_color: &Color) -> (r: Result<Pixel, OverlayError>)
    ensures
        run_color_of(*run, *block_color) matches Some(p) ==> r == Ok::<Pixel, OverlayError>(p),
        run_color_of(*run, *block_color) is None ==> r == Err::<Pixel, OverlayError>(
            OverlayError::ColorParseError,
        ),
{
    match &run.color {
        Some(c) => c.to_pixel(),
        None => block_color.to_pixel(),
    }
}

/// What a block is drawn from, once it has been checked.
pub struct BlockPlan {
    pub style: BlockStyle,
    /// The area left for text inside the border and padding.
    pub content: Rect,
    /// The lines of text, each a list of spans of the runs.
    pub lines: Vec<Vec<Span>>,
    /// The catalog index of each run's font.
    pub fonts: Vec<usize>,
    /// The color of each run.
    pub colors: Vec<Pixel>,
}

/// The lines a block's text is laid out in: all runs as one paragraph when
/// it wraps, its hard lines when it does not.
pub open spec fn block_lines(block: Block) -> Seq<Seq<Span>> {
    if block.wrap {
        seq![
            Seq::new(
                block.text@.len(),
                |i: int|
                    Span {
                        run: i as usize,
                        start: 0,
                        end: text_bytes(block.text@[i]).len() as usize,
                    },
            ),
        ]
    } else {
        hard_lines(
            block.text@.map_values(|t: Text| text_bytes(t)),
            block.text@.map_values(|t: Text| line_breaks_of(t.text@)),
        )
    }
}

/// Whether the catalog holds a font named `name`.
pub open spec fn font_known(names: Seq<String>, name: String) -> bool {
    exists|j: int| 0 <= j < names.len() && (#[trigger] names[j])@ == name@
}

/// Whether every run names a font of the catalog.
pub open spec fn fonts_known(names: Seq<String>, runs: Seq<Text>) -> bool {
    forall|i: int| 0 <= i < runs.len() ==> font_known(names, #[trigger] runs[i].font)
}

/// Whether every run's color resolves.
pub open spec fn colors_known(runs: Seq<Text>, block_color: Color) -> bool {
    forall|i: int| 0 <= i < runs.len() ==> (#[trigger] run_color_of(runs[i], block_color)) is Some
}

/// Checks a block against a `width` x `height` image and the font catalog
/// `names`, and gathers what it is drawn from. It fails, in this order of
/// checks, with `GeometryError` when its rectangle does not fit the image,
/// `ColorParseError` when a block color does not parse, `GeometryError` when
/// border and padding leave no room, `FontNotFound` when a run names an
/// unknown font, and `ColorParseError` when a run's color does not parse.
pub fn prepare_block(width: u32, height: u32, block: &Block, names: &Vec<String>) -> (r: Result<
    BlockPlan,
    OverlayError,
>)
    ensures
        !rect_fits_image(block.rect, width, height) ==> r == Err::<BlockPlan, OverlayError>(
            OverlayError::GeometryError,
        ),
        rect_fits_image(block.rect, width, height) && style_of(*block) is None ==> r == Err::<
            BlockPlan,
            OverlayError,
        >(OverlayError::ColorParseError),
        ({
            let style = style_of(*block);
            let (t, b, l, rt) = inner_edges(
                block.rect,
                style.unwrap().border_width as int,
                block.padding,
            );
            let room = t <= b && l <= rt;
            &&& rect_fits_image(block.rect, width, height) && style is Some && !room ==> r == Err::<
                BlockPlan,
                OverlayError,
            >(OverlayError::GeometryError)
            &&& rect_fits_image(block.rect, width, height) && style is Some && room && !fonts_known(
                names@,
                block.text@,
            ) ==> r == Err::<BlockPlan, OverlayError>(OverlayError::FontNotFound)
            &&& rect_fits_image(block.rect, width, height) && style is Some && room && fonts_known(
                names@,
                block.text@,
            ) && !colors_known(block.text@, block.color) ==> r == Err::<BlockPlan, OverlayError>(
                OverlayError::ColorParseError,
            )
            &&& (rect_fits_image(block.rect, width, height) && style is Some && room && fonts_known(
                names@,
                block.text@,
            ) && colors_known(block.text@, block.color)) <==> r is Ok
            &&& r matches Ok(plan) ==> {
                &&& plan.style == style.unwrap()
                &&& plan.content == (Rect { top: t as u32, bottom: b as u32, left: l as u32, right: rt as u32 })
                &&& lines_view(plan.lines@) == block_lines(*block)
                &&& lines_ok(
                    block.text@.map_values(|t: Text| text_bytes(t)),
                    lines_view(plan.lines@),
                )
                &&& plan.fonts@.len() == block.text@.len()
                &&& forall|i: int|
                    0 <= i < block.text@.len() ==> font_position(
                        names@,
                        block.text@[i].font,
                        #[trigger] plan.fonts@[i] as int,
                    )
                &&& plan.colors@.len() == block.text@.len()
                &&& forall|i: int|
                    0 <= i < block.text@.len() ==> Some(#[trigger] plan.colors@[i]) == run_color_of(
                        block.text@[i],
                        block.color,
                    )
            }
        }),
{
    match check_rect(&block.rect, width, height) {
        Ok(()) => {},
        Err(e) => {
            return Err(e);
        },
    }
    let style = match resolve_style(block) {
        Ok(s) => s,
        Err(e) => {
            return Err(e);
        },
    };
    let content = match content_rect(&block.rect, style.border_width, &block.padding) {
        Ok(c) => c,
        Err(e) => {
            return Err(e);
        },
    };
    let runs = &block.text;
    let mut fonts: Vec<usize> = Vec::new();
    let mut i: usize = 0;
    while i < runs.len()
        invariant
            rect_fits_image(block.rect, width, height),
            style_of(*block) == Some(style),
            ({
                let (t, b, l, rt) = inner_edges(block.rect, style.border_width as int, block.padding);
                t <= b && l <= rt && content == (Rect { top: t as u32, bottom: b as u32, left: l as u32, right: rt as u32 })
            }),
            runs == &block.text,
            i <= runs@.len(),
            fonts@.len() == i,
            forall|k: int|
                0 <= k < i ==> font_position(names@, runs@[k].font, #[trigger] fonts@[k] as int),
        decreases runs@.len() - i,
    {
        match font_index(names, &runs[i].font) {
            Ok(f) => {
                fonts.push(f);
            },
            Err(e) => {
                assert(!font_known(names@, runs@[i as int].font));
                return Err(e);
            },
        }
        i = i + 1;
    }
    assert forall|k: int| 0 <= k < runs@.len() implies font_known(names@, #[trigger] runs@[k].font) by {
        assert(font_position(names@, runs@[k].font, fonts@[k] as int));
        let j = fonts@[k] as int;
        assert(names@[j]@ == runs@[k].font@);
    }
    let mut colors: Vec<Pixel> = Vec::new();
    let mut i: usize = 0;
    while i < runs.len()
        invariant
            rect_fits_image(block.rect, width, height),
            style_of(*block) == Some(style),
            ({
                let (t, b, l, rt) = inner_edges(block.rect, style.border_width as int, block.padding);
                t <= b && l <= rt && content == (Rect { top: t as u32, bottom: b as u32, left: l as u32, right: rt as u32 })
            }),
            runs == &block.text,
            fonts_known(names@, runs@),
            fonts@.len() == runs@.len(),
            forall|k: int|
                0 <= k < runs@.len() ==> font_position(names@, runs@[k].font, #[trigger] fonts@[k] as int),
            i <= runs@.len(),
            colors@.len() == i,
            forall|k: int|
                0 <= k < i ==> Some(#[trigger] colors@[k]) == run_color_of(runs@[k], block.color),
        decreases runs@.len() - i,
    {
        match run_color(&runs[i], &block.color) {
            Ok(p) => {
                colors.push(p);
            },
            Err(e) => {
                assert(run_color_of(runs@[i as int], block.color) is None);
                return Err(e);
            },
        }
        i = i + 1;
    }
    assert forall|k: int| 0 <= k < runs@.len() implies (#[trigger] run_color_of(
        runs@[k],
        block.color,
    )) is Some by {
        assert(Some(colors@[k]) == run_color_of(runs@[k], block.color));
    }
    let lines = if block.wrap {
        let p = paragraph(runs);
        proof {
            assert(p@ =~= block_lines(*block)[0]);
        }
        let mut ls: Vec<Vec<Span>> = Vec::new();
        ls.push(p);
        assert(lines_view(ls@) =~= block_lines(*block));
        ls
    } else {
        hard_lines_of(runs)
    };
    Ok(BlockPlan { style, content, lines, fonts, colors })
}

} // verus!

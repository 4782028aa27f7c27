//! Deciding from a layout's outcome whether a line fits, font lookup, and
//! vertical placement.

use vstd::prelude::*;

use crate::block::{Text, VAlign};
use crate::compose::COORD_LIMIT;
use crate::error::OverlayError;
use crate::geometry::Rect;
use crate::segment::{spans_ok, text_bytes, Span};

verus! {

/// Whether a byte begins a character that draws a glyph: it is not a UTF-8
/// continuation byte nor an ASCII control character.
pub open spec fn is_glyph_start(x: u8) -> bool {
    !(0x80 <= x < 0xC0) && x >= 0x20 && x != 0x7F
}

/// How many glyph-drawing characters begin in the bytes `s..e` of `b`.
pub open spec fn glyph_count(b: Seq<u8>, s: int, e: int) -> nat
    decreases e - s,
{
    if s >= e {
        0
    } else {
        glyph_count(b, s, e - 1) + if is_glyph_start(b[e - 1]) {
            1nat
        } else {
            0nat
        }
    }
}

/// Where, counted from `s`, the last glyph-drawing character in `s..e`
/// begins; -1 when there is none.
pub open spec fn last_glyph_start(b: Seq<u8>, s: int, e: int) -> int
    decreases e - s,
{
    if s >= e {
        -1
    } else if is_glyph_start(b[e - 1]) {
        e - 1 - s
    } else {
        last_glyph_start(b, s, e - 1)
    }
}

/// How many glyphs the first `n` spans of a line should draw.
pub open spec fn line_glyphs(texts: Seq<Seq<u8>>, line: Seq<Span>, n: int) -> nat
    decreases n,
{
    if n <= 0 {
        0
    } else {
        let sp = line[n - 1];
        line_glyphs(texts, line, n - 1) + glyph_count(
            texts[sp.run as int],
            sp.start as int,
            sp.end as int,
        )
    }
}

/// The section and the byte within it of the last glyph that the first `n`
/// spans of a line should draw.
pub open spec fn last_drawn(texts: Seq<Seq<u8>>, line: Seq<Span>, n: int) -> Option<(int, int)>
    decreases n,
{
    if n <= 0 {
        None
    } else {
        let sp = line[n - 1];
        let k = last_glyph_start(texts[sp.run as int], sp.start as int, sp.end as int);
        if k >= 0 {
            Some((n - 1, k))
        } else {
            last_drawn(texts, line, n - 1)
        }
    }
}

/// Where the last glyph of a laid-out line fell.
#[derive(Clone, Copy, Debug, PartialEq, Eq, Structural)]
pub struct GlyphPlace {
    /// The index of its section (span) in the line.
    pub section: usize,
    /// Its byte index in the section's text.
    pub byte_index: usize,
    /// Its baseline, in whole pixels rounded down.
    pub baseline: i64,
}

/// What laying out one line at one size produced.
#[derive(Clone, Copy, Debug, PartialEq, Eq, Structural)]
pub struct LineReport {
    /// How many glyphs were placed.
    pub glyph_count: usize,
    /// The last glyph placed, if any.
    pub last: Option<GlyphPlace>,
}

/// Whether a laid-out line fits. Wrapped text fits when its last glyph was
/// placed (nothing truncated) with its baseline above the rectangle's
/// `bottom`; unwrapped text fits when every character drew its glyph.
pub open spec fn line_fits_spec(
    wrap: bool,
    texts: Seq<Seq<u8>>,
    line: Seq<Span>,
    report: LineReport,
    bottom: u32,
) -> bool {
    if wrap {
        let drawn = last_drawn(texts, line, line.len() as int);
        drawn is Some ==> {
            &&& report.last is Some
            &&& report.last.unwrap().section == drawn.unwrap().0
            &&& report.last.unwrap().byte_index == drawn.unwrap().1
            &&& report.last.unwrap().baseline < bottom
        }
    } else {
        report.glyph_count == line_glyphs(texts, line, line.len() as int)
    }
}

fn glyph_start(x: u8) -> (r: bool)
    ensures
        r == is_glyph_start(x),
{
    !(0x80 <= x && x < 0xC0) && x >= 0x20 && x != 0x7F
}

fn count_glyphs(b: &[u8], s: usize, e: usize) -> (r: usize)
    requires
        s <= e <= b@.len(),
    ensures
        r == glyph_count(b@, s as int, e as int),
{
    let mut n: usize = 0;
    let mut k = s;
    while k < e
        invariant
            s <= k <= e <= b@.len(),
            n == glyph_count(b@, s as int, k as int),
            n <= k - s,
        decreases e - k,
    {
        if glyph_start(b[k]) {
            n = n + 1;
        }
        k = k + 1;
    }
    n
}

fn find_last_glyph(b: &[u8], s: usize, e: usize) -> (r: Option<usize>)
    requires
        s <= e <= b@.len(),
    ensures
        last_glyph_start(b@, s as int, e as int) < 0 <==> r is None,
        r matches Some(k) ==> k as int == last_glyph_start(b@, s as int, e as int),
{
    let mut k = e;
    while k > s
        invariant
            s <= k <= e <= b@.len(),
            last_glyph_start(b@, s as int, e as int) == last_glyph_start(b@, s as int, k as int),
        decreases k - s,
    {
        if glyph_start(b[k - 1]) {
            return Some(k - 1 - s);
        }
        k = k - 1;
    }
    None
}

/// Decides whether a line laid out at some size fits, from what the layout
/// reported.
pub fn line_fits(wrap: bool, runs: &Vec<Text>, line: &Vec<Span>, report: &LineReport, bottom: u32) -> (r:
    bool)
    requires
        spans_ok(runs@.map_values(|t: Text| text_bytes(t)), line@),
    ensures
        r == line_fits_spec(
            wrap,
            runs@.map_values(|t: Text| text_bytes(t)),
            line@,
            *report,
            bottom,
        ),
{
    let ghost texts = runs@.map_values(|t: Text| text_bytes(t));
    if wrap {
        let mut n = line.len();
        while n > 0
            invariant
                wrap,
                n <= line@.len(),
                texts == runs@.map_values(|t: Text| text_bytes(t)),
                spans_ok(texts, line@),
                last_drawn(texts, line@, line@.len() as int) == last_drawn(texts, line@, n as int),
            decreases n,
        {
            let sp = line[n - 1];
            let b = runs[sp.run].text.as_str().as_bytes();
            assert(b@ == texts[sp.run as int]);
            match find_last_glyph(b, sp.start, sp.end) {
                Some(k) => {
                    assert(last_drawn(texts, line@, n as int) == Some(((n - 1) as int, k as int)));
                    let fits = match report.last {
                        Some(p) => p.section == n - 1 && p.byte_index == k && p.baseline
                            < bottom as i64,
                        None => false,
                    };
                    return fits;
                },
                None => {},
            }
            n = n - 1;
        }
        true
    } else {
        let mut total: u128 = 0;
        let mut n: usize = 0;
        while n < line.len()
            invariant
                n <= line@.len(),
                texts == runs@.map_values(|t: Text| text_bytes(t)),
                spans_ok(texts, line@),
                total == line_glyphs(texts, line@, n as int),
                total <= n * 0x1_0000_0000_0000_0000,
            decreases line@.len() - n,
        {
            let sp = line[n];
            let b = runs[sp.run].text.as_str().as_bytes();
            assert(b@ == texts[sp.run as int]);
            let c = count_glyphs(b, sp.start, sp.end);
            total = total + c as u128;
            n = n + 1;
        }
        report.glyph_count as u128 == total
    }
}

/// The first index in `names` that holds `name`.
pub open spec fn font_position(names: Seq<String>, name: String, i: int) -> bool {
    &&& 0 <= i < names.len()
    &&& names[i]@ == name@
    &&& forall|j: int| 0 <= j < i ==> (#[trigger] names[j])@ != name@
}

/// Looks a font up by exact name; the first match wins.
pub fn font_index(names: &Vec<String>, name: &String) -> (r: Result<usize, OverlayError>)
    ensures
        r matches Ok(i) ==> font_position(names@, *name, i as int),
        r is Err <==> forall|j: int| 0 <= j < names@.len() ==> (#[trigger] names@[j])@ != name@,
        r is Err ==> r == Err::<usize, OverlayError>(OverlayError::FontNotFound),
{
    let mut i: usize = 0;
    while i < names.len()
        invariant
            i <= names@.len(),
            forall|j: int| 0 <= j < i ==> (#[trigger] names@[j])@ != name@,
        decreases names@.len() - i,
    {
        if names[i] == *name {
            return Ok(i);
        }
        i = i + 1;
    }
    Err(OverlayError::FontNotFound)
}

/// The vertical shift of a block's glyphs for its alignment, given the top
/// and bottom (in whole pixels) of the laid-out text, if any was laid out:
/// none for `Top`; half the rectangle's height less half the text's for
/// `Center`; for `Bottom`, what brings the text's bottom onto the
/// rectangle's.
pub open spec fn v_offset_spec(v_align: VAlign, rect: Rect, extent: Option<(i64, i64)>) -> int {
    match extent {
        None => 0,
        Some((top, bottom)) => match v_align {
            VAlign::Top => 0,
            VAlign::Center => {
                let h = rect.bottom - rect.top;
                let half_text = if bottom - top - 1 <= 0 {
                    0
                } else {
                    (bottom - top - 1) / 2
                };
                h / 2 - half_text
            },
            VAlign::Bottom => rect.bottom - bottom,
        },
    }
}

/// The vertical shift that aligns a block's text in its rectangle.
pub fn v_offset(v_align: VAlign, rect: &Rect, extent: Option<(i64, i64)>) -> (r: i64)
    requires
        rect.top <= rect.bottom,
        extent matches Some((t, b)) ==> -COORD_LIMIT <= t <= COORD_LIMIT && -COORD_LIMIT <= b
            <= COORD_LIMIT,
    ensures
        r == v_offset_spec(v_align, *rect, extent),
        v_align == VAlign::Bottom && extent is Some ==> extent.unwrap().1 + r == rect.bottom,
{
    match extent {
        None => 0,
        Some((top, bottom)) => match v_align {
            VAlign::Top => 0,
            VAlign::Center => {
                let h = (rect.bottom - rect.top) as i64;
                let half_text = if bottom - top - 1 <= 0 {
                    0
                } else {
                    (bottom - top - 1) / 2
                };
                h / 2 - half_text
            },
            VAlign::Bottom => rect.bottom as i64 - bottom,
        },
    }
}

/// The downward shift of line `line_index` at `pt` points, as a fraction
/// `(numerator, denominator)`: the line index times the pixel scale.
pub fn line_shift(m: &crate::fit::FontMetrics, pt: u32, line_index: u32) -> (r: (u128, u128))
    requires
        m.units_per_em > 0,
    ensures
        r.0 == line_index * crate::fit::px_scale_num(*m, pt as int),
        r.1 == crate::fit::px_scale_den(*m),
        r.1 > 0,
{
    let (num, den) = crate::fit::pt_size_to_px_scale(m, pt);
    proof {
        crate::fit::lemma_scale_bound(pt as int, m.height as int);
        assert(0 <= line_index * num <= u32::MAX * (4 * u32::MAX * u32::MAX)) by (nonlinear_arith)
            requires
                0 <= line_index <= u32::MAX,
                0 <= num <= 4 * u32::MAX * u32::MAX,
        ;
    }
    (line_index as u128 * num, den)
}

} // verus!

//! The search for the largest font size at which a block's text fits.

use vstd::prelude::*;

use crate::error::OverlayError;

verus! {

/// The vertical metrics of a font, in its own design units.
#[derive(Clone, Copy, Debug, PartialEq, Eq, Structural)]
pub struct FontMetrics {
    /// The size of the em square.
    pub units_per_em: u32,
    /// The unscaled height of a line: ascent minus descent.
    pub height: u32,
}

/// Numerator of the pixel scale of `m` at `pt` points:
/// `pt * (96 / 72) * height / units_per_em`, as `pt * 4 * height`.
pub open spec fn px_scale_num(m: FontMetrics, pt: int) -> int {
    pt * 4 * m.height
}

/// Denominator of the pixel scale of `m`: `3 * units_per_em`.
pub open spec fn px_scale_den(m: FontMetrics) -> int {
    3 * m.units_per_em
}

/// Whether `n_lines` lines at `pt` points, each one pixel scale high, fit in
/// `text_height` pixels.
pub open spec fn lines_fit(m: FontMetrics, pt: int, n_lines: int, text_height: int) -> bool {
    px_scale_num(m, pt) * n_lines <= px_scale_den(m) * text_height
}

/// The pixel scale (line height in pixels) of a font at a point size, as a
/// fraction `(numerator, denominator)`: `pt * 96 / 72` pixels per em, scaled
/// by the font's line height over its em square.
pub fn pt_size_to_px_scale(m: &FontMetrics, pt: u32) -> (r: (u128, u128))
    requires
        m.units_per_em > 0,
    ensures
        r.0 == px_scale_num(*m, pt as int),
        r.1 == px_scale_den(*m),
        r.1 > 0,
{
    proof {
        lemma_scale_bound(pt as int, m.height as int);
    }
    (pt as u128 * 4 * m.height as u128, 3 * m.units_per_em as u128)
}

pub(crate) proof fn lemma_scale_bound(pt: int, h: int)
    requires
        0 <= pt <= u32::MAX,
        0 <= h <= u32::MAX,
    ensures
        0 <= pt * 4 * h <= 4 * u32::MAX * u32::MAX,
{
    assert(0 <= pt * 4 * h <= 4 * u32::MAX * u32::MAX) by (nonlinear_arith)
        requires
            0 <= pt <= u32::MAX,
            0 <= h <= u32::MAX,
    ;
}

/// Whether `n_lines` lines of the font at `pt` points fit in `text_height`
/// pixels: `line_height(pt) * n_lines <= text_height`, computed exactly.
pub fn lines_fit_height(m: &FontMetrics, pt: u32, n_lines: usize, text_height: u32) -> (r: bool)
    requires
        m.units_per_em > 0,
    ensures
        r == lines_fit(*m, pt as int, n_lines as int, text_height as int),
{
    let (num, den) = pt_size_to_px_scale(m, pt);
    proof {
        assert(0 <= den * text_height <= 4 * u32::MAX * u32::MAX) by (nonlinear_arith)
            requires
                den == 3 * m.units_per_em,
                0 <= m.units_per_em <= u32::MAX,
                0 <= text_height <= u32::MAX,
        ;
    }
    let room = den * text_height as u128;
    match num.checked_mul(n_lines as u128) {
        Some(need) => need <= room,
        None => false,
    }
}

/// Whether `s` is a size the search may take: within `[min_size, max_size]`
/// and a whole number of 4-point steps below `max_size`.
pub open spec fn is_candidate(min_size: u32, max_size: u32, s: int) -> bool {
    min_size <= s <= max_size && (max_size - s) % 4 == 0
}

/// Whether the search turned the size `s` down: unwrapped lines that are too
/// tall together, or a line that `line_fits` reported not to fit at `s`.
pub open spec fn size_rejected<F: Fn(usize, u32) -> bool>(
    line_fits: F,
    wrap: bool,
    sizing: FontMetrics,
    n_lines: usize,
    text_height: u32,
    s: u32,
) -> bool {
    ||| (!wrap && !lines_fit(sizing, s as int, n_lines as int, text_height as int))
    ||| exists|l: usize| l < n_lines && #[trigger] line_fits.ensures((l, s), false)
}

/// What the font-size search returns: the largest candidate size that it did
/// not turn down, at which every line was reported to fit; or `FitError`
/// when it turned every candidate down.
pub open spec fn fit_outcome<F: Fn(usize, u32) -> bool>(
    r: Result<u32, OverlayError>,
    line_fits: F,
    wrap: bool,
    min_size: u32,
    max_size: u32,
    sizing: FontMetrics,
    n_lines: usize,
    text_height: u32,
) -> bool {
    match r {
        Ok(s) => {
            &&& is_candidate(min_size, max_size, s as int)
            &&& (!wrap ==> lines_fit(sizing, s as int, n_lines as int, text_height as int))
            &&& forall|l: usize| l < n_lines ==> #[trigger] line_fits.ensures((l, s), true)
            &&& forall|t: u32|
                is_candidate(min_size, max_size, t as int) && t > s ==> #[trigger] size_rejected(
                    line_fits,
                    wrap,
                    sizing,
                    n_lines,
                    text_height,
                    t,
                )
        },
        Err(e) => {
            &&& e == OverlayError::FitError
            &&& forall|t: u32|
                is_candidate(min_size, max_size, t as int) ==> #[trigger] size_rejected(
                    line_fits,
                    wrap,
                    sizing,
                    n_lines,
                    text_height,
                    t,
                )
        },
    }
}

/// Finds the largest font size, from `max_size` down in 4-point steps and
/// never below `min_size`, at which a block's text fits.
///
/// `line_fits(l, s)` lays out line `l` at `s` points and says whether it
/// fits. Unwrapped text (`wrap == false`) must besides fit `n_lines` lines of
/// the `sizing` font's height into `text_height` pixels; lines are then only
/// laid out at sizes that pass this test.
pub fn fit_size<F: Fn(usize, u32) -> bool>(
    wrap: bool,
    min_size: u32,
    max_size: u32,
    sizing: &FontMetrics,
    n_lines: usize,
    text_height: u32,
    line_fits: F,
) -> (r: Result<u32, OverlayError>)
    requires
        sizing.units_per_em > 0,
        forall|l: usize, s: u32| #[trigger] line_fits.requires((l, s)),
    ensures
        fit_outcome(r, line_fits, wrap, min_size, max_size, *sizing, n_lines, text_height),
{
    if max_size < min_size {
        return Err(OverlayError::FitError);
    }
    let mut size = max_size;
    loop
        invariant
            min_size <= max_size,
            sizing.units_per_em > 0,
            forall|l: usize, s: u32| #[trigger] line_fits.requires((l, s)),
            is_candidate(min_size, max_size, size as int),
            forall|t: u32|
                is_candidate(min_size, max_size, t as int) && t > size ==> #[trigger] size_rejected(
                    line_fits,
                    wrap,
                    *sizing,
                    n_lines,
                    text_height,
                    t,
                ),
        decreases size,
    {
        let tall_ok = wrap || lines_fit_height(sizing, size, n_lines, text_height);
        if tall_ok {
            let mut l: usize = 0;
            let mut failed = false;
            while !failed && l < n_lines
                invariant
                    forall|l: usize, s: u32| #[trigger] line_fits.requires((l, s)),
                    l <= n_lines,
                    forall|k: usize| k < l ==> #[trigger] line_fits.ensures((k, size), true),
                    failed ==> l < n_lines && line_fits.ensures((l, size), false),
                decreases n_lines - l + if failed {
                    0int
                } else {
                    1int
                },
            {
                if line_fits(l, size) {
                    l = l + 1;
                } else {
                    failed = true;
                }
            }
            if !failed {
                return Ok(size);
            }
        }
        assert(size_rejected(line_fits, wrap, *sizing, n_lines, text_height, size));
        if size - min_size < 4 {
            return Err(OverlayError::FitError);
        }
        size = size - 4;
    }
}

/// When the text fits at `max_size` (every line reported to fit there, and
/// unwrapped lines fitting in height), the search succeeds with `max_size`.
pub proof fn fit_takes_max_size_when_it_fits<F: Fn(usize, u32) -> bool>(
    r: Result<u32, OverlayError>,
    line_fits: F,
    wrap: bool,
    min_size: u32,
    max_size: u32,
    sizing: FontMetrics,
    n_lines: usize,
    text_height: u32,
)
    requires
        fit_outcome(r, line_fits, wrap, min_size, max_size, sizing, n_lines, text_height),
        min_size <= max_size,
        !wrap ==> lines_fit(sizing, max_size as int, n_lines as int, text_height as int),
        forall|l: usize, b: bool| l < n_lines && #[trigger] line_fits.ensures((l, max_size), b) ==> b,
    ensures
        r == Ok::<u32, OverlayError>(max_size),
{
    assert(!size_rejected(line_fits, wrap, sizing, n_lines, text_height, max_size));
    match r {
        Ok(s) => {
            if s < max_size {
                assert(size_rejected(line_fits, wrap, sizing, n_lines, text_height, max_size));
            }
        },
        Err(_) => {
            assert(size_rejected(line_fits, wrap, sizing, n_lines, text_height, max_size));
        },
    }
}

} // verus!

use text_overlay::{
    fit_size, line_fits, lines_fit_height, pt_size_to_px_scale, FontMetrics, GlyphPlace,
    LineReport, OverlayError, Span, Text,
};

const METRICS: FontMetrics = FontMetrics { units_per_em: 1000, height: 1200 };

#[test]
fn px_scale_is_exact() {
    // 12 pt is 16 px per em; the line is 1.2 em high: 19.2 px.
    let (num, den) = pt_size_to_px_scale(&METRICS, 12);
    assert_eq!((num, den), (57600, 3000));
    assert_eq!(num as f64 / den as f64, 19.2);
}

#[test]
fn lines_fit_height_is_at_most_the_room() {
    // Three lines of 19.2 px are 57.6 px.
    assert!(lines_fit_height(&METRICS, 12, 3, 58));
    assert!(!lines_fit_height(&METRICS, 12, 3, 57));
    assert!(lines_fit_height(&METRICS, 12, 0, 0));
}

#[test]
fn fit_takes_max_size_when_everything_fits() {
    let r = fit_size(true, 6, 64, &METRICS, 1, 100, |_, _| true);
    assert_eq!(r, Ok(64));
}

#[test]
fn fit_steps_down_by_four() {
    let r = fit_size(true, 6, 64, &METRICS, 2, 100, |line, s| line == 0 || s <= 50);
    assert_eq!(r, Ok(48));
}

#[test]
fn fit_rechecks_every_line_at_the_chosen_size() {
    // Line 0 fits only at 40 exactly: 36 is chosen for line 1, and line 0
    // must then also fit there.
    let r = fit_size(true, 6, 40, &METRICS, 2, 100, |line, s| if line == 0 { s == 40 } else { s <= 36 });
    assert_eq!(r, Err(OverlayError::FitError));
}

#[test]
fn fit_fails_below_min_size() {
    let r = fit_size(true, 6, 64, &METRICS, 1, 100, |_, s| s < 6);
    assert_eq!(r, Err(OverlayError::FitError));
    let r = fit_size(true, 10, 8, &METRICS, 1, 100, |_, _| true);
    assert_eq!(r, Err(OverlayError::FitError));
}

#[test]
fn unwrapped_fit_checks_total_height() {
    // Two lines at s points are 3.2 * s px high; 100 px hold them up to 31 pt.
    let r = fit_size(false, 6, 64, &METRICS, 2, 100, |_, _| true);
    assert_eq!(r, Ok(28));
}

fn run(text: &str) -> Text {
    Text { font: "f".to_string(), text: text.to_string(), color: None }
}

#[test]
fn unwrapped_line_fits_when_every_glyph_is_drawn() {
    let runs = vec![run("héllo"), run("ab")];
    let line = vec![Span { run: 0, start: 0, end: 6 }, Span { run: 1, start: 0, end: 2 }];
    let all = LineReport { glyph_count: 7, last: None };
    let short = LineReport { glyph_count: 6, last: None };
    assert!(line_fits(false, &runs, &line, &all, 10));
    assert!(!line_fits(false, &runs, &line, &short, 10));
}

#[test]
fn wrapped_line_fits_when_last_glyph_is_placed_above_bottom() {
    let runs = vec![run("one"), run("twö\n")];
    let line = vec![Span { run: 0, start: 0, end: 3 }, Span { run: 1, start: 0, end: 5 }];
    let placed = |section, byte_index, baseline| LineReport {
        glyph_count: 6,
        last: Some(GlyphPlace { section, byte_index, baseline }),
    };
    // The last glyph is 'ö', at byte 2 of the second run; the newline draws none.
    assert!(line_fits(true, &runs, &line, &placed(1, 2, 49), 50));
    assert!(!line_fits(true, &runs, &line, &placed(1, 2, 50), 50));
    assert!(!line_fits(true, &runs, &line, &placed(1, 1, 10), 50));
    assert!(!line_fits(true, &runs, &line, &placed(0, 2, 10), 50));
    assert!(!line_fits(true, &runs, &line, &LineReport { glyph_count: 0, last: None }, 50));
}

#[test]
fn empty_wrapped_line_fits() {
    let runs = vec![run("")];
    let line = vec![Span { run: 0, start: 0, end: 0 }];
    assert!(line_fits(true, &runs, &line, &LineReport { glyph_count: 0, last: None }, 0));
}

#[test]
fn huge_line_counts_do_not_fit() {
    assert!(!lines_fit_height(&METRICS, 64, usize::MAX, u32::MAX));
    let big = FontMetrics { units_per_em: 1, height: u32::MAX };
    assert!(!lines_fit_height(&big, u32::MAX, 2, u32::MAX));
}

#[test]
fn no_lines_fit_at_max_size() {
    let r = fit_size(false, 6, 64, &METRICS, 0, 0, |_, _| false);
    assert_eq!(r, Ok(64));
}

use text_overlay::{
    font_index, hard_lines_of, line_shift, paragraph, v_offset, FontMetrics, OverlayError, Rect,
    Span, Text, VAlign,
};

fn run(text: &str) -> Text {
    Text { font: "f".to_string(), text: text.to_string(), color: None }
}

#[test]
fn hard_lines_split_at_newlines() {
    let lines = hard_lines_of(&vec![run("a\nb")]);
    assert_eq!(
        lines,
        vec![vec![Span { run: 0, start: 0, end: 1 }], vec![Span { run: 0, start: 2, end: 3 }]]
    );
}

#[test]
fn blank_line_is_kept_empty() {
    let lines = hard_lines_of(&vec![run("a\n\nb")]);
    assert_eq!(lines.len(), 3);
    assert_eq!(lines[0], vec![Span { run: 0, start: 0, end: 1 }]);
    assert!(lines[1].is_empty());
    assert_eq!(lines[2], vec![Span { run: 0, start: 3, end: 4 }]);
}

#[test]
fn soft_breaks_do_not_split() {
    let lines = hard_lines_of(&vec![run("two words")]);
    assert_eq!(lines, vec![vec![Span { run: 0, start: 0, end: 9 }]]);
}

#[test]
fn paragraph_takes_runs_whole() {
    let p = paragraph(&vec![run("ab"), run("cdé")]);
    assert_eq!(p, vec![Span { run: 0, start: 0, end: 2 }, Span { run: 1, start: 0, end: 4 }]);
}

#[test]
fn font_lookup_is_exact_and_first_wins() {
    let names = vec!["serif".to_string(), "sans".to_string(), "sans".to_string()];
    assert_eq!(font_index(&names, &"sans".to_string()), Ok(1));
    assert_eq!(font_index(&names, &"Sans".to_string()), Err(OverlayError::FontNotFound));
    assert_eq!(font_index(&vec![], &"sans".to_string()), Err(OverlayError::FontNotFound));
}

#[test]
fn bottom_alignment_puts_text_bottom_on_rect_bottom() {
    let rect = Rect { top: 10, bottom: 90, left: 0, right: 100 };
    let off = v_offset(VAlign::Bottom, &rect, Some((12, 40)));
    assert_eq!(off, 50);
    assert_eq!(40 + off, 90);
}

#[test]
fn top_and_center_alignment() {
    let rect = Rect { top: 10, bottom: 90, left: 0, right: 100 };
    assert_eq!(v_offset(VAlign::Top, &rect, Some((12, 40))), 0);
    // Height 80: half is 40; the text is 28 high: (28 - 1) / 2 = 13.
    assert_eq!(v_offset(VAlign::Center, &rect, Some((12, 40))), 27);
    assert_eq!(v_offset(VAlign::Center, &rect, None), 0);
}

#[test]
fn line_shift_is_index_times_scale() {
    let m = FontMetrics { units_per_em: 2048, height: 2400 };
    assert_eq!(line_shift(&m, 24, 3), (3 * 24 * 4 * 2400, 3 * 2048));
    assert_eq!(line_shift(&m, 24, 0).0, 0);
}

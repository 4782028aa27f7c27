use text_overlay::{
    bool_true, pixel, prepare_block, resolve_style, Block, BlockBorder, Color, HAlign,
    OverlayError, Rect, Shadow, Span, Text, VAlign,
};

fn block(text: Vec<Text>, wrap: bool) -> Block {
    Block {
        min_size: 6,
        max_size: 64,
        text,
        rect: Rect { top: 0, bottom: 100, left: 0, right: 200 },
        shadow: None,
        background: None,
        border: None,
        padding: None,
        wrap,
        h_align: HAlign::default(),
        v_align: VAlign::default(),
        color: Color::default(),
    }
}

fn run(font: &str, text: &str) -> Text {
    Text { font: font.to_string(), text: text.to_string(), color: None }
}

fn names() -> Vec<String> {
    vec!["serif".to_string(), "sans".to_string()]
}

#[test]
fn defaults() {
    assert!(bool_true());
    assert_eq!(HAlign::default(), HAlign::Left);
    assert_eq!(VAlign::default(), VAlign::Top);
}

#[test]
fn default_style() {
    let s = resolve_style(&block(vec![], true)).unwrap();
    assert_eq!(s.shadow_color, pixel(0, 0, 0, 25));
    assert_eq!(s.border_color, pixel(0, 0, 0, 255));
    assert_eq!(s.border_width, 0);
    assert_eq!(s.border_shadow_color, None);
    assert_eq!(s.background, pixel(0, 0, 0, 0));
}

#[test]
fn style_with_border_shadow() {
    let mut b = block(vec![], true);
    b.border = Some(BlockBorder {
        width: 3,
        color: Color::RgbString("#00ff00".to_string()),
        shadow: Some(Shadow { x: 1, y: 2, blur: None, color: None }),
    });
    b.background = Some(Color::Rgba(1, 2, 3, 4));
    let s = resolve_style(&b).unwrap();
    assert_eq!(s.border_color, pixel(0, 255, 0, 255));
    assert_eq!(s.border_width, 3);
    assert_eq!(s.border_shadow_color, Some(pixel(0, 0, 0, 25)));
    assert_eq!(s.background, pixel(1, 2, 3, 4));
}

#[test]
fn geometry_error_comes_first() {
    let mut b = block(vec![run("missing", "x")], true);
    b.rect = Rect { top: 0, bottom: 10, left: 190, right: 210 };
    b.background = Some(Color::RgbString("bad".to_string()));
    assert_eq!(prepare_block(200, 100, &b, &names()).err(), Some(OverlayError::GeometryError));
    b.rect = Rect { top: 0, bottom: 10, left: 10, right: 10 };
    assert_eq!(prepare_block(200, 100, &b, &names()).err(), Some(OverlayError::GeometryError));
}

#[test]
fn block_color_errors_come_next() {
    let mut b = block(vec![run("missing", "x")], true);
    b.background = Some(Color::RgbString("bad".to_string()));
    assert_eq!(prepare_block(200, 100, &b, &names()).err(), Some(OverlayError::ColorParseError));
}

#[test]
fn padding_without_room_is_a_geometry_error() {
    let mut b = block(vec![run("sans", "x")], true);
    b.padding = Some(Rect { top: 60, bottom: 60, left: 0, right: 0 });
    assert_eq!(prepare_block(200, 100, &b, &names()).err(), Some(OverlayError::GeometryError));
}

#[test]
fn unknown_font_is_reported() {
    let b = block(vec![run("sans", "x"), run("mono", "y")], true);
    assert_eq!(prepare_block(200, 100, &b, &names()).err(), Some(OverlayError::FontNotFound));
}

#[test]
fn bad_run_color_is_reported() {
    let mut r = run("sans", "x");
    r.color = Some(Color::RgbString("#1234567".to_string()));
    let b = block(vec![r], true);
    assert_eq!(prepare_block(200, 100, &b, &names()).err(), Some(OverlayError::ColorParseError));
}

#[test]
fn wrapped_plan_has_one_paragraph() {
    let mut second = run("serif", "cd");
    second.color = Some(Color::Rgb(1, 1, 1));
    let mut b = block(vec![run("sans", "ab\n"), second], true);
    b.border = Some(BlockBorder { width: 2, color: Color::default(), shadow: None });
    let plan = prepare_block(200, 100, &b, &names()).unwrap();
    assert_eq!(plan.content, Rect { top: 2, bottom: 98, left: 2, right: 198 });
    assert_eq!(
        plan.lines,
        vec![vec![Span { run: 0, start: 0, end: 3 }, Span { run: 1, start: 0, end: 2 }]]
    );
    assert_eq!(plan.fonts, vec![1, 0]);
    assert_eq!(plan.colors, vec![pixel(0, 0, 0, 255), pixel(1, 1, 1, 255)]);
}

#[test]
fn unwrapped_plan_splits_hard_lines() {
    let b = block(vec![run("sans", "top\nbottom")], false);
    let plan = prepare_block(200, 100, &b, &names()).unwrap();
    assert_eq!(
        plan.lines,
        vec![vec![Span { run: 0, start: 0, end: 3 }], vec![Span { run: 0, start: 4, end: 10 }]]
    );
}

#[test]
fn block_without_runs_has_no_text_to_lay_out() {
    let wrapped = prepare_block(200, 100, &block(vec![], true), &names()).unwrap();
    assert_eq!(wrapped.lines, vec![Vec::<Span>::new()]);
    assert!(wrapped.fonts.is_empty());
    let unwrapped = prepare_block(200, 100, &block(vec![], false), &names()).unwrap();
    assert!(unwrapped.lines.is_empty());
}

use text_overlay::{
    blend, border_shadow_layer, clear_rect, composite_layers, decoration_layer, overlay, pixel,
    stamp_shadow, stamp_text, Canvas, Pixel, Rect,
};

fn filled(width: u32, height: u32, p: Pixel) -> Canvas {
    let mut data = Vec::new();
    for _ in 0..width * height {
        data.extend_from_slice(&[p.r, p.g, p.b, p.a]);
    }
    Canvas::from_raw(width, height, data).unwrap()
}

fn at(c: &Canvas, x: u32, y: u32) -> Pixel {
    c.get((y * c.width + x) as usize)
}

#[test]
fn canvas_from_raw_checks_length() {
    assert!(Canvas::from_raw(2, 2, vec![0; 16]).is_some());
    assert!(Canvas::from_raw(2, 2, vec![0; 15]).is_none());
    let c = Canvas::new(3, 2).unwrap();
    assert_eq!(c.into_raw(), vec![0; 24]);
}

#[test]
fn blend_mixes_by_coverage() {
    let white = pixel(255, 255, 255, 255);
    let black = pixel(0, 0, 0, 255);
    assert_eq!(blend(white, black, 255), black);
    assert_eq!(blend(white, black, 0), white);
    // 255 * (255 - 51) / 255 = 204.
    assert_eq!(blend(white, black, 51), pixel(204, 204, 204, 255));
    assert_eq!(blend(pixel(0, 0, 0, 0), pixel(100, 200, 50, 7), 128), pixel(50, 100, 25, 128));
}

#[test]
fn decoration_layer_has_border_and_background() {
    let border = pixel(1, 2, 3, 255);
    let bg = pixel(9, 9, 9, 200);
    let rect = Rect { top: 2, bottom: 7, left: 1, right: 8 };
    let layer = decoration_layer(10, 10, &rect, 2, border, bg);
    assert_eq!(at(&layer, 0, 0), pixel(0, 0, 0, 0));
    assert_eq!(at(&layer, 9, 5), pixel(0, 0, 0, 0));
    assert_eq!(at(&layer, 1, 2), border);
    assert_eq!(at(&layer, 2, 4), border);
    assert_eq!(at(&layer, 8, 7), border);
    assert_eq!(at(&layer, 3, 4), bg);
    assert_eq!(at(&layer, 6, 5), bg);
    assert_eq!(at(&layer, 7, 5), border);
}

#[test]
fn border_shadow_is_the_rect_moved() {
    let c = pixel(0, 0, 0, 25);
    let rect = Rect { top: 1, bottom: 2, left: 1, right: 2 };
    let layer = border_shadow_layer(6, 6, &rect, 2, 1, c);
    assert_eq!(at(&layer, 3, 2), c);
    assert_eq!(at(&layer, 4, 3), c);
    assert_eq!(at(&layer, 1, 1), pixel(0, 0, 0, 0));
    assert_eq!(at(&layer, 5, 3), pixel(0, 0, 0, 0));
}

#[test]
fn clear_rect_makes_a_transparent_hole() {
    let p = pixel(5, 5, 5, 255);
    let mut layer = filled(5, 5, p);
    clear_rect(&mut layer, &Rect { top: 1, bottom: 3, left: 2, right: 9 });
    assert_eq!(at(&layer, 2, 1), pixel(0, 0, 0, 0));
    assert_eq!(at(&layer, 4, 3), pixel(0, 0, 0, 0));
    assert_eq!(at(&layer, 1, 1), p);
    assert_eq!(at(&layer, 2, 4), p);
    assert_eq!(at(&layer, 2, 0), p);
}

#[test]
fn overlay_keeps_transparent_and_takes_opaque() {
    let mut bottom = filled(2, 1, pixel(255, 255, 255, 255));
    let mut top = Canvas::new(2, 1).unwrap();
    top.put(1, 0, pixel(10, 20, 30, 255));
    overlay(&mut bottom, &top);
    assert_eq!(at(&bottom, 0, 0), pixel(255, 255, 255, 255));
    assert_eq!(at(&bottom, 1, 0), pixel(10, 20, 30, 255));
}

#[test]
fn overlay_blends_translucent_pixels() {
    let mut bottom = filled(1, 1, pixel(255, 255, 255, 255));
    let top = filled(1, 1, pixel(0, 0, 0, 128));
    overlay(&mut bottom, &top);
    let p = at(&bottom, 0, 0);
    assert!(p.r > 100 && p.r < 155, "{:?}", p);
    assert!(p.a >= 254, "{:?}", p);
}

#[test]
fn compositing_twice_gives_identical_buffers() {
    let bg = filled(20, 10, pixel(200, 100, 50, 255));
    let rect = Rect { top: 2, bottom: 8, left: 3, right: 15 };
    let deco = decoration_layer(20, 10, &rect, 1, pixel(0, 0, 0, 255), pixel(255, 255, 255, 255));
    let shadow = border_shadow_layer(20, 10, &rect, 2, 2, pixel(0, 0, 0, 25));
    let layers = vec![shadow, deco];
    let mut a = Canvas::from_raw(20, 10, bg.data.clone()).unwrap();
    let mut b = Canvas::from_raw(20, 10, bg.data.clone()).unwrap();
    composite_layers(&mut a, &layers);
    composite_layers(&mut b, &layers);
    assert_eq!(a.data, b.data);
    assert_ne!(a.data, bg.data);
}

#[test]
fn glyph_stamps_blend_and_skip_outside() {
    let bg = pixel(255, 255, 255, 0);
    let color = pixel(0, 0, 0, 255);
    let mut layer = Canvas::new(4, 4).unwrap();
    stamp_text(&mut layer, 1, 0, 1, 1, 1, 255, color, bg);
    assert_eq!(at(&layer, 2, 2), color);
    stamp_text(&mut layer, 0, 0, 0, 0, 0, 51, color, bg);
    assert_eq!(at(&layer, 0, 0), pixel(204, 204, 204, 51));
    let before = layer.data.clone();
    stamp_text(&mut layer, -3, 0, 0, 1, 0, 255, color, bg);
    stamp_text(&mut layer, 3, 0, 0, 1, 0, 255, color, bg);
    assert_eq!(layer.data, before);
}

#[test]
fn shadow_stamps_are_offset_and_scaled() {
    let shadow = pixel(0, 0, 0, 100);
    let mut layer = Canvas::new(5, 5).unwrap();
    stamp_shadow(&mut layer, 0, 0, 0, 1, 1, 2, 1, 255, shadow);
    assert_eq!(at(&layer, 3, 2), shadow);
    stamp_shadow(&mut layer, 0, 0, 0, 0, 0, 0, 0, 51, shadow);
    assert_eq!(at(&layer, 0, 0), pixel(0, 0, 0, 20));
    let before = layer.data.clone();
    stamp_shadow(&mut layer, 4, 4, 0, 0, 0, 1, 1, 255, shadow);
    assert_eq!(layer.data, before);
}

#[test]
fn block_over_white_leaves_outside_untouched() {
    // A white 200 x 100 canvas, one block over all of it with a transparent
    // background: only the stamped glyph pixels change.
    let white = pixel(255, 255, 255, 255);
    let mut canvas = filled(200, 100, white);
    let rect = Rect { top: 10, bottom: 60, left: 20, right: 120 };
    let clear = pixel(0, 0, 0, 0);
    let mut layer = decoration_layer(200, 100, &rect, 0, pixel(0, 0, 0, 255), clear);
    for (x, y) in [(30u32, 20u32), (31, 20), (32, 21)] {
        stamp_text(&mut layer, 0, 0, 0, x, y, 255, pixel(0, 0, 0, 255), clear);
    }
    composite_layers(&mut canvas, &vec![layer]);
    let mut inside = 0;
    for y in 0..100 {
        for x in 0..200 {
            let p = at(&canvas, x, y);
            let in_block = x >= rect.left && x <= rect.right && y >= rect.top && y <= rect.bottom;
            if p != white {
                assert!(in_block, "({}, {})", x, y);
                inside += 1;
            }
        }
    }
    assert_eq!(inside, 3);
}

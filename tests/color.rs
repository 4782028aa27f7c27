use text_overlay::{parse_color, pixel, run_color, Color, OverlayError, Pixel, Text};

#[test]
fn hex_with_hash_is_opaque_red() {
    assert_eq!(parse_color("#FF0000"), Ok(pixel(255, 0, 0, 255)));
}

#[test]
fn eight_digits_carry_alpha() {
    assert_eq!(parse_color("00FF0080"), Ok(pixel(0, 255, 0, 128)));
}

#[test]
fn lower_case_digits_parse() {
    assert_eq!(parse_color("#0a1b2c"), Ok(pixel(10, 27, 44, 255)));
}

#[test]
fn wrong_lengths_are_rejected() {
    for s in ["", "#", "FFF", "#FFFFF", "FFFFFFF", "#FFFFFFFFF", "##FFFFFF"] {
        assert_eq!(parse_color(s), Err(OverlayError::ColorParseError), "{}", s);
    }
}

#[test]
fn non_hex_digits_are_rejected() {
    for s in ["GG0000", "#12345Z", "+FFFFF", "00 000", "ÿÿÿÿÿÿ"] {
        assert_eq!(parse_color(s), Err(OverlayError::ColorParseError), "{}", s);
    }
}

#[test]
fn color_variants_resolve() {
    assert_eq!(Color::Rgb(1, 2, 3).to_pixel(), Ok(pixel(1, 2, 3, 255)));
    assert_eq!(Color::Rgba(1, 2, 3, 4).to_pixel(), Ok(pixel(1, 2, 3, 4)));
    assert_eq!(
        Color::RgbString("#102030".to_string()).to_pixel(),
        Ok(Pixel { r: 16, g: 32, b: 48, a: 255 })
    );
    assert_eq!(
        Color::RgbString("nope".to_string()).to_pixel(),
        Err(OverlayError::ColorParseError)
    );
}

#[test]
fn default_color_is_black() {
    assert_eq!(Color::default().to_pixel(), Ok(pixel(0, 0, 0, 255)));
}

#[test]
fn run_color_falls_back_to_block_color() {
    let own = Text {
        font: "f".to_string(),
        text: "x".to_string(),
        color: Some(Color::Rgb(9, 9, 9)),
    };
    let plain = Text { font: "f".to_string(), text: "x".to_string(), color: None };
    let block = Color::Rgba(1, 1, 1, 1);
    assert_eq!(run_color(&own, &block), Ok(pixel(9, 9, 9, 255)));
    assert_eq!(run_color(&plain, &block), Ok(pixel(1, 1, 1, 1)));
    let bad = Color::RgbString("#12".to_string());
    assert_eq!(run_color(&plain, &bad), Err(OverlayError::ColorParseError));
}

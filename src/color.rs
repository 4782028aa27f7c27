//! Colors as blocks describe them, and their canonical RGBA8 pixels.

use vstd::prelude::*;
use vstd::string::*;

use crate::error::OverlayError;

verus! {

/// One RGBA8 pixel.
#[derive(Clone, Copy, Debug, PartialEq, Eq, Structural)]
pub struct Pixel {
    pub r: u8,
    pub g: u8,
    pub b: u8,
    pub a: u8,
}

/// Builds a pixel from its four channels.
pub fn pixel(red: u8, green: u8, blue: u8, alpha: u8) -> (p: Pixel)
    ensures
        p == (Pixel { r: red, g: green, b: blue, a: alpha }),
{
    Pixel { r: red, g: green, b: blue, a: alpha }
}

/// A color as a block description gives it.
#[derive(Clone, Debug)]
pub enum Color {
    /// Red, green, blue; the alpha is 255.
    Rgb(u8, u8, u8),
    /// Red, green, blue, alpha.
    Rgba(u8, u8, u8, u8),
    /// `RRGGBB` or `RRGGBBAA` in hex digits, optionally after a `#`.
    RgbString(String),
}

impl Default for Color {
    fn default() -> (c: Color)
        ensures
            c == Color::Rgb(0, 0, 0),
    {
        Color::Rgb(0, 0, 0)
    }
}

pub open spec fn is_hex_digit(c: char) -> bool {
    ('0' <= c && c <= '9') || ('a' <= c && c <= 'f') || ('A' <= c && c <= 'F')
}

/// The value of a hex digit.
pub open spec fn hex_digit_value(c: char) -> nat {
    if '0' <= c && c <= '9' {
        (c as nat - '0' as nat) as nat
    } else if 'a' <= c && c <= 'f' {
        (c as nat - 'a' as nat + 10) as nat
    } else {
        (c as nat - 'A' as nat + 10) as nat
    }
}

/// The digits of a color string: what follows a leading `#`, if there is one.
pub open spec fn color_digits(s: Seq<char>) -> Seq<char> {
    if s.len() > 0 && s[0] == '#' {
        s.drop_first()
    } else {
        s
    }
}

/// Whether a color string is well formed: 6 or 8 hex digits after an optional `#`.
pub open spec fn color_string_ok(s: Seq<char>) -> bool {
    let d = color_digits(s);
    &&& (d.len() == 6 || d.len() == 8)
    &&& forall|i: int| 0 <= i < d.len() ==> is_hex_digit(#[trigger] d[i])
}

/// The byte written by the two hex digits at `2 * k` and `2 * k + 1`.
pub open spec fn hex_byte(d: Seq<char>, k: int) -> nat {
    hex_digit_value(d[2 * k]) * 16 + hex_digit_value(d[2 * k + 1])
}

/// The pixel that a well-formed color string stands for.
pub open spec fn color_string_pixel(s: Seq<char>) -> Pixel {
    let d = color_digits(s);
    Pixel {
        r: hex_byte(d, 0) as u8,
        g: hex_byte(d, 1) as u8,
        b: hex_byte(d, 2) as u8,
        a: if d.len() == 8 { hex_byte(d, 3) as u8 } else { 255 },
    }
}

/// The canonical pixel of a color, where it has one.
pub open spec fn color_pixel(c: Color) -> Option<Pixel> {
    match c {
        Color::Rgb(r, g, b) => Some(Pixel { r, g, b, a: 255 }),
        Color::Rgba(r, g, b, a) => Some(Pixel { r, g, b, a }),
        Color::RgbString(s) => if color_string_ok(s@) {
            Some(color_string_pixel(s@))
        } else {
            None
        },
    }
}

/// The value of a hex digit, or `None` for any other character.
fn hex_digit(c: char) -> (r: Option<u8>)
    ensures
        r.is_some() == is_hex_digit(c),
        r.is_some() ==> r.unwrap() as nat == hex_digit_value(c) && r.unwrap() < 16,
{
    if '0' <= c && c <= '9' {
        Some((c as u32 - '0' as u32) as u8)
    } else if 'a' <= c && c <= 'f' {
        Some((c as u32 - 'a' as u32 + 10) as u8)
    } else if 'A' <= c && c <= 'F' {
        Some((c as u32 - 'A' as u32 + 10) as u8)
    } else {
        None
    }
}

/// Parses `RRGGBB` or `RRGGBBAA` hex digits, optionally after a leading `#`.
pub fn parse_color(color: &str) -> (r: Result<Pixel, OverlayError>)
    ensures
        color_string_ok(color@) ==> r == Ok::<Pixel, OverlayError>(color_string_pixel(color@)),
        !color_string_ok(color@) ==> r == Err::<Pixel, OverlayError>(
            OverlayError::ColorParseError,
        ),
{
    let n = color.unicode_len();
    let start: usize = if n > 0 && color.get_char(0) == '#' {
        1
    } else {
        0
    };
    let ghost d = color_digits(color@);
    assert(d =~= color@.subrange(start as int, n as int));
    let len: usize = n - start;
    if len != 6 && len != 8 {
        return Err(OverlayError::ColorParseError);
    }
    let mut bytes: Vec<u8> = Vec::new();
    let mut k: usize = 0;
    while k < len / 2
        invariant
            len == 6 || len == 8,
            start + len == n,
            n == color@.len(),
            d == color@.subrange(start as int, n as int),
            k <= len / 2,
            bytes@.len() == k,
            forall|i: int| 0 <= i < 2 * k ==> is_hex_digit(#[trigger] d[i]),
            forall|j: int| 0 <= j < k ==> #[trigger] bytes@[j] as nat == hex_byte(d, j),
        decreases len / 2 - k,
    {
        let hi = hex_digit(color.get_char(start + 2 * k));
        let lo = hex_digit(color.get_char(start + 2 * k + 1));
        match (hi, lo) {
            (Some(h), Some(l)) => {
                bytes.push(h * 16 + l);
                k = k + 1;
            },
            _ => {
                assert(!is_hex_digit(d[2 * k as int]) || !is_hex_digit(d[2 * k + 1]));
                return Err(OverlayError::ColorParseError);
            },
        }
    }
    let alpha: u8 = if len == 8 {
        bytes[3]
    } else {
        255
    };
    Ok(pixel(bytes[0], bytes[1], bytes[2], alpha))
}

impl Color {
    /// The canonical pixel of this color: alpha 255 for `Rgb`, the parsed
    /// digits for `RgbString`.
    pub fn to_pixel(&self) -> (r: Result<Pixel, OverlayError>)
        ensures
            color_pixel(*self) matches Some(p) ==> r == Ok::<Pixel, OverlayError>(p),
            color_pixel(*self) is None ==> r == Err::<Pixel, OverlayError>(
                OverlayError::ColorParseError,
            ),
    {
        match self {
            Color::Rgb(r, g, b) => Ok(pixel(*r, *g, *b, 255)),
            Color::Rgba(r, g, b, a) => Ok(pixel(*r, *g, *b, *a)),
            Color::RgbString(s) => parse_color(s.as_str()),
        }
    }
}

} // verus!

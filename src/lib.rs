//! Overlays styled, auto-sized, word-wrapped text blocks onto an RGBA8 canvas.
//!
//! The library holds the verified core: color resolution, block geometry,
//! the font-size search and its fit criteria, hard-line segmentation for
//! unwrapped blocks, and the pixel compositing of decoration, text and
//! shadow layers.

pub mod block;
pub mod canvas;
pub mod color;
pub mod compose;
pub mod error;
pub mod fit;
pub mod geometry;
pub mod imaging;
pub mod layout;
pub mod plan;
pub mod segment;

pub use block::{bool_true, Block, BlockBorder, HAlign, Shadow, Text, VAlign};
pub use canvas::Canvas;
pub use color::{parse_color, pixel, Color, Pixel};
pub use compose::{
    blend, border_shadow_layer, clear_rect, composite_layers, decoration_layer, overlay,
    stamp_shadow, stamp_text, COORD_LIMIT,
};
pub use error::OverlayError;
pub use fit::{fit_size, lines_fit_height, pt_size_to_px_scale, FontMetrics};
pub use geometry::{check_rect, content_rect, Rect};
pub use layout::{font_index, line_fits, line_shift, v_offset, GlyphPlace, LineReport};
pub use plan::{prepare_block, resolve_style, run_color, BlockPlan, BlockStyle};
pub use segment::{hard_lines_of, paragraph, split_hard_lines, Span};

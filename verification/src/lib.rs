//! ASCII-art rendering of raster images.
//!
//! The pipeline turns a flat, row-major RGB byte buffer into a
//! newline-delimited text grid: nearest-neighbor resize, per-pixel
//! luminance, a fixed ten-character brightness ramp, and row layout.
pub mod glyph;
pub mod layout;
pub mod luminance;
pub mod render;
pub mod resize;

//! Bitmap font generation: packs rasterized glyphs side by side into one
//! atlas image behind a blank reserved cell, and writes the matching metrics
//! file that gives each glyph's advance width.

pub mod image;
pub mod atlas;
pub mod collector;
pub mod metrics;
pub mod outputs;

//! ANSI art: a raster image drawn as a grid of coloured terminal cells.
//!
//! The image is resampled to a size that fits a terminal, every pixel is
//! matched to the nearest of a small palette of terminal colours, and the
//! matches are written out row by row as escape-coded text.

pub mod color;
pub mod grid;
pub mod palette;
pub mod render;
pub mod resize;
pub mod scale;

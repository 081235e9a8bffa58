//! Verified rendering core for a three-color e-paper weather dashboard.
//!
//! The library builds the dashboard image: it lays out and wraps text from
//! pre-rasterized glyphs, draws the temperature/rain graph from line
//! primitives, dithers photographic content down to black and white,
//! composites the full canvas, and packs it into the display controller's
//! two-plane frame buffer.

pub mod canvas;
pub mod config;
pub mod dithering;
pub mod feed;
pub mod draw;
pub mod encode;
pub mod graph;
pub mod imgcodec;
pub mod rendering;
pub mod strutil;
pub mod text;
pub mod timing;
pub mod weather;

use vstd::prelude::*;

verus! {

} // verus!

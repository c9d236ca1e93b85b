//! The discrete core of a Monte Carlo path tracer.
//!
//! Everything here works on integers, characters and sequences: the grammar of
//! scene scripts, the layout of the frame buffer, the choice of coordinates for
//! axis-aligned rectangles and the bookkeeping of a light path's bounce budget.
//! The numerical side of rendering is built on top of these pieces.

pub mod geometry;
pub mod image;
pub mod material;
pub mod options;
pub mod output;
pub mod path;
pub mod scene;

pub use geometry::Axis;
pub use image::{Image, Rgb};
pub use material::MaterialKind;

use vstd::prelude::*;

verus! {

/// Width of a rendered frame, in pixels.
pub const IMG_WIDTH: usize = 800;

/// Height of a rendered frame, in pixels: the width at an aspect ratio of 16:9.
pub const IMG_HEIGHT: usize = 450;

/// Default number of bounces a light path may take.
pub const BOUNCE_AMOUNT: usize = 10;

/// Default number of samples averaged into one pixel.
pub const SAMPLES: usize = 100;

} // verus!

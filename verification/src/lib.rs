//! Sketchy, hand-drawn-looking rendering of exact geometric primitives.
//!
//! Every coordinate is a fixed-point integer: [`arith::UNITS_PER_PIXEL`] units
//! make one pixel. From a primitive, a set of style options and a seed the
//! crate derives a jittered path and, for filled shapes, a hachure fill. The
//! result is a list of drawing steps that a painting backend carries out.
//!
//! The generators are [`line`], [`curve`], [`ellipse`] and [`fill`]; they
//! draw from the random source of [`rng`]. [`compose`] puts them together
//! for the primitives of [`shapes`], and [`builders`] for primitives that
//! are still being drawn. Every generator is a function of its arguments and
//! of the state of the random source, and every point it gives out lies
//! within a fixed distance of the exact geometry.

pub mod arith;
pub mod builders;
pub mod compose;
pub mod curve;
pub mod ellipse;
pub mod fill;
pub mod geom;
pub mod line;
pub mod options;
pub mod path;
pub mod rng;
pub mod shapes;
pub mod trig;

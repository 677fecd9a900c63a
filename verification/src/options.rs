//! Style options of a draw call.

use vstd::prelude::*;

verus! {

/// Extra margin, in units, by which the bounds of a rough shape are loosened
/// so that they hold the jittered path. It is 20 pixels.
pub const ROUGH_BOUNDS_MARGIN: i64 = 5120;

/// Largest stroke width, in units.
pub const STROKE_WIDTH_MAX: i64 = 1048576;

/// The fixed-point value of `roughness` and `bowing` that stands for 1.
pub const FACTOR_ONE: i64 = 256;

/// Largest value of `roughness` and of `bowing`.
pub const FACTOR_MAX: i64 = 4096;

/// Largest value of `max_randomness_offset`, in units.
pub const RANDOMNESS_OFFSET_MAX: i64 = 65536;

/// Largest distance between two fill lines, in units.
pub const HACHURE_GAP_MAX: i64 = 1073741824;

/// Number of steps in a full turn of `hachure_angle`.
pub const TURN_STEPS: i64 = 64;

/// A colour with eight bits per channel.
#[derive(Clone, Copy, Debug, PartialEq, Eq, Structural)]
pub struct Color {
    /// Red.
    pub r: u8,
    /// Green.
    pub g: u8,
    /// Blue.
    pub b: u8,
    /// Opacity.
    pub a: u8,
}

impl Color {
    /// Opaque black.
    pub fn black() -> (c: Color)
        ensures
            c == (Color { r: 0, g: 0, b: 0, a: 255 }),
    {
        Color { r: 0, g: 0, b: 0, a: 255 }
    }
}

/// How a shape is drawn in the rough style. The options are read, never
/// changed, during a draw call.
#[derive(Clone, Copy, Debug, PartialEq, Eq, Structural)]
pub struct RoughOptions {
    /// Seed of the random source. Without one, each draw call differs.
    pub seed: Option<u64>,
    /// Width of the outline, in units.
    pub stroke_width: i64,
    /// Colour of the outline. Without one, no outline is drawn.
    pub stroke_color: Option<Color>,
    /// Colour of the fill. Without one, the shape is not filled.
    pub fill_color: Option<Color>,
    /// Draw each line and curve in one pass instead of two.
    pub disable_multistroke: bool,
    /// Scales every random displacement; [`FACTOR_ONE`] stands for 1.
    pub roughness: i64,
    /// Scales how far a line bows away from its segment; [`FACTOR_ONE`]
    /// stands for 1.
    pub bowing: i64,
    /// Largest random displacement of a point at roughness 1, in units.
    pub max_randomness_offset: i64,
    /// Number of chords that a curve is cut into.
    pub curve_stepcount: i64,
    /// Distance between two fill lines, in units. Where it is not positive,
    /// four stroke widths are taken.
    pub hachure_gap: i64,
    /// Direction of the fill lines, in steps of which [`TURN_STEPS`] make a
    /// full turn.
    pub hachure_angle: i64,
}

impl RoughOptions {
    /// Whether the numeric options are in the ranges the generators work with.
    pub open spec fn wf(self) -> bool {
        &&& 0 <= self.stroke_width <= STROKE_WIDTH_MAX
        &&& 0 <= self.roughness <= FACTOR_MAX
        &&& 0 <= self.bowing <= FACTOR_MAX
        &&& 0 <= self.max_randomness_offset <= RANDOMNESS_OFFSET_MAX
        &&& self.hachure_gap <= HACHURE_GAP_MAX
    }

    /// By how much the exact bounds of a shape are loosened: half the stroke
    /// width, rounded up, and the margin.
    pub open spec fn spec_bounds_margin(self) -> int {
        (self.stroke_width + 1) / 2 + ROUGH_BOUNDS_MARGIN
    }

    /// The options of a shape that was not styled: a black outline of one
    /// pixel, no fill, two passes, roughness and bowing 1.
    pub open spec fn spec_default() -> RoughOptions {
        RoughOptions {
            seed: None,
            stroke_width: 256,
            stroke_color: Some(Color { r: 0, g: 0, b: 0, a: 255 }),
            fill_color: None,
            disable_multistroke: false,
            roughness: 256,
            bowing: 256,
            max_randomness_offset: 512,
            curve_stepcount: 9,
            hachure_gap: -1i64,
            hachure_angle: 57,
        }
    }

    /// By how much the exact bounds of a shape are loosened.
    pub fn bounds_margin(&self) -> (m: i64)
        requires
            self.wf(),
        ensures
            m == self.spec_bounds_margin(),
            ROUGH_BOUNDS_MARGIN <= m <= ROUGH_BOUNDS_MARGIN + STROKE_WIDTH_MAX,
    {
        (self.stroke_width + 1) / 2 + ROUGH_BOUNDS_MARGIN
    }
}

impl Default for RoughOptions {
    fn default() -> (o: RoughOptions)
        ensures
            o == RoughOptions::spec_default(),
            o.wf(),
    {
        RoughOptions {
            seed: None,
            stroke_width: 256,
            stroke_color: Some(Color { r: 0, g: 0, b: 0, a: 255 }),
            fill_color: None,
            disable_multistroke: false,
            roughness: 256,
            bowing: 256,
            max_randomness_offset: 512,
            curve_stepcount: 9,
            hachure_gap: -1,
            hachure_angle: 57,
        }
    }
}

} // verus!

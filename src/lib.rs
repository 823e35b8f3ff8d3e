//! A round, speedometer-like gauge: the geometry that maps a value onto the dial
//! and the ordered list of shapes that draws it.
//!
//! Every length is counted in subunits, `SUBUNITS` of them to one unit of the host,
//! so that each proportion of the dial is a whole number.
mod dial;
mod shape;
mod gauge;

pub use dial::{
    angle_for, angle_of, angle_of_sixths, lemma_angle_at_bounds, lemma_angle_decreasing,
    lemma_angle_non_increasing, lemma_ticks_span, tick_at, tick_sixths, ticks, trunc_div, Tick,
};
pub use shape::{sector_points, Polar, Rgba, Shape, ShapeView, Stroke};
pub use gauge::{
    lemma_caption_only_when_given, lemma_drawing_deterministic, lemma_proportions, Gauge, Theme,
    SUBUNITS,
};

//! A small chart engine: it lays out bar and line charts in pixels, follows
//! the pointer over their elements and animates the transitions.
//!
//! The host calls a chart once per frame with the time, the place of the
//! pointer and the state of its button. The chart lays out the scale lines
//! of its value axis, puts its elements in their places, lets them react to
//! the pointer, and hands the frame out: as pixels (bar chart) or as vertex
//! and color arrays (line chart). Every animation is a function of the
//! moment at which it began and the moment of the frame, so a frame that is
//! skipped or computed twice does no harm.
//!
//! All numbers are integers. Times are counted in the host's unit
//! (milliseconds, say), places in pixels, data values in the unit of the
//! data, and fractions in fixed point with sixteen fractional bits
//! ([`utils::UNIT`] stands for one). Quotients are kept exact as long as
//! possible and rounded down when a pixel is needed.
//!
//! - [`animation`]: easing between two values
//! - [`axis`]: the scale lines of the value axis
//! - [`element`]: the elements of a chart and their reaction to the pointer
//! - [`layout`]: the geometry of bars
//! - [`raster`]: colors and pixel buffers
//! - [`bar_chart`], [`line_chart`], [`renderer`]: the charts
//! - [`types`], [`utils`]: shared records and number helpers

pub mod animation;
pub mod axis;
pub mod bar_chart;
pub mod element;
pub mod layout;
pub mod line_chart;
pub mod raster;
pub mod renderer;
pub mod types;
pub mod utils;

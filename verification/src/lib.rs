//! Raymarched rendering of a self-similar, sponge-like fractal volume, and
//! the frame pipeline that carries rendered frames to a display.
//!
//! All geometry is fixed-point: one unit of space is [`fixed::UNIT`] steps,
//! so that every result is an exact function of its integer inputs.
//!
//! * [`fixed`], [`oracle`], [`table`], [`camera`] and [`raymarch`] turn a
//!   frame index and a heading into a buffer of intensities.
//! * [`pipeline`], [`producer`], [`consumer`], [`protocol`] and [`sink`]
//!   decide what the two sides of the pipeline do; the caller owns the
//!   threads, the channels and the window.
//! * [`canvas`] and [`pattern`] draw a test pattern on an image of the
//!   `image` crate.

pub mod fixed;
pub mod oracle;
pub mod table;
pub mod camera;
pub mod raymarch;
pub mod pipeline;
pub mod producer;
pub mod consumer;
pub mod protocol;
pub mod sink;
pub mod canvas;
pub mod pattern;

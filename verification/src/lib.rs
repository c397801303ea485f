//! Verified core of a filter-to-compute image pipeline.
//!
//! Raster images are sequences of packed ARGB pixels. Filters turn an image
//! into one or three scalar planes, run a per-pixel kernel over each plane,
//! and recompose the results into a displayable image. All plane arithmetic
//! is carried out in fixed-point form (see [`sample`]), so every step of the
//! pipeline has an exact integer semantics that is stated in contracts and
//! machine-checked.

pub mod sample;
pub mod pixel;
pub mod image_converter;
pub mod arith;
pub mod filters;
pub mod channel_policy;
pub mod dispatcher;
pub mod image_processor;
pub mod preprocessor;
pub mod viewer;
pub mod utility;

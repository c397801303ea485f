//! Channel routing: which planes a filter runs on, and how its output
//! planes are recomposed.

use vstd::prelude::*;

use crate::filters::EntryPoint;

verus! {

/// The three execution-and-recomposition modes.
#[derive(Clone, Copy, Debug, PartialEq, Eq, Structural)]
pub enum ChannelMode {
    /// Run on the luminance plane only; broadcast the output plane to gray
    /// RGB.
    SinglePlane,
    /// Run on the three color planes independently; clamp and repack.
    ThreePlaneReplace,
    /// Run on the three color planes independently; add each output plane to
    /// the original image's channel, then clamp and repack.
    ThreePlaneAdditive,
}

/// The mode each kernel entry point executes under.
pub open spec fn spec_mode_for(e: EntryPoint) -> ChannelMode {
    match e {
        EntryPoint::SobelEdgeDetection => ChannelMode::SinglePlane,
        EntryPoint::PrewittEdgeDetection => ChannelMode::SinglePlane,
        EntryPoint::CannyEdgeDetection => ChannelMode::SinglePlane,
        EntryPoint::GaussianBlur => ChannelMode::ThreePlaneReplace,
        EntryPoint::LaplacianSharpening => ChannelMode::ThreePlaneAdditive,
        EntryPoint::BayerOrderedDithering => ChannelMode::ThreePlaneReplace,
    }
}

/// How many planes a mode feeds to the kernel.
pub open spec fn spec_plane_count(m: ChannelMode) -> int {
    match m {
        ChannelMode::SinglePlane => 1,
        ChannelMode::ThreePlaneReplace => 3,
        ChannelMode::ThreePlaneAdditive => 3,
    }
}

pub struct ChannelPolicy;

impl ChannelPolicy {
    /// Map a kernel entry point to its execution and recomposition mode.
    pub fn mode_for(e: EntryPoint) -> (m: ChannelMode)
        ensures
            m == spec_mode_for(e),
    {
        match e {
            EntryPoint::SobelEdgeDetection => ChannelMode::SinglePlane,
            EntryPoint::PrewittEdgeDetection => ChannelMode::SinglePlane,
            EntryPoint::CannyEdgeDetection => ChannelMode::SinglePlane,
            EntryPoint::GaussianBlur => ChannelMode::ThreePlaneReplace,
            EntryPoint::LaplacianSharpening => ChannelMode::ThreePlaneAdditive,
            EntryPoint::BayerOrderedDithering => ChannelMode::ThreePlaneReplace,
        }
    }

    /// How many planes a mode feeds to the kernel.
    pub fn plane_count(m: ChannelMode) -> (n: usize)
        ensures
            n == spec_plane_count(m),
            n == 1 || n == 3,
    {
        match m {
            ChannelMode::SinglePlane => 1,
            ChannelMode::ThreePlaneReplace => 3,
            ChannelMode::ThreePlaneAdditive => 3,
        }
    }
}

} // verus!

//! A standalone plane-preparation step.
//!
//! It derives the planes and the parameter vector one filter runs on,
//! consulting the channel policy for the routing: the luminance plane alone
//! in single-plane mode, the three decomposed color planes otherwise.

use vstd::prelude::*;

use crate::channel_policy::{spec_mode_for, ChannelMode, ChannelPolicy};
use crate::filters::{FilterKind, ImageFilter};
use crate::image_converter::{
    blue_plane, green_plane, luma_plane, red_plane, ImageConverter,
};

verus! {

pub struct Preprocessor;

impl Preprocessor {
    /// Derive the planes and the parameter vector one filter runs on.
    pub fn prepare(input: &[u32], filter: &FilterKind) -> (r: ((Vec<i64>, Vec<i64>, Vec<i64>), Vec<
        i64,
    >))
        requires
            input@.len() >= 1,
        ensures
            r.1@ == filter.spec_options(luma_plane(input@)),
            spec_mode_for(filter.entry()) == ChannelMode::SinglePlane ==> r.0.0@ == luma_plane(
                input@,
            ) && r.0.1@ == Seq::<i64>::empty() && r.0.2@ == Seq::<i64>::empty(),
            spec_mode_for(filter.entry()) != ChannelMode::SinglePlane ==> r.0.0@ == red_plane(
                input@,
            ) && r.0.1@ == green_plane(input@) && r.0.2@ == blue_plane(input@),
    {
        let grayscale = ImageConverter::convert_rgb_to_grayscale(input);
        let options = filter.compute_options(grayscale.as_slice());
        let entry = filter.entry_point();
        match ChannelPolicy::mode_for(entry) {
            ChannelMode::SinglePlane => ((grayscale, Vec::new(), Vec::new()), options),
            _ => {
                let channels = ImageConverter::decompose_rgb(input);
                (channels, options)
            },
        }
    }
}

} // verus!

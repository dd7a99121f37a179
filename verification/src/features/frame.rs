//! A captured or rendered frame as it travels through the pipeline.
use vstd::prelude::*;

verus! {

/// One frame: RGBA pixels (row-major, 4 bytes per pixel) and, for a live
/// device, the H.264 NAL unit it arrived in.
#[derive(Clone, Debug)]
pub struct Frame {
    pub width: u32,
    pub height: u32,
    pub rgba: Vec<u8>,
    pub timestamp_us: u64,
    pub h264_nalu: Option<Vec<u8>>,
}

} // verus!

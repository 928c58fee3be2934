//! Analysis of raw grayscale frames: a brightness histogram over a
//! subsampled scan, and a coarse map of the blocks that are in focus.
use vstd::prelude::*;

pub mod focus;
pub mod geometry;
pub mod luma;
pub mod text;

use crate::focus::{detect_peaks, peak_report};
use crate::geometry::{checked_geometry, validate, FrameError};
use crate::luma::{calculate_histogram, histogram};
use crate::text::{csv, decimal};

verus! {

/// The text that the histogram analysis reports for a frame: the error of
/// its geometry, or its 256 counts joined by commas.
pub open spec fn histogram_report(data: Seq<u8>, width: i32, height: i32, stride: i32) -> Seq<char> {
    match checked_geometry(width, height, stride, data.len() as usize) {
        Err(e) => e.text(),
        Ok((w, h, s)) => csv(histogram(data, s as int, w as int, h as int)),
    }
}

/// The text that the focus-peak analysis reports for a frame: the error of
/// its geometry, or the report of the grid.
pub open spec fn focus_report(data: Seq<u8>, width: i32, height: i32, stride: i32) -> Seq<char> {
    match checked_geometry(width, height, stride, data.len() as usize) {
        Err(e) => e.text(),
        Ok((w, h, s)) => peak_report(data, s as int, w as int, h as int),
    }
}

/// The errors that geometry checking reports, as each analysis returns them.
pub open spec fn refused_geometry(
    data: Seq<u8>,
    width: i32,
    height: i32,
    stride: i32,
    r: Seq<char>,
) -> bool {
    &&& width <= 0 || height <= 0 || stride <= 0 ==> r == "Error: Invalid dimensions"@
    &&& width > 0 && height > 0 && 0 < stride < width ==> r == "Error: Stride smaller than width"@
    &&& 0 < width <= stride && height > 0 && data.len() < height * stride ==> r
        == "Error: Buffer too small. Len: "@ + decimal(data.len()) + ", Expected: "@ + decimal(
        (height * stride) as nat,
    )
}

proof fn geometry_errors_reported(data: Seq<u8>, width: i32, height: i32, stride: i32)
    requires
        data.len() <= usize::MAX,
    ensures
        forall|e: FrameError|
            checked_geometry(width, height, stride, data.len() as usize) == Err::<
                (usize, usize, usize),
                FrameError,
            >(e) ==> refused_geometry(data, width, height, stride, #[trigger] e.text()),
{
    if 0 < width <= stride && height > 0 && data.len() < height * stride {
        assert(height * stride <= 0x7fff_ffff * 0x7fff_ffff) by (nonlinear_arith)
            requires
                0 < height <= 0x7fff_ffff,
                0 < stride <= 0x7fff_ffff,
        ;
    }
}

/// Checks a frame and reports the histogram of its sampled pixels, or why
/// the frame was refused.
pub fn process_image_frame(data: &[u8], width: i32, height: i32, stride: i32) -> (r: String)
    ensures
        r@ == histogram_report(data@, width, height, stride),
        refused_geometry(data@, width, height, stride, r@),
{
    proof {
        geometry_errors_reported(data@, width, height, stride);
    }
    match validate(width, height, stride, data.len()) {
        Err(e) => e.message(),
        Ok((w, h, s)) => calculate_histogram(data, s, w, h),
    }
}

/// Checks a frame and reports the blocks of its grid that are in focus, or
/// why the frame was refused.
pub fn process_focus_peaking(data: &[u8], width: i32, height: i32, stride: i32) -> (r: String)
    ensures
        r@ == focus_report(data@, width, height, stride),
        refused_geometry(data@, width, height, stride, r@),
        0 < width < 10 && width <= stride && 0 < height && height * stride <= data@.len() ==> r@
            == FrameError::FrameTooSmallForGrid.text(),
        0 < height < 10 && 0 < width <= stride && height * stride <= data@.len() ==> r@
            == FrameError::FrameTooSmallForGrid.text(),
{
    proof {
        geometry_errors_reported(data@, width, height, stride);
    }
    match validate(width, height, stride, data.len()) {
        Err(e) => e.message(),
        Ok((w, h, s)) => detect_peaks(data, s, w, h),
    }
}

} // verus!

use vstd::prelude::*;

use crate::text::{decimal, push_decimal};

verus! {

/// Why a frame was refused.
#[derive(Debug, Clone, Copy, PartialEq, Eq, Structural)]
pub enum FrameError {
    /// Width, height or stride is not positive.
    InvalidDimensions,
    /// A row's stride is shorter than its width.
    StrideTooSmall,
    /// The buffer holds fewer than `height * stride` bytes.
    BufferTooSmall { actual: usize, expected: u64 },
    /// Width or height is below the ten blocks of the focus grid.
    FrameTooSmallForGrid,
}

impl FrameError {
    /// The text that reports this error.
    pub open spec fn text(self) -> Seq<char> {
        match self {
            FrameError::InvalidDimensions => "Error: Invalid dimensions"@,
            FrameError::StrideTooSmall => "Error: Stride smaller than width"@,
            FrameError::BufferTooSmall { actual, expected } => "Error: Buffer too small. Len: "@
                + decimal(actual as nat) + ", Expected: "@ + decimal(expected as nat),
            FrameError::FrameTooSmallForGrid => "Error: Image too small for grid"@,
        }
    }

    /// Writes the text that reports this error.
    pub fn message(&self) -> (r: String)
        ensures
            r@ == self.text(),
    {
        match self {
            FrameError::InvalidDimensions => String::from_str("Error: Invalid dimensions"),
            FrameError::StrideTooSmall => String::from_str("Error: Stride smaller than width"),
            FrameError::BufferTooSmall { actual, expected } => {
                let mut out = String::from_str("Error: Buffer too small. Len: ");
                push_decimal(&mut out, *actual as u64);
                out.append(", Expected: ");
                push_decimal(&mut out, *expected);
                out
            },
            FrameError::FrameTooSmallForGrid => String::from_str("Error: Image too small for grid"),
        }
    }
}

/// The outcome of checking a frame's geometry against its buffer length:
/// the dimensions as sizes, or the first rule that they break.
pub open spec fn checked_geometry(width: i32, height: i32, stride: i32, buffer_len: usize) -> Result<
    (usize, usize, usize),
    FrameError,
> {
    if width <= 0 || height <= 0 || stride <= 0 {
        Err(FrameError::InvalidDimensions)
    } else if stride < width {
        Err(FrameError::StrideTooSmall)
    } else if (buffer_len as int) < height * stride {
        Err(FrameError::BufferTooSmall { actual: buffer_len, expected: (height * stride) as u64 })
    } else {
        Ok((width as usize, height as usize, stride as usize))
    }
}

/// A buffer of `len` bytes holds `height` rows of `stride` bytes, each
/// row with `width` pixels at its start.
pub open spec fn frame_fits(len: int, stride: int, width: int, height: int) -> bool {
    &&& width <= stride
    &&& height * stride <= len
}

/// Checks a frame's dimensions against the length of its buffer.
pub fn validate(width: i32, height: i32, stride: i32, buffer_len: usize) -> (r: Result<
    (usize, usize, usize),
    FrameError,
>)
    ensures
        r == checked_geometry(width, height, stride, buffer_len),
        width <= 0 || height <= 0 || stride <= 0 ==> r == Err::<(usize, usize, usize), FrameError>(
            FrameError::InvalidDimensions,
        ),
        width > 0 && height > 0 && 0 < stride < width ==> r == Err::<
            (usize, usize, usize),
            FrameError,
        >(FrameError::StrideTooSmall),
        0 < width <= stride && height > 0 && buffer_len < height * stride ==> r == Err::<
            (usize, usize, usize),
            FrameError,
        >(FrameError::BufferTooSmall { actual: buffer_len, expected: (height * stride) as u64 }),
        r matches Ok((w, h, s)) ==> w > 0 && h > 0 && frame_fits(buffer_len as int, s as int, w as int, h as int),
{
    if width <= 0 || height <= 0 || stride <= 0 {
        return Err(FrameError::InvalidDimensions);
    }
    if stride < width {
        return Err(FrameError::StrideTooSmall);
    }
    assert((height as u64) * (stride as u64) <= 0x7fff_ffff * 0x7fff_ffff) by (nonlinear_arith)
        requires
            0 < height <= 0x7fff_ffff,
            0 < stride <= 0x7fff_ffff,
    ;
    let required = (height as u64) * (stride as u64);
    if (buffer_len as u64) < required {
        return Err(FrameError::BufferTooSmall { actual: buffer_len, expected: required });
    }
    Ok((width as usize, height as usize, stride as usize))
}

} // verus!

use vstd::prelude::*;

use crate::geometry::frame_fits;
use crate::text::{csv, join_decimal, naturals};

verus! {

/// The histogram samples every fourth row and every fourth column.
pub const SAMPLE_STEP: usize = 4;

/// The number of values that one byte can hold, one bucket each.
pub const BUCKETS: usize = 256;

/// How many of the positions `0, 4, 8, ...` lie below `n`.
pub open spec fn sampled(n: int) -> int {
    (n + 3) / 4
}

/// How many of the first `k` sampled columns of the row at `row_start`
/// hold the value `v`.
pub open spec fn row_hits(data: Seq<u8>, row_start: int, k: int, v: int) -> nat
    decreases k,
{
    if k <= 0 {
        0
    } else {
        row_hits(data, row_start, k - 1, v) + if data[row_start + 4 * (k - 1)] == v {
            1nat
        } else {
            0nat
        }
    }
}

/// How many sampled pixels of the first `i` sampled rows hold the value `v`.
pub open spec fn frame_hits(data: Seq<u8>, stride: int, width: int, i: int, v: int) -> nat
    decreases i,
{
    if i <= 0 {
        0
    } else {
        frame_hits(data, stride, width, i - 1, v) + row_hits(
            data,
            4 * (i - 1) * stride,
            sampled(width),
            v,
        )
    }
}

/// The 256 bucket counts of the sampled pixels: rows and columns
/// `0, 4, 8, ...` below the height and the width.
pub open spec fn histogram(data: Seq<u8>, stride: int, width: int, height: int) -> Seq<nat> {
    Seq::new(BUCKETS as nat, |v: int| frame_hits(data, stride, width, sampled(height), v))
}

/// The histogram of the sampled pixels, its 256 counts joined by commas.
pub fn calculate_histogram(data: &[u8], stride: usize, width: usize, height: usize) -> (r: String)
    requires
        frame_fits(data@.len() as int, stride as int, width as int, height as int),
    ensures
        r@ == csv(histogram(data@, stride as int, width as int, height as int)),
{
    let ghost d = data@;
    let rows = height / SAMPLE_STEP + if height % SAMPLE_STEP == 0 {
        0
    } else {
        1
    };
    let cols = width / SAMPLE_STEP + if width % SAMPLE_STEP == 0 {
        0
    } else {
        1
    };
    assert(rows == sampled(height as int) && cols == sampled(width as int));
    proof {
        assert(rows * cols <= height * width) by (nonlinear_arith)
            requires
                rows <= height,
                cols <= width,
        ;
        assert(height * width <= height * stride) by (nonlinear_arith)
            requires
                width <= stride,
        ;
    }
    let mut counts: Vec<u64> = Vec::new();
    let mut k: usize = 0;
    while k < BUCKETS
        invariant
            k <= BUCKETS,
            counts@.len() == k,
            forall|v: int| 0 <= v < k ==> counts@[v] == 0,
        decreases BUCKETS - k,
    {
        counts.push(0);
        k = k + 1;
    }
    let len = data.len();
    let mut i: usize = 0;
    while i < rows
        invariant
            d == data@,
            len == d.len(),
            frame_fits(d.len() as int, stride as int, width as int, height as int),
            rows == sampled(height as int),
            cols == sampled(width as int),
            rows * cols <= d.len(),
            i <= rows,
            counts@.len() == BUCKETS,
            forall|v: int|
                0 <= v < BUCKETS ==> #[trigger] counts@[v] == frame_hits(
                    d,
                    stride as int,
                    width as int,
                    i as int,
                    v,
                ),
            forall|v: int| 0 <= v < BUCKETS ==> #[trigger] counts@[v] <= i * cols,
        decreases rows - i,
    {
        assert(4 * i + 1 <= height);
        proof {
            assert((4 * i + 1) * stride <= height * stride) by (nonlinear_arith)
                requires
                    4 * i + 1 <= height,
            ;
            assert((4 * i + 1) * stride == 4 * i * stride + stride) by (nonlinear_arith);
            assert((i + 1) * cols <= rows * cols) by (nonlinear_arith)
                requires
                    i + 1 <= rows,
            ;
            assert((i + 1) * cols == i * cols + cols) by (nonlinear_arith);
        }
        let row_start = SAMPLE_STEP * i * stride;
        let mut j: usize = 0;
        while j < cols
            invariant
                d == data@,
                len == d.len(),
                frame_fits(d.len() as int, stride as int, width as int, height as int),
                cols == sampled(width as int),
                i < rows,
                j <= cols,
                row_start == 4 * i * stride,
                row_start + width <= d.len(),
                (i + 1) * cols <= d.len(),
                (i + 1) * cols == i * cols + cols,
                counts@.len() == BUCKETS,
                forall|v: int|
                    0 <= v < BUCKETS ==> #[trigger] counts@[v] == frame_hits(
                        d,
                        stride as int,
                        width as int,
                        i as int,
                        v,
                    ) + row_hits(d, row_start as int, j as int, v),
                forall|v: int| 0 <= v < BUCKETS ==> #[trigger] counts@[v] <= i * cols + j,
            decreases cols - j,
        {
            assert(4 * j + 1 <= width);
            let value = data[row_start + SAMPLE_STEP * j] as usize;
            let c = counts[value];
            counts.set(value, c + 1);
            j = j + 1;
        }
        i = i + 1;
    }
    proof {
        assert(naturals(counts@) =~= histogram(d, stride as int, width as int, height as int));
    }
    join_decimal(&counts)
}

/// The byte offset of the `j`-th sampled column of the `i`-th sampled row.
pub open spec fn sample_offset(stride: int, i: int, j: int) -> int {
    4 * i * stride + 4 * j
}

proof fn row_hits_agree(a: Seq<u8>, b: Seq<u8>, stride: int, i: int, k: int, v: int)
    requires
        forall|j: int| 0 <= j < k ==> a[#[trigger] sample_offset(stride, i, j)] == b[sample_offset(stride, i, j)],
    ensures
        row_hits(a, 4 * i * stride, k, v) == row_hits(b, 4 * i * stride, k, v),
    decreases k,
{
    if k > 0 {
        row_hits_agree(a, b, stride, i, k - 1, v);
        assert(a[sample_offset(stride, i, k - 1)] == b[sample_offset(stride, i, k - 1)]);
    }
}

proof fn frame_hits_agree(a: Seq<u8>, b: Seq<u8>, stride: int, width: int, i: int, v: int)
    requires
        forall|r: int, j: int|
            0 <= r < i && 0 <= j < sampled(width) ==> a[#[trigger] sample_offset(stride, r, j)]
                == b[sample_offset(stride, r, j)],
    ensures
        frame_hits(a, stride, width, i, v) == frame_hits(b, stride, width, i, v),
    decreases i,
{
    if i > 0 {
        frame_hits_agree(a, b, stride, width, i - 1, v);
        row_hits_agree(a, b, stride, i - 1, sampled(width), v);
    }
}

/// The histogram reads only the sampled pixels: two buffers that agree at
/// every sampled offset have the same histogram, whatever they hold
/// elsewhere.
pub proof fn histogram_ignores_unsampled(a: Seq<u8>, b: Seq<u8>, stride: int, width: int, height: int)
    requires
        forall|i: int, j: int|
            0 <= i < sampled(height) && 0 <= j < sampled(width) ==> a[#[trigger] sample_offset(stride, i, j)]
                == b[sample_offset(stride, i, j)],
    ensures
        histogram(a, stride, width, height) == histogram(b, stride, width, height),
{
    assert forall|v: int| 0 <= v < BUCKETS implies #[trigger] histogram(a, stride, width, height)[v]
        == histogram(b, stride, width, height)[v] by {
        frame_hits_agree(a, b, stride, width, sampled(height), v);
    }
    assert(histogram(a, stride, width, height) =~= histogram(b, stride, width, height));
}

/// The sum of the first `k` pixels of the row at `row_start`.
pub open spec fn row_sum(data: Seq<u8>, row_start: int, k: int) -> nat
    decreases k,
{
    if k <= 0 {
        0
    } else {
        row_sum(data, row_start, k - 1) + data[row_start + k - 1] as nat
    }
}

/// The sum of the pixels of the first `r` rows.
pub open spec fn frame_sum(data: Seq<u8>, stride: int, width: int, r: int) -> nat
    decreases r,
{
    if r <= 0 {
        0
    } else {
        frame_sum(data, stride, width, r - 1) + row_sum(data, (r - 1) * stride, width)
    }
}

/// The mean of all pixels of the frame, rounded down; zero for a frame
/// without pixels.
pub open spec fn average_luma(data: Seq<u8>, stride: int, width: int, height: int) -> nat {
    if width * height == 0 {
        0
    } else {
        frame_sum(data, stride, width, height) / (width * height) as nat
    }
}

/// The mean luminance of every pixel of the frame, rounded down.
pub fn calculate_average_luma(data: &[u8], stride: usize, width: usize, height: usize) -> (r: u32)
    requires
        frame_fits(data@.len() as int, stride as int, width as int, height as int),
    ensures
        r == average_luma(data@, stride as int, width as int, height as int),
        r <= 255,
{
    let ghost d = data@;
    let len = data.len();
    proof {
        assert(height * width <= height * stride) by (nonlinear_arith)
            requires
                width <= stride,
        ;
    }
    let mut luma_sum: u128 = 0;
    let mut pixel_count: u64 = 0;
    let mut row: usize = 0;
    while row < height
        invariant
            d == data@,
            len == d.len(),
            frame_fits(len as int, stride as int, width as int, height as int),
            height * width <= len,
            row <= height,
            pixel_count == row * width,
            luma_sum == frame_sum(d, stride as int, width as int, row as int),
            luma_sum <= 255 * pixel_count,
        decreases height - row,
    {
        proof {
            assert((row + 1) * stride <= height * stride) by (nonlinear_arith)
                requires
                    row + 1 <= height,
            ;
            assert((row + 1) * stride == row * stride + stride) by (nonlinear_arith);
            assert((row + 1) * width <= height * width) by (nonlinear_arith)
                requires
                    row + 1 <= height,
            ;
            assert((row + 1) * width == row * width + width) by (nonlinear_arith);
        }
        let row_start = row * stride;
        let mut col: usize = 0;
        while col < width
            invariant
                d == data@,
                len == d.len(),
                row < height,
                col <= width,
                row_start + width <= len,
                (row + 1) * width <= len,
                (row + 1) * width == row * width + width,
                pixel_count == row * width + col,
                luma_sum == frame_sum(d, stride as int, width as int, row as int) + row_sum(
                    d,
                    row_start as int,
                    col as int,
                ),
                luma_sum <= 255 * pixel_count,
            decreases width - col,
        {
            luma_sum = luma_sum + data[row_start + col] as u128;
            pixel_count = pixel_count + 1;
            col = col + 1;
        }
        row = row + 1;
    }
    if pixel_count > 0 {
        proof {
            assert(luma_sum as int / (pixel_count as int) <= 255) by (nonlinear_arith)
                requires
                    luma_sum <= 255 * pixel_count,
                    pixel_count > 0,
            ;
            assert(pixel_count == width * height) by (nonlinear_arith)
                requires
                    pixel_count == height * width,
            ;
        }
        (luma_sum / (pixel_count as u128)) as u32
    } else {
        assert(width * height == 0) by (nonlinear_arith)
            requires
                pixel_count == height * width,
                pixel_count == 0,
        ;
        0
    }
}

} // verus!

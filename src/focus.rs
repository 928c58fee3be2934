use vstd::prelude::*;

use crate::geometry::{frame_fits, FrameError};
use crate::text::{csv, join_decimal, naturals};

verus! {

/// The focus grid has this many blocks along each axis.
pub const GRID_SIZE: usize = 10;

/// A pixel is an edge when its gradient exceeds this value.
pub const EDGE_THRESHOLD: u16 = 50;

/// A block is in focus when it holds at least this many edge pixels.
pub const MIN_EDGES_PER_BLOCK: usize = 10;

/// The absolute difference of two samples.
pub open spec fn sample_diff(a: u8, b: u8) -> int {
    if a >= b {
        a - b
    } else {
        b - a
    }
}

/// The gradient at byte offset `p`: the absolute horizontal difference of
/// its left and right neighbours plus the absolute vertical difference of
/// the neighbours above and below.
pub open spec fn gradient(data: Seq<u8>, stride: int, p: int) -> int {
    sample_diff(data[p + 1], data[p - 1]) + sample_diff(data[p + stride], data[p - stride])
}

/// The pixel at byte offset `p` has all four neighbours inside the buffer
/// and a gradient above `threshold`.
pub open spec fn is_edge(data: Seq<u8>, stride: int, p: int, threshold: int) -> bool {
    &&& p + stride + 1 < data.len()
    &&& p >= stride + 1
    &&& gradient(data, stride, p) > threshold
}

/// The number of edge pixels at offsets `row_start + x` for `x` in `lo..hi`.
pub open spec fn row_edges(data: Seq<u8>, stride: int, row_start: int, lo: int, hi: int, threshold: int) -> nat
    decreases hi - lo,
{
    if hi <= lo {
        0
    } else {
        row_edges(data, stride, row_start, lo, hi - 1, threshold) + if is_edge(
            data,
            stride,
            row_start + hi - 1,
            threshold,
        ) {
            1nat
        } else {
            0nat
        }
    }
}

/// The number of edge pixels at rows `y_lo..y_hi` and columns `x_lo..x_hi`.
pub open spec fn span_edges(
    data: Seq<u8>,
    stride: int,
    y_lo: int,
    y_hi: int,
    x_lo: int,
    x_hi: int,
    threshold: int,
) -> nat
    decreases y_hi - y_lo,
{
    if y_hi <= y_lo {
        0
    } else {
        span_edges(data, stride, y_lo, y_hi - 1, x_lo, x_hi, threshold) + row_edges(
            data,
            stride,
            (y_hi - 1) * stride,
            x_lo,
            x_hi,
            threshold,
        )
    }
}

/// The first pixel of grid cell `g` along an axis of length `dim`.
pub open spec fn cell_start(g: int, dim: int) -> int {
    g * (dim / GRID_SIZE as int)
}

/// The end of grid cell `g` along an axis of length `dim`: the start of the
/// next cell, but never past the last pixel.
pub open spec fn cell_end(g: int, dim: int) -> int {
    let next = (g + 1) * (dim / GRID_SIZE as int);
    if next < dim - 1 {
        next
    } else {
        dim - 1
    }
}

/// The number of edge pixels in the interior of grid cell (`gx`, `gy`): its
/// outermost ring of pixels is left out.
pub open spec fn block_edges(
    data: Seq<u8>,
    stride: int,
    width: int,
    height: int,
    gx: int,
    gy: int,
    threshold: int,
) -> nat {
    span_edges(
        data,
        stride,
        cell_start(gy, height) + 1,
        cell_end(gy, height) - 1,
        cell_start(gx, width) + 1,
        cell_end(gx, width) - 1,
        threshold,
    )
}

/// Block `b` of the grid, numbered row by row, holds enough edges.
pub open spec fn block_in_focus(data: Seq<u8>, stride: int, width: int, height: int, b: int) -> bool {
    block_edges(
        data,
        stride,
        width,
        height,
        b % GRID_SIZE as int,
        b / GRID_SIZE as int,
        EDGE_THRESHOLD as int,
    ) >= MIN_EDGES_PER_BLOCK
}

/// The blocks among `0..n` that are in focus, in ascending order.
pub open spec fn focus_blocks(data: Seq<u8>, stride: int, width: int, height: int, n: int) -> Seq<nat>
    decreases n,
{
    if n <= 0 {
        Seq::empty()
    } else {
        focus_blocks(data, stride, width, height, n - 1) + if block_in_focus(
            data,
            stride,
            width,
            height,
            n - 1,
        ) {
            seq![(n - 1) as nat]
        } else {
            Seq::empty()
        }
    }
}

/// The number of blocks in the grid.
pub open spec fn block_count() -> int {
    GRID_SIZE as int * GRID_SIZE as int
}

/// The text that focus peaking reports for a frame: an error when a grid
/// cell would be empty, else the blocks in focus joined by commas.
pub open spec fn peak_report(data: Seq<u8>, stride: int, width: int, height: int) -> Seq<char> {
    if width < GRID_SIZE || height < GRID_SIZE {
        FrameError::FrameTooSmallForGrid.text()
    } else {
        csv(focus_blocks(data, stride, width, height, block_count()))
    }
}

/// Counts the edge pixels at offsets `row_start + x` for `x` in `lo..hi`.
fn row_edge_count(data: &[u8], stride: usize, row_start: usize, lo: usize, hi: usize) -> (r: usize)
    requires
        row_start + hi <= data@.len(),
    ensures
        r == row_edges(data@, stride as int, row_start as int, lo as int, hi as int, EDGE_THRESHOLD as int),
        r <= hi,
{
    let len = data.len();
    let mut count: usize = 0;
    let mut x: usize = lo;
    while x < hi
        invariant
            len == data@.len(),
            row_start + hi <= len,
            lo <= hi ==> lo <= x <= hi,
            lo > hi ==> x == lo,
            count == row_edges(data@, stride as int, row_start as int, lo as int, x as int, EDGE_THRESHOLD as int),
            count <= x - lo,
        decreases hi - x,
    {
        let p = row_start + x;
        if stride < len && p < len - stride - 1 && p > stride {
            let left = data[p - 1];
            let right = data[p + 1];
            let top = data[p - stride];
            let bottom = data[p + stride];
            let gx: u16 = if right >= left {
                (right - left) as u16
            } else {
                (left - right) as u16
            };
            let gy: u16 = if bottom >= top {
                (bottom - top) as u16
            } else {
                (top - bottom) as u16
            };
            if gx + gy > EDGE_THRESHOLD {
                count = count + 1;
            }
        }
        x = x + 1;
    }
    count
}

/// Counts the edge pixels at rows `y_lo..y_hi` and columns `x_lo..x_hi`.
fn span_edge_count(data: &[u8], stride: usize, y_lo: usize, y_hi: usize, x_lo: usize, x_hi: usize) -> (r: usize)
    requires
        x_hi <= stride,
        y_hi * stride <= data@.len(),
    ensures
        r == span_edges(
            data@,
            stride as int,
            y_lo as int,
            y_hi as int,
            x_lo as int,
            x_hi as int,
            EDGE_THRESHOLD as int,
        ),
{
    let len = data.len();
    let mut count: usize = 0;
    let mut y: usize = y_lo;
    while y < y_hi
        invariant
            len == data@.len(),
            x_hi <= stride,
            y_hi * stride <= len,
            y_lo <= y_hi ==> y_lo <= y <= y_hi,
            y_lo > y_hi ==> y == y_lo,
            count == span_edges(
                data@,
                stride as int,
                y_lo as int,
                y as int,
                x_lo as int,
                x_hi as int,
                EDGE_THRESHOLD as int,
            ),
            count <= (y - y_lo) * stride,
        decreases y_hi - y,
    {
        proof {
            assert((y + 1) * stride <= y_hi * stride) by (nonlinear_arith)
                requires
                    y < y_hi,
            ;
            assert((y - y_lo) * stride + stride == (y - y_lo + 1) * stride) by (nonlinear_arith);
            assert((y - y_lo + 1) * stride <= (y + 1) * stride) by (nonlinear_arith)
                requires
                    y_lo <= y,
            ;
            assert((y + 1) * stride == y * stride + stride) by (nonlinear_arith);
        }
        let row_start = y * stride;
        let row = row_edge_count(data, stride, row_start, x_lo, x_hi);
        count = count + row;
        y = y + 1;
    }
    count
}

/// The blocks of the 10×10 grid whose interior holds at least ten pixels
/// with a gradient above fifty, in ascending row-major order and joined by
/// commas; or the error text when the frame is narrower or lower than the
/// grid.
pub fn detect_peaks(data: &[u8], stride: usize, width: usize, height: usize) -> (r: String)
    requires
        frame_fits(data@.len() as int, stride as int, width as int, height as int),
    ensures
        r@ == peak_report(data@, stride as int, width as int, height as int),
        width < GRID_SIZE || height < GRID_SIZE ==> r@ == FrameError::FrameTooSmallForGrid.text(),
{
    let block_width = width / GRID_SIZE;
    let block_height = height / GRID_SIZE;
    if block_width == 0 || block_height == 0 {
        return FrameError::FrameTooSmallForGrid.message();
    }
    let ghost d = data@;
    let mut blocks: Vec<u64> = Vec::new();
    let mut b: usize = 0;
    while b < GRID_SIZE * GRID_SIZE
        invariant
            d == data@,
            frame_fits(d.len() as int, stride as int, width as int, height as int),
            width >= GRID_SIZE,
            height >= GRID_SIZE,
            block_width == width / GRID_SIZE,
            block_height == height / GRID_SIZE,
            b <= GRID_SIZE * GRID_SIZE,
            naturals(blocks@) == focus_blocks(d, stride as int, width as int, height as int, b as int),
        decreases GRID_SIZE * GRID_SIZE - b,
    {
        let grid_x = b % GRID_SIZE;
        let grid_y = b / GRID_SIZE;
        proof {
            assert((grid_x + 1) * block_width <= GRID_SIZE * block_width) by (nonlinear_arith)
                requires
                    grid_x < GRID_SIZE,
            ;
            assert((grid_y + 1) * block_height <= GRID_SIZE * block_height) by (nonlinear_arith)
                requires
                    grid_y < GRID_SIZE,
            ;
            assert(grid_x * block_width <= (grid_x + 1) * block_width) by (nonlinear_arith);
            assert((grid_x + 1) * block_width >= block_width) by (nonlinear_arith);
            assert((grid_y + 1) * block_height >= block_height) by (nonlinear_arith);
            assert(grid_y * block_height <= (grid_y + 1) * block_height) by (nonlinear_arith);
        }
        let start_x = grid_x * block_width;
        let start_y = grid_y * block_height;
        let next_x = (grid_x + 1) * block_width;
        let next_y = (grid_y + 1) * block_height;
        let end_x = if next_x < width - 1 {
            next_x
        } else {
            width - 1
        };
        let end_y = if next_y < height - 1 {
            next_y
        } else {
            height - 1
        };
        proof {
            assert((end_y - 1) * stride <= height * stride) by (nonlinear_arith)
                requires
                    end_y <= height,
                    end_y >= 1,
            ;
        }
        let edges = span_edge_count(data, stride, start_y + 1, end_y - 1, start_x + 1, end_x - 1);
        if edges >= MIN_EDGES_PER_BLOCK {
            blocks.push(b as u64);
        }
        proof {
            assert(naturals(blocks@) =~= focus_blocks(d, stride as int, width as int, height as int, b + 1));
        }
        b = b + 1;
    }
    join_decimal(&blocks)
}

proof fn row_edges_none(data: Seq<u8>, stride: int, row_start: int, lo: int, hi: int, threshold: int)
    requires
        forall|p: int| !#[trigger] is_edge(data, stride, p, threshold),
    ensures
        row_edges(data, stride, row_start, lo, hi, threshold) == 0,
    decreases hi - lo,
{
    if hi > lo {
        row_edges_none(data, stride, row_start, lo, hi - 1, threshold);
    }
}

proof fn span_edges_none(
    data: Seq<u8>,
    stride: int,
    y_lo: int,
    y_hi: int,
    x_lo: int,
    x_hi: int,
    threshold: int,
)
    requires
        forall|p: int| !#[trigger] is_edge(data, stride, p, threshold),
    ensures
        span_edges(data, stride, y_lo, y_hi, x_lo, x_hi, threshold) == 0,
    decreases y_hi - y_lo,
{
    if y_hi > y_lo {
        span_edges_none(data, stride, y_lo, y_hi - 1, x_lo, x_hi, threshold);
        row_edges_none(data, stride, (y_hi - 1) * stride, x_lo, x_hi, threshold);
    }
}

proof fn focus_blocks_none(data: Seq<u8>, stride: int, width: int, height: int, n: int)
    requires
        forall|p: int| !#[trigger] is_edge(data, stride, p, EDGE_THRESHOLD as int),
    ensures
        focus_blocks(data, stride, width, height, n) == Seq::<nat>::empty(),
    decreases n,
{
    if n > 0 {
        focus_blocks_none(data, stride, width, height, n - 1);
        let b = n - 1;
        span_edges_none(
            data,
            stride,
            cell_start(b / GRID_SIZE as int, height) + 1,
            cell_end(b / GRID_SIZE as int, height) - 1,
            cell_start(b % GRID_SIZE as int, width) + 1,
            cell_end(b % GRID_SIZE as int, width) - 1,
            EDGE_THRESHOLD as int,
        );
        assert(focus_blocks(data, stride, width, height, n) =~= Seq::<nat>::empty());
    }
}

/// A frame whose pixels all hold one value has no gradients, so a frame of
/// at least ten pixels each way reports no block in focus: the empty text.
pub proof fn uniform_frame_has_no_peaks(data: Seq<u8>, stride: int, width: int, height: int)
    requires
        forall|i: int| 0 <= i < data.len() ==> #[trigger] data[i] == data[0],
        stride >= 0,
        width >= GRID_SIZE,
        height >= GRID_SIZE,
    ensures
        focus_blocks(data, stride, width, height, block_count()) == Seq::<nat>::empty(),
        peak_report(data, stride, width, height) == Seq::<char>::empty(),
{
    assert forall|p: int| !#[trigger] is_edge(data, stride, p, EDGE_THRESHOLD as int) by {
        if p + stride + 1 < data.len() && p >= stride + 1 {
            assert(data[p + 1] == data[0]);
            assert(data[p - 1] == data[0]);
            assert(data[p + stride] == data[0]);
            assert(data[p - stride] == data[0]);
        }
    }
    focus_blocks_none(data, stride, width, height, block_count());
}

proof fn row_edges_antitone(
    data: Seq<u8>,
    stride: int,
    row_start: int,
    lo: int,
    hi: int,
    low: int,
    high: int,
)
    requires
        low <= high,
    ensures
        row_edges(data, stride, row_start, lo, hi, high) <= row_edges(data, stride, row_start, lo, hi, low),
    decreases hi - lo,
{
    if hi > lo {
        row_edges_antitone(data, stride, row_start, lo, hi - 1, low, high);
    }
}

proof fn span_edges_antitone(
    data: Seq<u8>,
    stride: int,
    y_lo: int,
    y_hi: int,
    x_lo: int,
    x_hi: int,
    low: int,
    high: int,
)
    requires
        low <= high,
    ensures
        span_edges(data, stride, y_lo, y_hi, x_lo, x_hi, high) <= span_edges(
            data,
            stride,
            y_lo,
            y_hi,
            x_lo,
            x_hi,
            low,
        ),
    decreases y_hi - y_lo,
{
    if y_hi > y_lo {
        span_edges_antitone(data, stride, y_lo, y_hi - 1, x_lo, x_hi, low, high);
        row_edges_antitone(data, stride, (y_hi - 1) * stride, x_lo, x_hi, low, high);
    }
}

/// The sum of the edge counts of blocks `0..n` at `threshold`.
pub open spec fn total_edges(data: Seq<u8>, stride: int, width: int, height: int, n: int, threshold: int) -> nat
    decreases n,
{
    if n <= 0 {
        0
    } else {
        total_edges(data, stride, width, height, n - 1, threshold) + block_edges(
            data,
            stride,
            width,
            height,
            (n - 1) % GRID_SIZE as int,
            (n - 1) / GRID_SIZE as int,
            threshold,
        )
    }
}

proof fn total_edges_antitone(
    data: Seq<u8>,
    stride: int,
    width: int,
    height: int,
    n: int,
    low: int,
    high: int,
)
    requires
        low <= high,
    ensures
        total_edges(data, stride, width, height, n, high) <= total_edges(data, stride, width, height, n, low),
    decreases n,
{
    if n > 0 {
        total_edges_antitone(data, stride, width, height, n - 1, low, high);
        let b = n - 1;
        span_edges_antitone(
            data,
            stride,
            cell_start(b / GRID_SIZE as int, height) + 1,
            cell_end(b / GRID_SIZE as int, height) - 1,
            cell_start(b % GRID_SIZE as int, width) + 1,
            cell_end(b % GRID_SIZE as int, width) - 1,
            low,
            high,
        );
    }
}

/// Lowering the edge threshold never lowers the edge count of any block,
/// nor their sum over the grid.
pub proof fn lower_threshold_counts_no_fewer_edges(
    data: Seq<u8>,
    stride: int,
    width: int,
    height: int,
    low: int,
    high: int,
)
    requires
        low <= high,
    ensures
        forall|gx: int, gy: int|
            #[trigger] block_edges(data, stride, width, height, gx, gy, high) <= block_edges(
                data,
                stride,
                width,
                height,
                gx,
                gy,
                low,
            ),
        total_edges(data, stride, width, height, block_count(), high) <= total_edges(
            data,
            stride,
            width,
            height,
            block_count(),
            low,
        ),
{
    assert forall|gx: int, gy: int|
        #[trigger] block_edges(data, stride, width, height, gx, gy, high) <= block_edges(
            data,
            stride,
            width,
            height,
            gx,
            gy,
            low,
        ) by {
        span_edges_antitone(
            data,
            stride,
            cell_start(gy, height) + 1,
            cell_end(gy, height) - 1,
            cell_start(gx, width) + 1,
            cell_end(gx, width) - 1,
            low,
            high,
        );
    }
    total_edges_antitone(data, stride, width, height, block_count(), low, high);
}

/// The blocks in focus among `0..n` form a strictly ascending sequence of
/// indices below `n`, so none repeats.
pub proof fn focus_blocks_ascend(data: Seq<u8>, stride: int, width: int, height: int, n: int)
    ensures
        forall|i: int, j: int|
            0 <= i < j < focus_blocks(data, stride, width, height, n).len() ==> #[trigger] focus_blocks(
                data,
                stride,
                width,
                height,
                n,
            )[i] < #[trigger] focus_blocks(data, stride, width, height, n)[j],
        forall|i: int|
            0 <= i < focus_blocks(data, stride, width, height, n).len() ==> #[trigger] focus_blocks(
                data,
                stride,
                width,
                height,
                n,
            )[i] < n,
    decreases n,
{
    if n > 0 {
        focus_blocks_ascend(data, stride, width, height, n - 1);
        let prev = focus_blocks(data, stride, width, height, n - 1);
        let cur = focus_blocks(data, stride, width, height, n);
        assert forall|i: int| 0 <= i < cur.len() implies #[trigger] cur[i] < n && (i < prev.len() ==> cur[i]
            == prev[i]) by {
            if i < prev.len() {
                assert(cur[i] == prev[i]);
            }
        }
    }
}

/// The blocks that focus peaking reports lie in `0..100`, in strictly
/// ascending order.
pub proof fn reported_blocks_ascend(data: Seq<u8>, stride: int, width: int, height: int)
    ensures
        forall|i: int, j: int|
            0 <= i < j < focus_blocks(data, stride, width, height, block_count()).len()
                ==> #[trigger] focus_blocks(data, stride, width, height, block_count())[i]
                < #[trigger] focus_blocks(data, stride, width, height, block_count())[j],
        forall|i: int|
            0 <= i < focus_blocks(data, stride, width, height, block_count()).len()
                ==> #[trigger] focus_blocks(data, stride, width, height, block_count())[i] < 100,
{
    focus_blocks_ascend(data, stride, width, height, block_count());
}

} // verus!

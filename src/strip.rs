//! The overview and detail strips: which stream byte, if any, each strip
//! pixel shows, and which rows carry the markers of a nested window's edges.
use crate::window::{ViewWindow, STRIP_HEIGHT, STRIP_WIDTH};
use vstd::prelude::*;

verus! {

/// Rows on either side of a marked edge that show the marker (the edge row
/// itself and four more each way).
pub const MARKER_ROWS: usize = 5;

/// Where a strip starts in the stream, how far apart its pixels are, and the
/// stream offsets (relative to `start`) of the two edges it marks.
#[derive(Clone, Copy, Debug, PartialEq, Eq, Structural)]
pub struct StripLayout {
    pub start: usize,
    pub column_stride: usize,
    pub row_stride: usize,
    pub mark_start: usize,
    pub mark_end: usize,
}

/// What one strip pixel shows.
#[derive(Clone, Copy, Debug, PartialEq, Eq, Structural)]
pub enum StripPixel {
    /// The row is near a marked edge.
    Marker,
    /// The stream byte under the pixel.
    Byte(u8),
    /// The pixel lies past the end of the stream.
    Outside,
}

/// Row `y` lies within `MARKER_ROWS - 1` rows of the row of offset `mark`.
pub open spec fn near_mark(y: int, mark: int, row_stride: int) -> bool {
    let r = mark / row_stride;
    y - r < MARKER_ROWS && r - y < MARKER_ROWS
}

/// The stream offset under pixel `(x, y)`.
pub open spec fn strip_offset(layout: StripLayout, x: int, y: int) -> int {
    layout.start + x * layout.column_stride + y * layout.row_stride
}

/// What pixel `(x, y)` of a strip over `data` shows.
pub open spec fn pixel_of(data: Seq<u8>, layout: StripLayout, x: int, y: int) -> StripPixel {
    if near_mark(y, layout.mark_start as int, layout.row_stride as int) || near_mark(
        y,
        layout.mark_end as int,
        layout.row_stride as int,
    ) {
        StripPixel::Marker
    } else if strip_offset(layout, x, y) < data.len() {
        StripPixel::Byte(data[strip_offset(layout, x, y)])
    } else {
        StripPixel::Outside
    }
}

fn near_mark_row(y: usize, mark: usize, row_stride: usize) -> (r: bool)
    requires
        row_stride > 0,
    ensures
        r == near_mark(y as int, mark as int, row_stride as int),
{
    let r = mark / row_stride;
    if y >= r {
        y - r < MARKER_ROWS
    } else {
        r - y < MARKER_ROWS
    }
}

/// What pixel `(x, y)` of the strip `layout` over `data` shows: a marker on
/// rows near a marked edge, else the byte under it, or `Outside` past the
/// end of the stream.
pub fn strip_pixel(data: &Vec<u8>, layout: &StripLayout, x: usize, y: usize) -> (r: StripPixel)
    requires
        layout.row_stride > 0,
    ensures
        r == pixel_of(data@, *layout, x as int, y as int),
{
    if near_mark_row(y, layout.mark_start, layout.row_stride) || near_mark_row(
        y,
        layout.mark_end,
        layout.row_stride,
    ) {
        return StripPixel::Marker;
    }
    let n = data.len();
    proof {
        assert(0 <= x * layout.column_stride) by (nonlinear_arith);
        assert(0 <= y * layout.row_stride) by (nonlinear_arith);
    }
    match x.checked_mul(layout.column_stride) {
        Some(across) => match y.checked_mul(layout.row_stride) {
            Some(down) => {
                if layout.start < n && across < n - layout.start && down < n - layout.start - across {
                    StripPixel::Byte(data[layout.start + across + down])
                } else {
                    StripPixel::Outside
                }
            },
            None => StripPixel::Outside,
        },
        None => StripPixel::Outside,
    }
}

impl ViewWindow {
    /// The overview strip: the stream from its start, marking the overview range.
    pub open spec fn overview_layout(&self) -> StripLayout {
        StripLayout {
            start: 0,
            column_stride: 1,
            row_stride: self.overview_row_stride,
            mark_start: self.overview_start,
            mark_end: self.overview_end,
        }
    }

    /// The detail strip: the overview range, marking the detail range.
    pub open spec fn detail_layout(&self) -> StripLayout {
        StripLayout {
            start: self.overview_start,
            column_stride: 1,
            row_stride: self.detail_row_stride,
            mark_start: (self.detail_start - self.overview_start) as usize,
            mark_end: (self.detail_end - self.overview_start) as usize,
        }
    }

    /// The layout of the overview strip.
    pub fn overview_strip(&self) -> (r: StripLayout)
        requires
            self.wf(),
        ensures
            r == self.overview_layout(),
            r.row_stride > 0,
    {
        StripLayout {
            start: 0,
            column_stride: 1,
            row_stride: self.overview_row_stride,
            mark_start: self.overview_start,
            mark_end: self.overview_end,
        }
    }

    /// The layout of the detail strip.
    pub fn detail_strip(&self) -> (r: StripLayout)
        requires
            self.wf(),
        ensures
            r == self.detail_layout(),
            r.row_stride > 0,
    {
        StripLayout {
            start: self.overview_start,
            column_stride: 1,
            row_stride: self.detail_row_stride,
            mark_start: self.detail_start - self.overview_start,
            mark_end: self.detail_end - self.overview_start,
        }
    }
}

/// Paints a whole strip, row after row: `STRIP_HEIGHT` rows of `STRIP_WIDTH`
/// pixels, pixel `(x, y)` at `y * STRIP_WIDTH + x`.
pub fn paint_strip(data: &Vec<u8>, layout: &StripLayout) -> (r: Vec<StripPixel>)
    requires
        layout.row_stride > 0,
    ensures
        r@.len() == STRIP_HEIGHT * STRIP_WIDTH,
        forall|y: int, x: int|
            0 <= y < STRIP_HEIGHT && 0 <= x < STRIP_WIDTH ==> #[trigger] r@[y * STRIP_WIDTH + x]
                == pixel_of(data@, *layout, x, y),
{
    let mut out: Vec<StripPixel> = Vec::with_capacity(STRIP_HEIGHT * STRIP_WIDTH);
    let mut y: usize = 0;
    while y < STRIP_HEIGHT
        invariant
            layout.row_stride > 0,
            y <= STRIP_HEIGHT,
            out@.len() == y * STRIP_WIDTH,
            forall|yy: int, x: int|
                0 <= yy < y && 0 <= x < STRIP_WIDTH ==> #[trigger] out@[yy * STRIP_WIDTH + x]
                    == pixel_of(data@, *layout, x, yy),
        decreases STRIP_HEIGHT - y,
    {
        let mut x: usize = 0;
        while x < STRIP_WIDTH
            invariant
                layout.row_stride > 0,
                y < STRIP_HEIGHT,
                x <= STRIP_WIDTH,
                out@.len() == y * STRIP_WIDTH + x,
                forall|yy: int, xx: int|
                    0 <= yy < y && 0 <= xx < STRIP_WIDTH ==> #[trigger] out@[yy * STRIP_WIDTH + xx]
                        == pixel_of(data@, *layout, xx, yy),
                forall|xx: int|
                    0 <= xx < x ==> #[trigger] out@[y * STRIP_WIDTH + xx] == pixel_of(
                        data@,
                        *layout,
                        xx,
                        y as int,
                    ),
            decreases STRIP_WIDTH - x,
        {
            let p = strip_pixel(data, layout, x, y);
            out.push(p);
            proof {
                assert forall|yy: int, xx: int|
                    0 <= yy < y && 0 <= xx < STRIP_WIDTH implies #[trigger] out@[yy * STRIP_WIDTH
                    + xx] == pixel_of(data@, *layout, xx, yy) by {
                    assert(yy * STRIP_WIDTH + xx < y * STRIP_WIDTH) by (nonlinear_arith)
                        requires
                            yy < y,
                            xx < STRIP_WIDTH,
                    ;
                }
            }
            x = x + 1;
        }
        y = y + 1;
    }
    out
}

} // verus!

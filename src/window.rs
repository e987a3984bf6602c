//! The selection-window controller: an overview range of the stream, a detail
//! range nested in it that is binned into the grid, and the stride, binning
//! mode and auto-seek settings, driven by cursor rows and key presses.
use crate::binning::BinningMode;
use crate::grid::Selection;
use vstd::prelude::*;

verus! {

/// Height in pixels of a strip, i.e. the rows a cursor can point at.
pub const STRIP_HEIGHT: usize = 2048;

/// Width in pixels of a strip: the bytes shown on one row.
pub const STRIP_WIDTH: usize = 256;

/// Width in pixels of the volume view, left of the two strips.
pub const VOLUME_WIDTH: usize = 2048;

/// Smallest span that setting an overview edge keeps: one full strip.
pub const OVERVIEW_MIN_SPAN: usize = 524288;

/// Smallest span that setting a detail edge keeps: one strip row.
pub const DETAIL_MIN_SPAN: usize = 256;

/// Stream offsets per strip row needed to show `len` bytes in one strip:
/// a whole number of rows' width, at least one.
pub open spec fn row_stride_for(len: int) -> int {
    let s = len / (STRIP_WIDTH as int) / (STRIP_HEIGHT as int) * (STRIP_WIDTH as int);
    if s < STRIP_WIDTH {
        STRIP_WIDTH as int
    } else {
        s
    }
}

/// Offsets per row of the overview strip: the whole stream with five percent
/// of headroom below its end.
pub open spec fn overview_row_stride_for(n: int) -> int {
    row_stride_for(n + n / 20)
}

/// `x` moved into `[lo, hi]`.
pub open spec fn clamp(x: int, lo: int, hi: int) -> int {
    if x < lo {
        lo
    } else if x > hi {
        hi
    } else {
        x
    }
}

/// The windows and settings that decide what is binned and shown.
#[derive(Clone, Copy, Debug, PartialEq, Eq, Structural)]
pub struct ViewWindow {
    pub stream_len: usize,
    pub overview_start: usize,
    pub overview_end: usize,
    pub detail_start: usize,
    pub detail_end: usize,
    /// Stream offsets per row of the overview strip.
    pub overview_row_stride: usize,
    /// Stream offsets per row of the detail strip.
    pub detail_row_stride: usize,
    pub stride: usize,
    pub mode: BinningMode,
    pub seeking: bool,
    /// A recompute of the grid has been asked for and not yet taken.
    pub pending: bool,
}

fn row_stride(len: usize) -> (r: usize)
    ensures
        r == row_stride_for(len as int),
{
    let s = len / STRIP_WIDTH / STRIP_HEIGHT * STRIP_WIDTH;
    if s < STRIP_WIDTH {
        STRIP_WIDTH
    } else {
        s
    }
}

fn clamp_to(x: usize, lo: usize, hi: usize) -> (r: usize)
    requires
        lo <= hi,
    ensures
        r == clamp(x as int, lo as int, hi as int),
{
    if x < lo {
        lo
    } else if x > hi {
        hi
    } else {
        x
    }
}

impl ViewWindow {
    /// Nested ranges inside the stream, valid settings, row strides that
    /// match the range lengths.
    pub open spec fn wf(&self) -> bool {
        &&& self.overview_start <= self.detail_start <= self.detail_end <= self.overview_end
            <= self.stream_len <= u32::MAX
        &&& 1 <= self.stride <= 4
        &&& self.overview_row_stride == overview_row_stride_for(self.stream_len as int)
        &&& self.detail_row_stride == row_stride_for(
            self.overview_end - self.overview_start,
        )
    }

    /// The selection that the grid bins: the detail range.
    pub open spec fn selection_of(&self) -> Selection {
        Selection {
            start: self.detail_start,
            end: self.detail_end,
            stride: self.stride,
            mode: self.mode,
        }
    }

    /// The detail range moved inside the overview range.
    pub open spec fn fit_detail(self) -> ViewWindow {
        let s = clamp(self.detail_start as int, self.overview_start as int, self.overview_end as int);
        let e = clamp(self.detail_end as int, s, self.overview_end as int);
        ViewWindow {
            detail_start: s as usize,
            detail_end: e as usize,
            detail_row_stride: row_stride_for(self.overview_end - self.overview_start) as usize,
            pending: self.pending || s != self.detail_start || e != self.detail_end,
            ..self
        }
    }

    /// The stream offset of overview row `row`, if it lies in the stream.
    pub open spec fn overview_offset(&self, row: int) -> Option<int> {
        let i = row * self.overview_row_stride;
        if i < self.stream_len {
            Some(i)
        } else {
            None
        }
    }

    /// The stream offset of detail row `row`, if it lies in the overview range.
    pub open spec fn detail_offset(&self, row: int) -> Option<int> {
        let i = self.overview_start + row * self.detail_row_stride;
        if i < self.overview_end {
            Some(i)
        } else {
            None
        }
    }

    /// The state after pointing the overview start at `row`.
    pub open spec fn after_overview_start(self, row: int) -> ViewWindow {
        match self.overview_offset(row) {
            Some(i) => {
                let e = if self.overview_end >= i + OVERVIEW_MIN_SPAN {
                    self.overview_end as int
                } else if i + OVERVIEW_MIN_SPAN <= self.stream_len {
                    i + OVERVIEW_MIN_SPAN
                } else {
                    self.stream_len as int
                };
                ViewWindow { overview_start: i as usize, overview_end: e as usize, ..self }.fit_detail()
            },
            None => self,
        }
    }

    /// The state after pointing the overview end at `row`.
    pub open spec fn after_overview_end(self, row: int) -> ViewWindow {
        match self.overview_offset(row) {
            Some(i) => {
                let s = if self.overview_start + OVERVIEW_MIN_SPAN <= i {
                    self.overview_start as int
                } else if i >= OVERVIEW_MIN_SPAN {
                    i - OVERVIEW_MIN_SPAN
                } else {
                    0
                };
                ViewWindow { overview_start: s as usize, overview_end: i as usize, ..self }.fit_detail()
            },
            None => self,
        }
    }

    /// The state after pointing the detail start at `row`.
    pub open spec fn after_detail_start(self, row: int) -> ViewWindow {
        match self.detail_offset(row) {
            Some(i) => {
                let e = if self.detail_end >= i + DETAIL_MIN_SPAN {
                    self.detail_end as int
                } else if i + DETAIL_MIN_SPAN <= self.overview_end {
                    i + DETAIL_MIN_SPAN
                } else {
                    self.overview_end as int
                };
                ViewWindow { detail_start: i as usize, detail_end: e as usize, pending: true, ..self }
            },
            None => ViewWindow { pending: true, ..self },
        }
    }

    /// The state after pointing the detail end at `row`.
    pub open spec fn after_detail_end(self, row: int) -> ViewWindow {
        match self.detail_offset(row) {
            Some(i) => {
                let s = if self.detail_start + DETAIL_MIN_SPAN <= i {
                    self.detail_start as int
                } else if i >= self.overview_start + DETAIL_MIN_SPAN {
                    i - DETAIL_MIN_SPAN
                } else {
                    self.overview_start as int
                };
                ViewWindow { detail_start: s as usize, detail_end: i as usize, pending: true, ..self }
            },
            None => ViewWindow { pending: true, ..self },
        }
    }

    /// The state after one auto-seek tick: while seeking, the detail range
    /// moves forward by one detail row, stopping at the end of the overview
    /// range, and a recompute is asked for.
    pub open spec fn after_seek(self) -> ViewWindow {
        if self.seeking {
            let e = if self.detail_end + self.detail_row_stride <= self.overview_end {
                self.detail_end + self.detail_row_stride
            } else {
                self.overview_end as int
            };
            let limit = if e >= self.overview_start + DETAIL_MIN_SPAN {
                e - DETAIL_MIN_SPAN
            } else {
                self.overview_start as int
            };
            let s = if self.detail_start + self.detail_row_stride <= limit {
                self.detail_start + self.detail_row_stride
            } else {
                limit
            };
            ViewWindow { detail_start: s as usize, detail_end: e as usize, pending: true, ..self }
        } else {
            self
        }
    }

    /// The state of a stream of `n` bytes before any input: both ranges
    /// cover the whole stream, stride 1, Direct mode, a recompute pending.
    pub open spec fn initial(n: int) -> ViewWindow {
        ViewWindow {
            stream_len: n as usize,
            overview_start: 0,
            overview_end: n as usize,
            detail_start: 0,
            detail_end: n as usize,
            overview_row_stride: overview_row_stride_for(n) as usize,
            detail_row_stride: row_stride_for(n) as usize,
            stride: 1,
            mode: BinningMode::Direct,
            seeking: false,
            pending: true,
        }
    }

    /// The window state for a stream of `n` bytes.
    pub fn new(n: usize) -> (r: ViewWindow)
        requires
            n <= u32::MAX,
        ensures
            r == ViewWindow::initial(n as int),
            r.wf(),
    {
        let headroom = (n as u64 + n as u64 / 20) / (STRIP_WIDTH as u64) / (STRIP_HEIGHT as u64);
        let ors = if headroom < 1 {
            STRIP_WIDTH
        } else {
            headroom as usize * STRIP_WIDTH
        };
        proof {
            assert((n + n / 20) / (STRIP_WIDTH as int) / (STRIP_HEIGHT as int) == headroom);
        }
        ViewWindow {
            stream_len: n,
            overview_start: 0,
            overview_end: n,
            detail_start: 0,
            detail_end: n,
            overview_row_stride: ors,
            detail_row_stride: row_stride(n),
            stride: 1,
            mode: BinningMode::Direct,
            seeking: false,
            pending: true,
        }
    }

    fn fit_detail_in_place(&mut self)
        requires
            old(self).overview_start <= old(self).overview_end <= old(self).stream_len <= u32::MAX,
            1 <= old(self).stride <= 4,
            old(self).overview_row_stride == overview_row_stride_for(old(self).stream_len as int),
        ensures
            *final(self) == old(self).fit_detail(),
            final(self).wf(),
    {
        let s = clamp_to(self.detail_start, self.overview_start, self.overview_end);
        let e = clamp_to(self.detail_end, s, self.overview_end);
        if s != self.detail_start || e != self.detail_end {
            self.pending = true;
        }
        self.detail_start = s;
        self.detail_end = e;
        self.detail_row_stride = row_stride(self.overview_end - self.overview_start);
    }

    /// Points the overview start at cursor row `row`. A row past the stream
    /// is ignored. The end moves out to keep at least one strip of span where
    /// the stream allows, and the detail range is moved inside.
    pub fn set_overview_start(&mut self, row: usize)
        requires
            old(self).wf(),
        ensures
            *final(self) == old(self).after_overview_start(row as int),
            final(self).wf(),
    {
        match row.checked_mul(self.overview_row_stride) {
            Some(i) => {
                if i < self.stream_len {
                    let e = if self.overview_end >= i && self.overview_end - i >= OVERVIEW_MIN_SPAN {
                        self.overview_end
                    } else if self.stream_len - i >= OVERVIEW_MIN_SPAN {
                        i + OVERVIEW_MIN_SPAN
                    } else {
                        self.stream_len
                    };
                    self.overview_start = i;
                    self.overview_end = e;
                    self.fit_detail_in_place();
                }
            },
            None => {},
        }
    }

    /// Points the overview end at cursor row `row`. A row past the stream is
    /// ignored. The start moves back to keep at least one strip of span where
    /// the stream allows, and the detail range is moved inside.
    pub fn set_overview_end(&mut self, row: usize)
        requires
            old(self).wf(),
        ensures
            *final(self) == old(self).after_overview_end(row as int),
            final(self).wf(),
    {
        match row.checked_mul(self.overview_row_stride) {
            Some(i) => {
                if i < self.stream_len {
                    let s = if i >= OVERVIEW_MIN_SPAN && self.overview_start <= i - OVERVIEW_MIN_SPAN {
                        self.overview_start
                    } else if i >= OVERVIEW_MIN_SPAN {
                        i - OVERVIEW_MIN_SPAN
                    } else {
                        0
                    };
                    self.overview_start = s;
                    self.overview_end = i;
                    self.fit_detail_in_place();
                }
            },
            None => {},
        }
    }

    /// Points the detail start at cursor row `row` of the detail strip. A row
    /// past the overview range is ignored. The end moves out to keep at least
    /// one row of span where the overview range allows. A recompute is asked for.
    pub fn set_detail_start(&mut self, row: usize)
        requires
            old(self).wf(),
        ensures
            *final(self) == old(self).after_detail_start(row as int),
            final(self).wf(),
    {
        match row.checked_mul(self.detail_row_stride) {
            Some(step) => {
                if step < self.overview_end - self.overview_start {
                    let i = self.overview_start + step;
                    let e = if self.detail_end >= i && self.detail_end - i >= DETAIL_MIN_SPAN {
                        self.detail_end
                    } else if self.overview_end - i >= DETAIL_MIN_SPAN {
                        i + DETAIL_MIN_SPAN
                    } else {
                        self.overview_end
                    };
                    self.detail_start = i;
                    self.detail_end = e;
                }
            },
            None => {},
        }
        self.pending = true;
    }

    /// Points the detail end at cursor row `row` of the detail strip. A row
    /// past the overview range is ignored. The start moves back to keep at
    /// least one row of span where the overview range allows. A recompute is
    /// asked for.
    pub fn set_detail_end(&mut self, row: usize)
        requires
            old(self).wf(),
        ensures
            *final(self) == old(self).after_detail_end(row as int),
            final(self).wf(),
    {
        match row.checked_mul(self.detail_row_stride) {
            Some(step) => {
                if step < self.overview_end - self.overview_start {
                    let i = self.overview_start + step;
                    let s = if i >= DETAIL_MIN_SPAN && self.detail_start <= i - DETAIL_MIN_SPAN {
                        self.detail_start
                    } else if step >= DETAIL_MIN_SPAN {
                        i - DETAIL_MIN_SPAN
                    } else {
                        self.overview_start
                    };
                    self.detail_start = s;
                    self.detail_end = i;
                }
            },
            None => {},
        }
        self.pending = true;
    }

    /// The state after a pointer press at pixel `(col, row)`: on the detail
    /// strip (the columns right of the volume view) or on the overview strip
    /// (right of that), the primary button sets the start edge and the other
    /// one the end edge; elsewhere nothing changes.
    pub open spec fn after_press(self, col: int, row: int, primary: bool) -> ViewWindow {
        if col >= VOLUME_WIDTH + STRIP_WIDTH {
            if primary {
                self.after_overview_start(row)
            } else {
                self.after_overview_end(row)
            }
        } else if col >= VOLUME_WIDTH {
            if primary {
                self.after_detail_start(row)
            } else {
                self.after_detail_end(row)
            }
        } else {
            self
        }
    }

    /// A pointer press at pixel `(col, row)` (see `after_press`).
    pub fn press(&mut self, col: usize, row: usize, primary: bool)
        requires
            old(self).wf(),
        ensures
            *final(self) == old(self).after_press(col as int, row as int, primary),
            final(self).wf(),
    {
        if col >= VOLUME_WIDTH + STRIP_WIDTH {
            if primary {
                self.set_overview_start(row);
            } else {
                self.set_overview_end(row);
            }
        } else if col >= VOLUME_WIDTH {
            if primary {
                self.set_detail_start(row);
            } else {
                self.set_detail_end(row);
            }
        }
    }

    /// One auto-seek tick (see `after_seek`).
    pub fn advance_seek(&mut self)
        requires
            old(self).wf(),
        ensures
            *final(self) == old(self).after_seek(),
            final(self).wf(),
    {
        if self.seeking {
            let e = if self.overview_end - self.detail_end >= self.detail_row_stride {
                self.detail_end + self.detail_row_stride
            } else {
                self.overview_end
            };
            let limit = if e - self.overview_start >= DETAIL_MIN_SPAN {
                e - DETAIL_MIN_SPAN
            } else {
                self.overview_start
            };
            let s = if self.detail_start <= limit && limit - self.detail_start
                >= self.detail_row_stride {
                self.detail_start + self.detail_row_stride
            } else {
                limit
            };
            self.detail_start = s;
            self.detail_end = e;
            self.pending = true;
        }
    }

    /// Switches auto-seek on or off.
    pub fn toggle_seeking(&mut self)
        requires
            old(self).wf(),
        ensures
            *final(self) == (ViewWindow { seeking: !old(self).seeking, ..*old(self) }),
            final(self).wf(),
    {
        self.seeking = !self.seeking;
    }

    /// Steps the stride 1, 2, 3, 4, 1, ... and asks for a recompute.
    pub fn cycle_stride(&mut self)
        requires
            old(self).wf(),
        ensures
            *final(self) == (ViewWindow {
                stride: if old(self).stride == 4 { 1 } else { (old(self).stride + 1) as usize },
                pending: true,
                ..*old(self)
            }),
            final(self).wf(),
    {
        self.stride = if self.stride == 4 {
            1
        } else {
            self.stride + 1
        };
        self.pending = true;
    }

    /// Swaps Direct and Sliced binning and asks for a recompute.
    pub fn toggle_binning_mode(&mut self)
        requires
            old(self).wf(),
        ensures
            *final(self) == (ViewWindow {
                mode: match old(self).mode {
                    BinningMode::Direct => BinningMode::Sliced,
                    BinningMode::Sliced => BinningMode::Direct,
                },
                pending: true,
                ..*old(self)
            }),
            final(self).wf(),
    {
        self.mode = match self.mode {
            BinningMode::Direct => BinningMode::Sliced,
            BinningMode::Sliced => BinningMode::Direct,
        };
        self.pending = true;
    }

    /// Takes the pending recompute request: returns whether one was pending
    /// and clears it.
    pub fn take_pending(&mut self) -> (r: bool)
        requires
            old(self).wf(),
        ensures
            r == old(self).pending,
            *final(self) == (ViewWindow { pending: false, ..*old(self) }),
            final(self).wf(),
    {
        let r = self.pending;
        self.pending = false;
        r
    }

    /// The selection that the grid bins: the detail range with the current
    /// stride and mode.
    pub fn selection(&self) -> (r: Selection)
        requires
            self.wf(),
        ensures
            r == self.selection_of(),
            r.valid(self.stream_len as int),
    {
        Selection {
            start: self.detail_start,
            end: self.detail_end,
            stride: self.stride,
            mode: self.mode,
        }
    }
}

/// Setting the detail start where the overview range leaves room for a
/// minimum span: the start lands on the row's offset, and an end that would
/// leave less than `DETAIL_MIN_SPAN` is moved out to exactly that span.
pub proof fn lemma_detail_start_keeps_span(w: ViewWindow, row: int)
    requires
        w.wf(),
        0 <= row,
        w.detail_offset(row) is Some,
        w.detail_offset(row)->Some_0 + DETAIL_MIN_SPAN <= w.overview_end,
    ensures
        w.after_detail_start(row).detail_start == w.detail_offset(row)->Some_0,
        w.after_detail_start(row).detail_end - w.after_detail_start(row).detail_start
            >= DETAIL_MIN_SPAN,
        w.detail_end < w.detail_offset(row)->Some_0 + DETAIL_MIN_SPAN ==> w.after_detail_start(
            row,
        ).detail_end == w.detail_offset(row)->Some_0 + DETAIL_MIN_SPAN,
        w.detail_end >= w.detail_offset(row)->Some_0 + DETAIL_MIN_SPAN ==> w.after_detail_start(
            row,
        ).detail_end == w.detail_end,
{
    assert(0 <= row * w.detail_row_stride) by (nonlinear_arith)
        requires
            0 <= row,
            0 <= w.detail_row_stride,
    ;
}

/// Setting the detail end where the overview range leaves room for a minimum
/// span: the end lands on the row's offset, and a start that would leave less
/// than `DETAIL_MIN_SPAN` is moved back to exactly that span.
pub proof fn lemma_detail_end_keeps_span(w: ViewWindow, row: int)
    requires
        w.wf(),
        0 <= row,
        w.detail_offset(row) is Some,
        w.overview_start + DETAIL_MIN_SPAN <= w.detail_offset(row)->Some_0,
    ensures
        w.after_detail_end(row).detail_end == w.detail_offset(row)->Some_0,
        w.after_detail_end(row).detail_end - w.after_detail_end(row).detail_start
            >= DETAIL_MIN_SPAN,
        w.detail_start + DETAIL_MIN_SPAN > w.detail_offset(row)->Some_0 ==> w.after_detail_end(
            row,
        ).detail_start == w.detail_offset(row)->Some_0 - DETAIL_MIN_SPAN,
        w.detail_start + DETAIL_MIN_SPAN <= w.detail_offset(row)->Some_0 ==> w.after_detail_end(
            row,
        ).detail_start == w.detail_start,
{
    assert(0 <= row * w.detail_row_stride) by (nonlinear_arith)
        requires
            0 <= row,
            0 <= w.detail_row_stride,
    ;
}

/// The same for the overview edges: where the stream leaves room, setting an
/// edge keeps at least `OVERVIEW_MIN_SPAN` between the two.
pub proof fn lemma_overview_edges_keep_span(w: ViewWindow, row: int)
    requires
        w.wf(),
        0 <= row,
        w.overview_offset(row) is Some,
    ensures
        w.overview_offset(row)->Some_0 + OVERVIEW_MIN_SPAN <= w.stream_len ==> w.after_overview_start(
            row,
        ).overview_end - w.after_overview_start(row).overview_start >= OVERVIEW_MIN_SPAN,
        w.overview_offset(row)->Some_0 >= OVERVIEW_MIN_SPAN ==> w.after_overview_end(
            row,
        ).overview_end - w.after_overview_end(row).overview_start >= OVERVIEW_MIN_SPAN,
{
    assert(0 <= row * w.overview_row_stride) by (nonlinear_arith)
        requires
            0 <= row,
            0 <= w.overview_row_stride,
    ;
}

} // verus!

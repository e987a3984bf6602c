//! The trigram histogram builder: turns a sub-range of a byte stream into the
//! sequence of grid cells that it increments.
use crate::tally::{lemma_tally_sum_total, tally_sum, GRID_CELLS};
use vstd::arithmetic::div_mod::{lemma_fundamental_div_mod, lemma_fundamental_div_mod_converse};
use vstd::prelude::*;

verus! {

/// How a selection is turned into grid coordinates.
#[derive(Clone, Copy, Debug, PartialEq, Eq, Structural)]
pub enum BinningMode {
    /// Each start offset gives the triple `(a, b, c)` of the bytes there.
    Direct,
    /// The selection is cut into 256 time slices; within slice `z` each start
    /// offset gives the pair `(a, b)`, binned at `(a, b, z)`.
    Sliced,
}

/// The grid cell of the coordinates `(x, y, z)`.
pub open spec fn cell_of(x: u8, y: u8, z: u8) -> usize {
    (x as int + 256 * (y as int) + 65536 * (z as int)) as usize
}

/// The byte at `i`, or zero past the end of the stream.
pub open spec fn byte_or_zero(data: Seq<u8>, i: int) -> u8 {
    if 0 <= i < data.len() {
        data[i]
    } else {
        0
    }
}

/// The first offset at which no whole triple starts any more (within `end`).
pub open spec fn direct_limit(n: int, end: int) -> int {
    if end < n - 2 {
        end
    } else {
        n - 2
    }
}

/// How many start offsets `start, start + stride, ...` lie below the limit.
pub open spec fn direct_len(n: int, start: int, end: int, stride: int) -> nat {
    let lim = direct_limit(n, end);
    if lim <= start {
        0
    } else {
        ((lim - start - 1) / stride + 1) as nat
    }
}

/// The cells of a Direct build: one per start offset `i` of the selection,
/// stepped by `stride`, at which a whole triple lies inside the stream.
pub open spec fn direct_cells(data: Seq<u8>, start: int, end: int, stride: int) -> Seq<usize> {
    Seq::new(
        direct_len(data.len() as int, start, end, stride),
        |k: int| cell_of(data[start + k * stride], data[start + k * stride + 1], data[start + k * stride + 2]),
    )
}

/// Width in bytes of one time slice of a Sliced build.
pub open spec fn slice_width(start: int, end: int) -> int {
    (end - start) / 256
}

/// Start offsets binned per time slice in a Sliced build.
pub open spec fn slice_count(start: int, end: int, stride: int) -> int {
    (end - start) / stride / 256
}

/// The `k`-th cell of a Sliced build: slice `k / w`, position `k % w` within it.
pub open spec fn sliced_cell(data: Seq<u8>, start: int, end: int, stride: int, k: int) -> usize {
    let w = slice_count(start, end, stride);
    let z = k / w;
    let i = start + (k % w) * stride + z * slice_width(start, end);
    cell_of(byte_or_zero(data, i), byte_or_zero(data, i + 1), z as u8)
}

/// The cells of a Sliced build, slice after slice.
pub open spec fn sliced_cells(data: Seq<u8>, start: int, end: int, stride: int) -> Seq<usize> {
    Seq::new(
        (256 * slice_count(start, end, stride)) as nat,
        |k: int| sliced_cell(data, start, end, stride, k),
    )
}

/// The cells that a build of the given mode increments.
pub open spec fn build_cells(
    data: Seq<u8>,
    start: int,
    end: int,
    stride: int,
    mode: BinningMode,
) -> Seq<usize> {
    match mode {
        BinningMode::Direct => direct_cells(data, start, end, stride),
        BinningMode::Sliced => sliced_cells(data, start, end, stride),
    }
}

/// Every cell of a build lies inside the grid.
pub proof fn lemma_build_cells_in_grid(
    data: Seq<u8>,
    start: int,
    end: int,
    stride: int,
    mode: BinningMode,
)
    ensures
        forall|k: int|
            0 <= k < build_cells(data, start, end, stride, mode).len() ==> (#[trigger] build_cells(
                data,
                start,
                end,
                stride,
                mode,
            )[k] as int) < GRID_CELLS,
{
    assert forall|x: u8, y: u8, z: u8| (#[trigger] cell_of(x, y, z) as int) < GRID_CELLS by {
        assert(x as int + 256 * (y as int) + 65536 * (z as int) < GRID_CELLS) by (nonlinear_arith)
            requires
                x < 256,
                y < 256,
                z < 256,
        ;
    }
}

/// A build never increments more cells than the stream has bytes.
pub proof fn lemma_build_cells_len(data: Seq<u8>, start: int, end: int, stride: int, mode: BinningMode)
    requires
        0 <= start <= end <= data.len(),
        1 <= stride,
    ensures
        build_cells(data, start, end, stride, mode).len() <= data.len(),
{
    let lim = direct_limit(data.len() as int, end);
    if lim > start {
        lemma_fundamental_div_mod(lim - start - 1, stride);
        assert((lim - start - 1) / stride + 1 <= lim - start) by (nonlinear_arith)
            requires
                lim - start - 1 == stride * ((lim - start - 1) / stride) + (lim - start - 1)
                    % stride,
                0 <= (lim - start - 1) % stride,
                stride >= 1,
                lim - start >= 1,
        ;
    }
    let len = end - start;
    let q = len / stride;
    lemma_fundamental_div_mod(len, stride);
    lemma_fundamental_div_mod(q, 256);
    assert(256 * (q / 256) <= len) by (nonlinear_arith)
        requires
            q == 256 * (q / 256) + q % 256,
            0 <= q % 256,
            len == stride * q + len % stride,
            0 <= len % stride,
            stride >= 1,
            q >= 0,
    ;
}

/// A Direct build over a whole stream of `n >= 2` bytes with stride `s`
/// increments the grid `ceil((n - 2) / s)` times in all (so `n - 2` times at
/// stride 1): the tallies of all cells, which a recompute leaves in the
/// snapshot, add up to the number of start offsets of whole triples.
pub proof fn lemma_direct_full_total(data: Seq<u8>, stride: int)
    requires
        data.len() >= 2,
        1 <= stride <= 4,
    ensures
        tally_sum(direct_cells(data, 0, data.len() as int, stride), GRID_CELLS as nat) == (
        data.len() - 2 + stride - 1) / stride,
{
    let n = data.len() as int;
    let cells = direct_cells(data, 0, n, stride);
    lemma_build_cells_in_grid(data, 0, n, stride, BinningMode::Direct);
    lemma_tally_sum_total(cells, GRID_CELLS as nat);
    if n - 2 > 0 {
        lemma_fundamental_div_mod(n - 3, stride);
        let q = (n - 3) / stride;
        assert((q + 1) * stride == q * stride + stride) by (nonlinear_arith);
        lemma_fundamental_div_mod_converse(
            n - 3 + stride,
            stride,
            (n - 3) / stride + 1,
            (n - 3) % stride,
        );
    } else {
        lemma_fundamental_div_mod_converse(stride - 1, stride, 0, stride - 1);
    }
}

/// The index of the grid cell `(x, y, z)`.
pub fn cell_index(x: u8, y: u8, z: u8) -> (r: usize)
    ensures
        r == cell_of(x, y, z),
        r < GRID_CELLS,
{
    x as usize + 256 * (y as usize) + 65536 * (z as usize)
}

proof fn lemma_step_below(k: int, x: int, s: int)
    requires
        0 <= k < (x - 1) / s + 1,
        x >= 1,
        s >= 1,
    ensures
        k * s <= x - 1,
{
    lemma_fundamental_div_mod(x - 1, s);
    assert(k * s <= ((x - 1) / s) * s) by (nonlinear_arith)
        requires
            k <= (x - 1) / s,
            s >= 1,
    ;
}

/// The cells of a Direct build over `[start, end)` with the given stride, in
/// order of their start offsets.
pub fn direct_build(data: &Vec<u8>, start: usize, end: usize, stride: usize) -> (r: Vec<usize>)
    requires
        start <= end <= data.len(),
        1 <= stride <= 4,
    ensures
        r@ == direct_cells(data@, start as int, end as int, stride as int),
{
    let n = data.len();
    let lim: usize = if n < 2 {
        0
    } else if end < n - 2 {
        end
    } else {
        n - 2
    };
    let ghost cells = direct_cells(data@, start as int, end as int, stride as int);
    let mut out: Vec<usize> = Vec::new();
    if lim <= start {
        assert(out@ =~= cells);
        return out;
    }
    let count: usize = (lim - start - 1) / stride + 1;
    let mut k: usize = 0;
    while k < count
        invariant
            lim > start,
            lim as int == direct_limit(n as int, end as int),
            n == data.len(),
            count == direct_len(n as int, start as int, end as int, stride as int),
            cells.len() == count,
            cells == direct_cells(data@, start as int, end as int, stride as int),
            0 <= k <= count,
            1 <= stride <= 4,
            out@ =~= cells.take(k as int),
        decreases count - k,
    {
        proof {
            lemma_step_below(k as int, lim - start, stride as int);
        }
        let i = start + k * stride;
        let c = cell_index(data[i], data[i + 1], data[i + 2]);
        out.push(c);
        k = k + 1;
        assert(out@ =~= cells.take(k as int));
    }
    assert(cells.take(count as int) =~= cells);
    out
}

proof fn lemma_slice_offset(len: int, stride: int, x: int, z: int)
    requires
        len >= 0,
        1 <= stride,
        0 <= x < len / stride / 256,
        0 <= z < 256,
    ensures
        0 <= x * stride + z * (len / 256) < len,
{
    let q = len / stride;
    let w = q / 256;
    let width = len / 256;
    lemma_fundamental_div_mod(len, stride);
    lemma_fundamental_div_mod(q, 256);
    lemma_fundamental_div_mod(len, 256);
    assert(w * stride * 256 <= len) by (nonlinear_arith)
        requires
            q == 256 * w + q % 256,
            0 <= q % 256,
            len == stride * q + len % stride,
            0 <= len % stride,
            stride >= 1,
            w >= 0,
    ;
    assert(w * stride <= width) by (nonlinear_arith)
        requires
            w * stride * 256 <= len,
            len == 256 * width + len % 256,
            len % 256 < 256,
    ;
    assert(0 <= x * stride + z * width < len) by (nonlinear_arith)
        requires
            0 <= x < w,
            0 <= z < 256,
            w * stride <= width,
            stride >= 1,
            len == 256 * width + len % 256,
            0 <= len % 256,
    ;
}

/// The cells of a Sliced build over `[start, end)` with the given stride:
/// 256 slices of `slice_count` start offsets each, slice after slice.
pub fn sliced_build(data: &Vec<u8>, start: usize, end: usize, stride: usize) -> (r: Vec<usize>)
    requires
        start <= end <= data.len(),
        1 <= stride <= 4,
    ensures
        r@ == sliced_cells(data@, start as int, end as int, stride as int),
{
    let n = data.len();
    let len = end - start;
    let width = len / 256;
    let w = len / stride / 256;
    let ghost cells = sliced_cells(data@, start as int, end as int, stride as int);
    let mut out: Vec<usize> = Vec::new();
    let mut z: usize = 0;
    while z < 256
        invariant
            n == data.len(),
            start <= end <= n,
            len == end - start,
            width == slice_width(start as int, end as int),
            w == slice_count(start as int, end as int, stride as int),
            1 <= stride <= 4,
            cells == sliced_cells(data@, start as int, end as int, stride as int),
            0 <= z <= 256,
            out@ =~= cells.take(z * w),
        decreases 256 - z,
    {
        let mut x: usize = 0;
        while x < w
            invariant
                n == data.len(),
                start <= end <= n,
                len == end - start,
                width == slice_width(start as int, end as int),
                w == slice_count(start as int, end as int, stride as int),
                1 <= stride <= 4,
                cells == sliced_cells(data@, start as int, end as int, stride as int),
                0 <= z < 256,
                0 <= x <= w,
                out@ =~= cells.take(z * w + x),
            decreases w - x,
        {
            proof {
                lemma_slice_offset(len as int, stride as int, x as int, z as int);
                lemma_fundamental_div_mod_converse(z * w + x, w as int, z as int, x as int);
                assert(z * w + x < 256 * w) by (nonlinear_arith)
                    requires
                        x < w,
                        z < 256,
                ;
            }
            let i = start + x * stride + z * width;
            let a = data[i];
            let b: u8 = if i + 1 < n {
                data[i + 1]
            } else {
                0
            };
            let c = cell_index(a, b, z as u8);
            out.push(c);
            x = x + 1;
            assert(out@ =~= cells.take(z * w + x));
        }
        proof {
            assert(z * w + w == (z + 1) * w) by (nonlinear_arith);
        }
        z = z + 1;
    }
    assert(cells.take(256 * w) =~= cells);
    out
}

/// The cells of a build in the given mode.
pub fn build(data: &Vec<u8>, start: usize, end: usize, stride: usize, mode: BinningMode) -> (r: Vec<
    usize,
>)
    requires
        start <= end <= data.len(),
        1 <= stride <= 4,
    ensures
        r@ == build_cells(data@, start as int, end as int, stride as int, mode),
{
    match mode {
        BinningMode::Direct => direct_build(data, start, end, stride),
        BinningMode::Sliced => sliced_build(data, start, end, stride),
    }
}

} // verus!

//! The voxel grid store: accumulation counters that a build increments, and a
//! render snapshot that a single coupled pass copies them into while zeroing them.
use crate::binning::{build, build_cells, BinningMode};
use crate::tally::{apply_increments, lemma_apply_increments_tally, lemma_tally_le_len, lemma_tally_prefix_le, lemma_tally_take, lemma_tally_empty, tally, GRID_CELLS};
use vstd::prelude::*;

verus! {

/// A selection of the stream to be binned: the range `[start, end)`, the
/// step between start offsets and the binning mode.
#[derive(Clone, Copy, Debug, PartialEq, Eq, Structural)]
pub struct Selection {
    pub start: usize,
    pub end: usize,
    pub stride: usize,
    pub mode: BinningMode,
}

impl Selection {
    /// The range lies in a stream of `n` bytes and the stride is one of 1 to 4.
    pub open spec fn valid(&self, n: int) -> bool {
        self.start <= self.end <= n && 1 <= self.stride <= 4
    }

    /// The cells that binning this selection of `data` increments.
    pub open spec fn cells(&self, data: Seq<u8>) -> Seq<usize> {
        build_cells(data, self.start as int, self.end as int, self.stride as int, self.mode)
    }
}

/// The abstract state of a grid store.
pub struct GridState {
    pub accum: Seq<u32>,
    pub snapshot: Seq<u32>,
}

impl GridState {
    /// Both buffers hold one counter per grid cell.
    pub open spec fn wf(&self) -> bool {
        self.accum.len() == GRID_CELLS && self.snapshot.len() == GRID_CELLS
    }

    /// Every accumulation counter is zero.
    pub open spec fn settled(&self) -> bool {
        forall|j: int| 0 <= j < self.accum.len() ==> #[trigger] self.accum[j] == 0
    }
}

/// Counters read as integers.
pub open spec fn as_counts(s: Seq<u32>) -> Seq<int> {
    s.map_values(|v: u32| v as int)
}

/// The state after a full recompute of `sel`: the snapshot holds what the
/// counters held plus the build's tallies, and the counters are zero again.
pub open spec fn recomputed(s: GridState, data: Seq<u8>, sel: Selection) -> GridState {
    GridState {
        accum: Seq::new(GRID_CELLS as nat, |j: int| 0u32),
        snapshot: Seq::new(
            GRID_CELLS as nat,
            |j: int| (s.accum[j] + tally(sel.cells(data), j as usize)) as u32,
        ),
    }
}

/// Accumulation buffer and render snapshot of the 256 x 256 x 256 grid.
pub struct VoxelGrid {
    accum: Vec<u32>,
    snapshot: Vec<u32>,
}

impl View for VoxelGrid {
    type V = GridState;

    closed spec fn view(&self) -> GridState {
        GridState { accum: self.accum@, snapshot: self.snapshot@ }
    }
}

fn zeroed(n: usize) -> (r: Vec<u32>)
    ensures
        r@.len() == n,
        forall|j: int| 0 <= j < n ==> #[trigger] r@[j] == 0,
{
    let mut r: Vec<u32> = Vec::with_capacity(n);
    let mut i: usize = 0;
    while i < n
        invariant
            i <= n,
            r@.len() == i,
            forall|j: int| 0 <= j < i ==> #[trigger] r@[j] == 0,
        decreases n - i,
    {
        r.push(0);
        i = i + 1;
    }
    r
}

impl VoxelGrid {
    /// A store whose counters and snapshot are all zero.
    pub fn new() -> (r: VoxelGrid)
        ensures
            r@.wf(),
            r@.settled(),
            forall|j: int| 0 <= j < GRID_CELLS ==> #[trigger] r@.snapshot[j] == 0,
    {
        VoxelGrid { accum: zeroed(GRID_CELLS), snapshot: zeroed(GRID_CELLS) }
    }

    /// Applies the increments `cells` to the accumulation counters, one after
    /// the other; the snapshot is untouched.
    pub fn add_increments(&mut self, cells: &Vec<usize>)
        requires
            old(self)@.wf(),
            forall|k: int| 0 <= k < cells@.len() ==> (#[trigger] cells@[k] as int) < GRID_CELLS,
            forall|j: usize|
                j < GRID_CELLS ==> old(self)@.accum[j as int] + #[trigger] tally(cells@, j)
                    <= u32::MAX,
        ensures
            final(self)@.wf(),
            final(self)@.snapshot == old(self)@.snapshot,
            forall|j: int|
                0 <= j < GRID_CELLS ==> #[trigger] final(self)@.accum[j] == old(self)@.accum[j]
                    + tally(cells@, j as usize),
            as_counts(final(self)@.accum) == apply_increments(as_counts(old(self)@.accum), cells@),
    {
        let ghost start = self.accum@;
        proof {
            assert forall|j: int| 0 <= j < GRID_CELLS implies #[trigger] self.accum@[j] == start[j]
                + tally(cells@.take(0), j as usize) by {
                assert(cells@.take(0) =~= Seq::<usize>::empty());
                lemma_tally_empty(j as usize);
            }
        }
        let mut k: usize = 0;
        while k < cells.len()
            invariant
                self@.wf(),
                self@.snapshot == old(self)@.snapshot,
                start == old(self)@.accum,
                0 <= k <= cells@.len(),
                forall|k: int| 0 <= k < cells@.len() ==> (#[trigger] cells@[k] as int) < GRID_CELLS,
                forall|j: usize|
                    j < GRID_CELLS ==> start[j as int] + #[trigger] tally(cells@, j) <= u32::MAX,
                forall|j: int|
                    0 <= j < GRID_CELLS ==> #[trigger] self.accum@[j] == start[j] + tally(
                        cells@.take(k as int),
                        j as usize,
                    ),
            decreases cells@.len() - k,
        {
            let c = cells[k];
            proof {
                lemma_tally_take(cells@, k as int, c);
                lemma_tally_prefix_le(cells@, k as int + 1, c);
                assert(start[c as int] + tally(cells@, c) <= u32::MAX);
            }
            let v = self.accum[c];
            self.accum.set(c, v + 1);
            proof {
                assert forall|j: int| 0 <= j < GRID_CELLS implies #[trigger] self.accum@[j]
                    == start[j] + tally(cells@.take(k + 1), j as usize) by {
                    lemma_tally_take(cells@, k as int, j as usize);
                }
            }
            k = k + 1;
        }
        assert(cells@.take(cells@.len() as int) =~= cells@);
        proof {
            lemma_apply_increments_tally(as_counts(start), cells@);
            assert(as_counts(self.accum@) =~= apply_increments(as_counts(start), cells@));
        }
    }

    /// The coupled snapshot-and-reset pass: each counter is copied into the
    /// snapshot and zeroed in the same step.
    pub fn snapshot_and_reset(&mut self)
        requires
            old(self)@.wf(),
        ensures
            final(self)@.wf(),
            final(self)@.settled(),
            final(self)@.snapshot == old(self)@.accum,
    {
        let mut j: usize = 0;
        while j < GRID_CELLS
            invariant
                self@.wf(),
                0 <= j <= GRID_CELLS,
                forall|i: int| 0 <= i < j ==> #[trigger] self.accum@[i] == 0,
                forall|i: int| 0 <= i < j ==> #[trigger] self.snapshot@[i] == old(self)@.accum[i],
                forall|i: int| j <= i < GRID_CELLS ==> #[trigger] self.accum@[i] == old(self)@.accum[i],
            decreases GRID_CELLS - j,
        {
            let v = self.accum[j];
            self.snapshot.set(j, v);
            self.accum.set(j, 0);
            j = j + 1;
        }
        assert(self.snapshot@ =~= old(self)@.accum);
    }

    /// A full recompute: bins `sel` of `data` into the (zero) counters, then
    /// moves the counts into the snapshot and zeroes the counters.
    pub fn recompute(&mut self, data: &Vec<u8>, sel: Selection)
        requires
            old(self)@.wf(),
            old(self)@.settled(),
            sel.valid(data@.len() as int),
            data@.len() <= u32::MAX,
        ensures
            final(self)@ == recomputed(old(self)@, data@, sel),
            final(self)@.wf(),
            final(self)@.settled(),
            forall|j: int|
                0 <= j < GRID_CELLS ==> #[trigger] final(self)@.snapshot[j] == tally(
                    sel.cells(data@),
                    j as usize,
                ),
    {
        let cells = build(data, sel.start, sel.end, sel.stride, sel.mode);
        proof {
            crate::binning::lemma_build_cells_in_grid(
                data@,
                sel.start as int,
                sel.end as int,
                sel.stride as int,
                sel.mode,
            );
            crate::binning::lemma_build_cells_len(
                data@,
                sel.start as int,
                sel.end as int,
                sel.stride as int,
                sel.mode,
            );
            assert forall|j: usize| j < GRID_CELLS implies old(self)@.accum[j as int] + #[trigger] tally(
                cells@,
                j,
            ) <= u32::MAX by {
                lemma_tally_le_len(cells@, j);
            }
        }
        self.add_increments(&cells);
        self.snapshot_and_reset();
        assert(self@.accum =~= recomputed(old(self)@, data@, sel).accum);
        assert(self@.snapshot =~= recomputed(old(self)@, data@, sel).snapshot);
    }

    /// The snapshot count of the cell `(x, y, z)`.
    pub fn sample(&self, x: u8, y: u8, z: u8) -> (r: u32)
        requires
            self@.wf(),
        ensures
            r == self@.snapshot[crate::binning::cell_of(x, y, z) as int],
    {
        let c = crate::binning::cell_index(x, y, z);
        self.snapshot[c]
    }

    /// The render snapshot, one counter per cell.
    pub fn snapshot(&self) -> (r: &Vec<u32>)
        ensures
            r@ == self@.snapshot,
    {
        &self.snapshot
    }

    /// The accumulation counters, one per cell.
    pub fn accumulators(&self) -> (r: &Vec<u32>)
        ensures
            r@ == self@.accum,
    {
        &self.accum
    }
}

/// Recomputing is free of double counting: a second recompute of an unchanged
/// selection leaves the same snapshot as the first, and both hold exactly the
/// build's tallies.
pub proof fn lemma_recompute_twice(s: GridState, data: Seq<u8>, sel: Selection)
    requires
        s.wf(),
        s.settled(),
        sel.valid(data.len() as int),
        data.len() <= u32::MAX,
    ensures
        recomputed(recomputed(s, data, sel), data, sel).snapshot == recomputed(s, data, sel).snapshot,
        recomputed(s, data, sel).settled(),
        forall|j: int|
            0 <= j < GRID_CELLS ==> #[trigger] recomputed(s, data, sel).snapshot[j] == tally(
                sel.cells(data),
                j as usize,
            ),
{
    let once = recomputed(s, data, sel);
    let twice = recomputed(once, data, sel);
    crate::binning::lemma_build_cells_len(
        data,
        sel.start as int,
        sel.end as int,
        sel.stride as int,
        sel.mode,
    );
    assert forall|j: int| 0 <= j < GRID_CELLS implies #[trigger] once.snapshot[j] == tally(
        sel.cells(data),
        j as usize,
    ) by {
        lemma_tally_le_len(sel.cells(data), j as usize);
    }
    assert(twice.snapshot =~= once.snapshot);
}

} // verus!

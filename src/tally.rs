//! Counting cell increments: how often each cell of the grid is hit by a
//! sequence of increments, independently of the order they were applied in.
use vstd::multiset::Multiset;
use vstd::prelude::*;

verus! {

/// Number of cells in the 256 x 256 x 256 grid.
pub const GRID_CELLS: usize = 16777216;

/// How many times `cell` occurs among the increments `cells`.
pub open spec fn tally(cells: Seq<usize>, cell: usize) -> nat {
    cells.to_multiset().count(cell)
}

/// Sum of the tallies of the cells `0..m`.
pub open spec fn tally_sum(cells: Seq<usize>, m: nat) -> int
    decreases m,
{
    if m == 0 {
        0
    } else {
        tally_sum(cells, (m - 1) as nat) + tally(cells, (m - 1) as usize)
    }
}

/// The grid obtained by applying the increments `cells` one after the other,
/// in the order given, to the counters `g`.
pub open spec fn apply_increments(g: Seq<int>, cells: Seq<usize>) -> Seq<int>
    decreases cells.len(),
{
    if cells.len() == 0 {
        g
    } else {
        let before = apply_increments(g, cells.drop_last());
        let c = cells.last() as int;
        if 0 <= c < before.len() {
            before.update(c, before[c] + 1)
        } else {
            before
        }
    }
}

pub proof fn lemma_tally_empty(cell: usize)
    ensures
        tally(Seq::<usize>::empty(), cell) == 0,
{
    broadcast use vstd::seq_lib::group_to_multiset_ensures;
    assert(Seq::<usize>::empty().to_multiset() =~= Multiset::empty());
}

/// Appending one increment raises the tally of that cell by one and leaves
/// every other tally as it was.
pub proof fn lemma_tally_push(cells: Seq<usize>, c: usize, cell: usize)
    ensures
        tally(cells.push(c), cell) == tally(cells, cell) + if cell == c { 1int } else { 0 },
{
    broadcast use vstd::seq_lib::group_to_multiset_ensures;
    assert(cells.push(c).to_multiset() =~= cells.to_multiset().insert(c));
}

/// The tally of a prefix grows by the next element.
pub proof fn lemma_tally_take(cells: Seq<usize>, k: int, cell: usize)
    requires
        0 <= k < cells.len(),
    ensures
        tally(cells.take(k + 1), cell) == tally(cells.take(k), cell) + if cell == cells[k] {
            1int
        } else {
            0
        },
{
    assert(cells.take(k + 1) =~= cells.take(k).push(cells[k]));
    lemma_tally_push(cells.take(k), cells[k], cell);
}

/// No cell is hit more often than there are increments.
pub proof fn lemma_tally_le_len(cells: Seq<usize>, cell: usize)
    ensures
        tally(cells, cell) <= cells.len(),
{
    broadcast use vstd::seq_lib::group_to_multiset_ensures;
    broadcast use vstd::multiset::group_multiset_axioms;
    assert(cells.to_multiset().count(cell) <= cells.to_multiset().len());
}

/// A prefix of the increments hits a cell at most as often as all of them.
pub proof fn lemma_tally_prefix_le(cells: Seq<usize>, k: int, cell: usize)
    requires
        0 <= k <= cells.len(),
    ensures
        tally(cells.take(k), cell) <= tally(cells, cell),
{
    broadcast use vstd::multiset::group_multiset_axioms;
    assert(cells.take(k) + cells.skip(k) =~= cells);
    vstd::seq_lib::lemma_multiset_commutative(cells.take(k), cells.skip(k));
}

proof fn lemma_tally_sum_push(cells: Seq<usize>, c: usize, m: nat)
    requires
        m <= GRID_CELLS,
    ensures
        tally_sum(cells.push(c), m) == tally_sum(cells, m) + if (c as int) < m { 1int } else { 0 },
    decreases m,
{
    if m > 0 {
        lemma_tally_sum_push(cells, c, (m - 1) as nat);
        lemma_tally_push(cells, c, (m - 1) as usize);
    }
}

proof fn lemma_tally_sum_empty(m: nat)
    ensures
        tally_sum(Seq::<usize>::empty(), m) == 0,
    decreases m,
{
    if m > 0 {
        lemma_tally_sum_empty((m - 1) as nat);
        lemma_tally_empty((m - 1) as usize);
    }
}

/// When every increment names a cell below `m`, the tallies of the cells
/// below `m` add up to the number of increments.
pub proof fn lemma_tally_sum_total(cells: Seq<usize>, m: nat)
    requires
        m <= GRID_CELLS,
        forall|k: int| 0 <= k < cells.len() ==> (#[trigger] cells[k] as int) < m,
    ensures
        tally_sum(cells, m) == cells.len(),
    decreases cells.len(),
{
    if cells.len() == 0 {
        lemma_tally_sum_empty(m);
        assert(cells =~= Seq::<usize>::empty());
    } else {
        let init = cells.drop_last();
        assert forall|k: int| 0 <= k < init.len() implies (#[trigger] init[k] as int) < m by {
            assert(init[k] == cells[k]);
        }
        lemma_tally_sum_total(init, m);
        assert(init.push(cells.last()) =~= cells);
        lemma_tally_sum_push(init, cells.last(), m);
    }
}

/// Applying increments one at a time adds to each counter the tally of its cell.
pub proof fn lemma_apply_increments_tally(g: Seq<int>, cells: Seq<usize>)
    requires
        g.len() == GRID_CELLS,
        forall|k: int| 0 <= k < cells.len() ==> (#[trigger] cells[k] as int) < GRID_CELLS,
    ensures
        apply_increments(g, cells).len() == g.len(),
        forall|j: int|
            0 <= j < g.len() ==> #[trigger] apply_increments(g, cells)[j] == g[j] + tally(
                cells,
                j as usize,
            ),
    decreases cells.len(),
{
    if cells.len() == 0 {
        assert forall|j: int| 0 <= j < g.len() implies #[trigger] apply_increments(g, cells)[j]
            == g[j] + tally(cells, j as usize) by {
            assert(cells =~= Seq::<usize>::empty());
            lemma_tally_empty(j as usize);
        }
    } else {
        let init = cells.drop_last();
        assert forall|k: int| 0 <= k < init.len() implies (#[trigger] init[k] as int)
            < GRID_CELLS by {
            assert(init[k] == cells[k]);
        }
        lemma_apply_increments_tally(g, init);
        assert(init.push(cells.last()) =~= cells);
        assert forall|j: int| 0 <= j < g.len() implies #[trigger] apply_increments(g, cells)[j]
            == g[j] + tally(cells, j as usize) by {
            lemma_tally_push(init, cells.last(), j as usize);
        }
    }
}

/// Accumulation does not depend on the order of the increments: two builds
/// that apply the same increments, in any two orders, end in the same counts.
pub proof fn lemma_accumulation_order_free(g: Seq<int>, first: Seq<usize>, second: Seq<usize>)
    requires
        g.len() == GRID_CELLS,
        forall|k: int| 0 <= k < first.len() ==> (#[trigger] first[k] as int) < GRID_CELLS,
        first.to_multiset() =~= second.to_multiset(),
    ensures
        apply_increments(g, first) == apply_increments(g, second),
{
    broadcast use vstd::seq_lib::group_to_multiset_ensures;
    assert forall|k: int| 0 <= k < second.len() implies (#[trigger] second[k] as int)
        < GRID_CELLS by {
        assert(second.contains(second[k]));
        assert(second.to_multiset().count(second[k]) > 0);
        assert(first.contains(second[k]));
    }
    lemma_apply_increments_tally(g, first);
    lemma_apply_increments_tally(g, second);
    assert(apply_increments(g, first) =~= apply_increments(g, second));
}

} // verus!

//! The offline histogram: one pass over a whole stream at stride 1 into
//! saturating 16-bit counters, and their byte image for a dump file.
use crate::binning::{cell_index, direct_cells};
use crate::tally::{lemma_tally_empty, lemma_tally_take, tally, GRID_CELLS};
use itertools::Itertools;
use vstd::prelude::*;

verus! {

/// Largest value of an offline counter.
pub const COUNTER_MAX: u16 = 65535;

/// The offline count of a cell hit `hits` times: the hits, saturated.
pub open spec fn saturated(hits: nat) -> u16 {
    if hits < COUNTER_MAX {
        hits as u16
    } else {
        COUNTER_MAX
    }
}

/// The 16-bit value of two bytes, low byte first or high byte first.
pub open spec fn u16_of(high_first: bool, first: u8, second: u8) -> int {
    if high_first {
        256 * (first as int) + second as int
    } else {
        first as int + 256 * (second as int)
    }
}

/// `bytes` holds `counts`, two bytes per counter, each pair in the given order.
pub open spec fn encodes(high_first: bool, bytes: Seq<u8>, counts: Seq<u16>) -> bool {
    &&& bytes.len() == 2 * counts.len()
    &&& forall|i: int|
        0 <= i < counts.len() ==> u16_of(high_first, bytes[2 * i], bytes[2 * i + 1])
            == #[trigger] counts[i] as int
}

/// The offline counters of a whole stream.
pub open spec fn offline_counts(data: Seq<u8>) -> Seq<u16> {
    Seq::new(
        GRID_CELLS as nat,
        |j: int| saturated(tally(direct_cells(data, 0, data.len() as int, 1), j as usize)),
    )
}

/// Relies on itertools' `tuple_windows`: the windows of three consecutive
/// items, one per start position, in order.
#[verifier::external_body]
fn byte_triples(data: &Vec<u8>) -> (r: Vec<(u8, u8, u8)>)
    ensures
        r@.len() == if data@.len() >= 2 { data@.len() - 2 } else { 0 },
        forall|k: int|
            0 <= k < r@.len() ==> #[trigger] r@[k] == (data@[k], data@[k + 1], data@[k + 2]),
{
    data.iter().copied().tuple_windows::<(u8, u8, u8)>().collect()
}

/// Relies on bytemuck's `cast_slice`: the counters' memory as bytes, two per
/// counter in the machine's byte order.
#[verifier::external_body]
fn native_bytes(counts: &Vec<u16>) -> (r: Vec<u8>)
    ensures
        encodes(false, r@, counts@) || encodes(true, r@, counts@),
{
    bytemuck::cast_slice::<u16, u8>(counts.as_slice()).to_vec()
}

/// The offline histogram of a whole stream: each cell counts the start
/// offsets of whole triples binned there at stride 1, saturating at
/// `COUNTER_MAX`.
pub fn offline_histogram(data: &Vec<u8>) -> (r: Vec<u16>)
    ensures
        r@ == offline_counts(data@),
{
    let ghost cells = direct_cells(data@, 0, data@.len() as int, 1);
    let triples = byte_triples(data);
    assert(triples@.len() == cells.len());
    let mut counts: Vec<u16> = Vec::with_capacity(GRID_CELLS);
    let mut j: usize = 0;
    while j < GRID_CELLS
        invariant
            j <= GRID_CELLS,
            counts@.len() == j,
            forall|i: int| 0 <= i < j ==> #[trigger] counts@[i] == 0,
        decreases GRID_CELLS - j,
    {
        counts.push(0);
        j = j + 1;
    }
    proof {
        assert forall|i: int| 0 <= i < GRID_CELLS implies #[trigger] counts@[i] == saturated(
            tally(cells.take(0), i as usize),
        ) by {
            assert(cells.take(0) =~= Seq::<usize>::empty());
            lemma_tally_empty(i as usize);
        }
    }
    let mut k: usize = 0;
    while k < triples.len()
        invariant
            triples@.len() == cells.len(),
            cells == direct_cells(data@, 0, data@.len() as int, 1),
            forall|k: int|
                0 <= k < triples@.len() ==> #[trigger] triples@[k] == (
                    data@[k],
                    data@[k + 1],
                    data@[k + 2],
                ),
            0 <= k <= triples@.len(),
            counts@.len() == GRID_CELLS,
            forall|i: int|
                0 <= i < GRID_CELLS ==> #[trigger] counts@[i] == saturated(
                    tally(cells.take(k as int), i as usize),
                ),
        decreases triples@.len() - k,
    {
        let (a, b, c) = triples[k];
        let cell = cell_index(a, b, c);
        assert(cells[k as int] == cell);
        let v = counts[cell];
        if v < COUNTER_MAX {
            counts.set(cell, v + 1);
        }
        proof {
            assert forall|i: int| 0 <= i < GRID_CELLS implies #[trigger] counts@[i] == saturated(
                tally(cells.take(k + 1), i as usize),
            ) by {
                lemma_tally_take(cells, k as int, i as usize);
            }
        }
        k = k + 1;
    }
    assert(cells.take(cells.len() as int) =~= cells);
    assert(counts@ =~= offline_counts(data@));
    counts
}

/// The dump of a whole stream: its offline histogram as bytes, two per
/// counter in the machine's byte order, cell after cell.
pub fn offline_dump(data: &Vec<u8>) -> (r: Vec<u8>)
    ensures
        encodes(false, r@, offline_counts(data@)) || encodes(true, r@, offline_counts(data@)),
{
    let counts = offline_histogram(data);
    native_bytes(&counts)
}

} // verus!

use hilbertdust::binning::{build, cell_index, direct_build, sliced_build, BinningMode};
use hilbertdust::grid::{Selection, VoxelGrid};
use hilbertdust::tally::GRID_CELLS;

fn fixture() -> Vec<u8> {
    vec![10, 20, 30, 10, 20, 30, 10, 20, 30]
}

fn mixed_stream(n: usize) -> Vec<u8> {
    (0..n).map(|i| ((i * 37 + i / 7) % 251) as u8).collect()
}

fn snapshot_total(grid: &VoxelGrid) -> u64 {
    grid.snapshot().iter().map(|&v| v as u64).sum()
}

#[test]
fn cell_index_layout() {
    assert_eq!(cell_index(0, 0, 0), 0);
    assert_eq!(cell_index(1, 2, 3), 1 + 2 * 256 + 3 * 65536);
    assert_eq!(cell_index(255, 255, 255), GRID_CELLS - 1);
}

#[test]
fn fixture_direct_counts() {
    let data = fixture();
    let mut grid = VoxelGrid::new();
    let sel = Selection { start: 0, end: data.len(), stride: 1, mode: BinningMode::Direct };
    grid.recompute(&data, sel);
    assert_eq!(grid.sample(10, 20, 30), 3);
    assert_eq!(grid.sample(20, 30, 10), 2);
    assert_eq!(grid.sample(30, 10, 20), 2);
    assert_eq!(grid.sample(30, 20, 10), 0);
    assert_eq!(grid.sample(0, 0, 0), 0);
    assert_eq!(snapshot_total(&grid), 7);
    let nonzero = grid.snapshot().iter().filter(|&&v| v != 0).count();
    assert_eq!(nonzero, 3);
}

#[test]
fn fixture_direct_cells_in_offset_order() {
    let data = fixture();
    let cells = direct_build(&data, 0, data.len(), 1);
    let a = cell_index(10, 20, 30);
    let b = cell_index(20, 30, 10);
    let c = cell_index(30, 10, 20);
    assert_eq!(cells, vec![a, b, c, a, b, c, a]);
}

#[test]
fn full_range_total_per_stride() {
    let data = mixed_stream(100);
    for stride in 1..=4usize {
        let mut grid = VoxelGrid::new();
        let sel = Selection { start: 0, end: data.len(), stride, mode: BinningMode::Direct };
        grid.recompute(&data, sel);
        let expected = (98 + stride as u64 - 1) / stride as u64;
        assert_eq!(snapshot_total(&grid), expected);
    }
}

#[test]
fn direct_stride_steps_start_offsets() {
    let data: Vec<u8> = vec![1, 2, 3, 4, 5, 6, 7, 8];
    let cells = direct_build(&data, 1, 8, 3);
    assert_eq!(cells, vec![cell_index(2, 3, 4), cell_index(5, 6, 7)]);
}

#[test]
fn direct_sub_range_reads_bytes_after_end() {
    let data: Vec<u8> = vec![1, 2, 3, 4, 5];
    let cells = direct_build(&data, 0, 2, 1);
    assert_eq!(cells, vec![cell_index(1, 2, 3), cell_index(2, 3, 4)]);
}

#[test]
fn short_stream_gives_no_cells() {
    let data: Vec<u8> = vec![7, 8];
    assert!(direct_build(&data, 0, 2, 1).is_empty());
    let empty: Vec<u8> = Vec::new();
    assert!(direct_build(&empty, 0, 0, 1).is_empty());
    let data = fixture();
    assert!(direct_build(&data, 4, 4, 1).is_empty());
}

#[test]
fn sliced_two_offsets_per_slice() {
    let data = mixed_stream(512);
    let cells = sliced_build(&data, 0, 512, 1);
    assert_eq!(cells.len(), 512);
    for z in 0..256usize {
        for x in 0..2usize {
            let i = x + 2 * z;
            let b = if i + 1 < data.len() { data[i + 1] } else { 0 };
            assert_eq!(cells[z * 2 + x], cell_index(data[i], b, z as u8));
        }
    }
}

#[test]
fn sliced_pads_past_stream_end() {
    let data: Vec<u8> = vec![9; 256];
    let cells = sliced_build(&data, 0, 256, 1);
    assert_eq!(cells.len(), 256);
    assert_eq!(cells[0], cell_index(9, 9, 0));
    assert_eq!(cells[255], cell_index(9, 0, 255));
}

#[test]
fn sliced_with_stride_and_offset() {
    let data = mixed_stream(3000);
    // 2048 bytes from 100: slices of 8 bytes, 4 offsets per slice at stride 2.
    let cells = sliced_build(&data, 100, 2148, 2);
    assert_eq!(cells.len(), 1024);
    assert_eq!(cells[0], cell_index(data[100], data[101], 0));
    assert_eq!(cells[3], cell_index(data[106], data[107], 0));
    assert_eq!(cells[4 * 10 + 1], cell_index(data[182], data[183], 10));
}

#[test]
fn sliced_short_range_is_empty() {
    let data = mixed_stream(300);
    assert!(sliced_build(&data, 0, 255, 1).is_empty());
    assert!(sliced_build(&data, 0, 300, 2).is_empty());
    let mut grid = VoxelGrid::new();
    let sel = Selection { start: 10, end: 200, stride: 1, mode: BinningMode::Sliced };
    grid.recompute(&data, sel);
    assert_eq!(snapshot_total(&grid), 0);
}

#[test]
fn build_dispatches_on_mode() {
    let data = mixed_stream(600);
    assert_eq!(build(&data, 0, 600, 1, BinningMode::Direct), direct_build(&data, 0, 600, 1));
    assert_eq!(build(&data, 0, 600, 1, BinningMode::Sliced), sliced_build(&data, 0, 600, 1));
}

#[test]
fn increments_in_any_order_give_same_counts() {
    let data = mixed_stream(400);
    let cells = direct_build(&data, 0, 400, 1);
    let mut reversed = cells.clone();
    reversed.reverse();
    let mut shuffled = cells.clone();
    shuffled.rotate_left(123);
    let mut first = VoxelGrid::new();
    first.add_increments(&cells);
    let mut second = VoxelGrid::new();
    second.add_increments(&reversed);
    let mut third = VoxelGrid::new();
    third.add_increments(&shuffled);
    assert!(first.accumulators() == second.accumulators());
    assert!(first.accumulators() == third.accumulators());
}

#[test]
fn recompute_twice_gives_same_snapshot() {
    let data = mixed_stream(1000);
    let sel = Selection { start: 50, end: 900, stride: 2, mode: BinningMode::Direct };
    let mut grid = VoxelGrid::new();
    grid.recompute(&data, sel);
    let first = grid.snapshot().clone();
    grid.recompute(&data, sel);
    assert!(&first == grid.snapshot());
    assert!(grid.accumulators().iter().all(|&v| v == 0));
    assert_eq!(first.iter().map(|&v| v as u64).sum::<u64>(), 425);
}

#[test]
fn snapshot_and_reset_moves_counts() {
    let mut grid = VoxelGrid::new();
    let cells = vec![5usize, 5, 9, GRID_CELLS - 1];
    grid.add_increments(&cells);
    assert_eq!(grid.accumulators()[5], 2);
    assert_eq!(grid.snapshot()[5], 0);
    grid.snapshot_and_reset();
    assert_eq!(grid.snapshot()[5], 2);
    assert_eq!(grid.snapshot()[9], 1);
    assert_eq!(grid.snapshot()[GRID_CELLS - 1], 1);
    assert!(grid.accumulators().iter().all(|&v| v == 0));
}

#[test]
fn new_grid_is_zero() {
    let grid = VoxelGrid::new();
    assert_eq!(grid.snapshot().len(), GRID_CELLS);
    assert_eq!(grid.accumulators().len(), GRID_CELLS);
    assert_eq!(snapshot_total(&grid), 0);
}

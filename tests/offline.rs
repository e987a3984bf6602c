use hilbertdust::binning::cell_index;
use hilbertdust::offline::{offline_dump, offline_histogram};
use hilbertdust::tally::GRID_CELLS;

#[test]
fn offline_fixture_counts() {
    let data: Vec<u8> = vec![10, 20, 30, 10, 20, 30, 10, 20, 30];
    let h = offline_histogram(&data);
    assert_eq!(h.len(), GRID_CELLS);
    assert_eq!(h[cell_index(10, 20, 30)], 3);
    assert_eq!(h[cell_index(20, 30, 10)], 2);
    assert_eq!(h[cell_index(30, 10, 20)], 2);
    assert_eq!(h.iter().map(|&v| v as u64).sum::<u64>(), 7);
}

#[test]
fn offline_counters_saturate() {
    let data: Vec<u8> = vec![0; 70_002];
    let h = offline_histogram(&data);
    assert_eq!(h[0], 65535);
    assert_eq!(h.iter().filter(|&&v| v != 0).count(), 1);
}

#[test]
fn offline_short_stream_is_zero() {
    let data: Vec<u8> = vec![1, 2];
    let h = offline_histogram(&data);
    assert!(h.iter().all(|&v| v == 0));
}

#[test]
fn offline_dump_native_order() {
    let data: Vec<u8> = vec![10, 20, 30, 10, 20, 30, 10, 20, 30];
    let d = offline_dump(&data);
    assert_eq!(d.len(), 2 * GRID_CELLS);
    let c = cell_index(10, 20, 30);
    assert_eq!(u16::from_ne_bytes([d[2 * c], d[2 * c + 1]]), 3);
    let c = cell_index(20, 30, 10);
    assert_eq!(u16::from_ne_bytes([d[2 * c], d[2 * c + 1]]), 2);
    assert_eq!(d.iter().map(|&b| b as u64).sum::<u64>(), 7);
}

use hilbertdust::binning::BinningMode;
use hilbertdust::window::{ViewWindow, DETAIL_MIN_SPAN};

#[test]
fn new_window_covers_stream() {
    let w = ViewWindow::new(10_000_000);
    assert_eq!((w.overview_start, w.overview_end), (0, 10_000_000));
    assert_eq!((w.detail_start, w.detail_end), (0, 10_000_000));
    assert_eq!(w.overview_row_stride, 5120);
    assert_eq!(w.detail_row_stride, 4864);
    assert_eq!(w.stride, 1);
    assert_eq!(w.mode, BinningMode::Direct);
    assert!(!w.seeking);
    assert!(w.pending);
}

#[test]
fn small_stream_row_strides_floor_at_strip_width() {
    let w = ViewWindow::new(1000);
    assert_eq!(w.overview_row_stride, 256);
    assert_eq!(w.detail_row_stride, 256);
}

#[test]
fn detail_edges_keep_min_span() {
    let mut w = ViewWindow::new(10_000_000);
    w.take_pending();
    w.set_detail_start(10);
    assert_eq!((w.detail_start, w.detail_end), (48640, 10_000_000));
    assert!(w.pending);
    w.set_detail_end(10);
    assert_eq!((w.detail_start, w.detail_end), (48384, 48640));
    assert_eq!(w.detail_end - w.detail_start, DETAIL_MIN_SPAN);
    w.set_detail_start(10);
    assert_eq!((w.detail_start, w.detail_end), (48640, 48896));
    assert_eq!(w.detail_end - w.detail_start, DETAIL_MIN_SPAN);
}

#[test]
fn detail_row_past_overview_is_ignored_but_marks_pending() {
    let mut w = ViewWindow::new(10_000_000);
    w.take_pending();
    w.set_detail_start(5000);
    assert_eq!((w.detail_start, w.detail_end), (0, 10_000_000));
    assert!(w.pending);
    w.take_pending();
    w.set_detail_end(usize::MAX);
    assert_eq!((w.detail_start, w.detail_end), (0, 10_000_000));
    assert!(w.pending);
}

#[test]
fn detail_end_near_overview_start_clamps_start() {
    let mut w = ViewWindow::new(10_000_000);
    w.set_detail_end(0);
    assert_eq!((w.detail_start, w.detail_end), (0, 0));
}

#[test]
fn overview_edges_move_detail_inside() {
    let mut w = ViewWindow::new(10_000_000);
    w.set_detail_start(10);
    w.set_detail_end(10);
    w.take_pending();
    w.set_overview_start(100);
    assert_eq!((w.overview_start, w.overview_end), (512000, 10_000_000));
    assert_eq!((w.detail_start, w.detail_end), (512000, 512000));
    assert_eq!(w.detail_row_stride, 4608);
    assert!(w.pending);
    w.take_pending();
    w.set_overview_end(1900);
    assert_eq!((w.overview_start, w.overview_end), (512000, 9_728_000));
    assert_eq!(w.detail_row_stride, 4352);
    assert!(!w.pending);
}

#[test]
fn overview_start_pushes_end_for_min_span() {
    let mut w = ViewWindow::new(10_000_000);
    w.set_overview_end(200);
    assert_eq!((w.overview_start, w.overview_end), (0, 1_024_000));
    w.set_overview_start(150);
    assert_eq!((w.overview_start, w.overview_end), (768000, 1_292_288));
    w.set_overview_end(160);
    assert_eq!((w.overview_start, w.overview_end), (294912, 819200));
}

#[test]
fn overview_row_past_stream_is_ignored() {
    let mut w = ViewWindow::new(10_000_000);
    let before = w;
    w.set_overview_start(2000);
    assert_eq!(w, before);
}

#[test]
fn seek_moves_detail_and_stops_at_end() {
    let mut w = ViewWindow::new(1000);
    w.take_pending();
    w.advance_seek();
    assert_eq!((w.detail_start, w.detail_end), (0, 1000));
    assert!(!w.pending);
    w.toggle_seeking();
    assert!(w.seeking);
    w.advance_seek();
    assert_eq!((w.detail_start, w.detail_end), (256, 1000));
    assert!(w.pending);
    w.advance_seek();
    assert_eq!((w.detail_start, w.detail_end), (512, 1000));
    w.advance_seek();
    assert_eq!((w.detail_start, w.detail_end), (744, 1000));
    w.advance_seek();
    assert_eq!((w.detail_start, w.detail_end), (744, 1000));
}

#[test]
fn seek_shifts_by_detail_row_stride() {
    let mut w = ViewWindow::new(10_000_000);
    w.set_detail_start(10);
    w.set_detail_end(10);
    w.toggle_seeking();
    w.advance_seek();
    assert_eq!((w.detail_start, w.detail_end), (48384 + 4864, 48640 + 4864));
}

#[test]
fn stride_cycles_and_mode_toggles() {
    let mut w = ViewWindow::new(1000);
    w.take_pending();
    let mut seen = Vec::new();
    for _ in 0..5 {
        w.cycle_stride();
        seen.push(w.stride);
    }
    assert_eq!(seen, vec![2, 3, 4, 1, 2]);
    assert!(w.take_pending());
    assert!(!w.take_pending());
    w.toggle_binning_mode();
    assert_eq!(w.mode, BinningMode::Sliced);
    assert!(w.pending);
    w.toggle_binning_mode();
    assert_eq!(w.mode, BinningMode::Direct);
}

#[test]
fn press_picks_strip_by_column() {
    let mut w = ViewWindow::new(10_000_000);
    let before = w;
    w.press(100, 5, true);
    assert_eq!(w, before);
    w.press(2100, 10, true);
    assert_eq!(w.detail_start, 48640);
    w.press(2100, 10, false);
    assert_eq!((w.detail_start, w.detail_end), (48384, 48640));
    w.press(2400, 100, true);
    assert_eq!(w.overview_start, 512000);
    w.press(2400, 1900, false);
    assert_eq!(w.overview_end, 9_728_000);
}

#[test]
fn selection_follows_detail_range() {
    let mut w = ViewWindow::new(10_000_000);
    w.set_detail_start(10);
    w.cycle_stride();
    w.toggle_binning_mode();
    let sel = w.selection();
    assert_eq!((sel.start, sel.end, sel.stride), (48640, 10_000_000, 2));
    assert_eq!(sel.mode, BinningMode::Sliced);
}

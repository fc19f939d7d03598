use mosse::{index_to_coords, peak_index, sidelobe_exclusion, window_crop};
use mosse::{LumaFrame, TrackingWindow, WindowError};

fn ramp_frame(width: u32, height: u32) -> LumaFrame {
    let mut pixels = Vec::new();
    for y in 0..height {
        for x in 0..width {
            pixels.push(((x + 3 * y) % 251) as u8);
        }
    }
    LumaFrame::from_raw(width, height, pixels).unwrap()
}

#[test]
fn index_to_coords_example() {
    assert_eq!(index_to_coords(64, 130), (2, 2));
}

#[test]
fn index_to_coords_inverts_row_major_index() {
    let n = 16u32;
    for y in 0..n {
        for x in 0..n {
            assert_eq!(index_to_coords(n, y * n + x), (x, y));
        }
    }
}

#[test]
fn from_raw_checks_the_buffer_length() {
    assert!(LumaFrame::from_raw(4, 3, vec![0u8; 12]).is_some());
    assert!(LumaFrame::from_raw(4, 3, vec![0u8; 11]).is_none());
    assert!(LumaFrame::from_raw(4, 3, vec![0u8; 13]).is_none());
    let black = LumaFrame::new(5, 2);
    assert_eq!(black.pixels, vec![0u8; 10]);
}

#[test]
fn crop_at_origin_clamps_to_top_left() {
    let frame = ramp_frame(64, 64);
    let window = window_crop(&frame, 16, 16, (0, 0));
    assert_eq!((window.width, window.height), (16, 16));
    for row in 0..16usize {
        for col in 0..16usize {
            assert_eq!(window.pixels[row * 16 + col], frame.pixels[row * 64 + col]);
        }
    }
}

#[test]
fn crop_centered_inside_frame() {
    let frame = ramp_frame(64, 48);
    let window = window_crop(&frame, 16, 8, (30, 20));
    // top-left corner at (30 - 8, 20 - 4)
    assert_eq!(window.pixels[0], frame.pixels[16 * 64 + 22]);
    assert_eq!(window.pixels[7 * 16 + 15], frame.pixels[23 * 64 + 37]);
}

#[test]
fn crop_near_far_edge_clamps_inside() {
    let frame = ramp_frame(64, 64);
    let window = window_crop(&frame, 16, 16, (63, 60));
    // corner clamped to (64 - 16, 64 - 16)
    assert_eq!(window.pixels[0], frame.pixels[48 * 64 + 48]);
    assert_eq!(window.pixels[255], frame.pixels[63 * 64 + 63]);
}

#[test]
fn window_setup_errors() {
    assert_eq!(TrackingWindow::new(64, 64, 0).unwrap_err(), WindowError::EmptyWindow);
    assert_eq!(TrackingWindow::new(8, 64, 16).unwrap_err(), WindowError::WiderThanFrame);
    assert_eq!(TrackingWindow::new(64, 8, 16).unwrap_err(), WindowError::TallerThanFrame);
    assert_eq!(
        TrackingWindow::new(100_000, 100_000, 70_000).unwrap_err(),
        WindowError::TooLarge
    );
    let window = TrackingWindow::new(64, 48, 16).unwrap();
    assert_eq!(window.center, (0, 0));
    assert_eq!((window.frame_width, window.frame_height, window.window_size), (64, 48, 16));
}

#[test]
fn crop_rejects_frame_of_other_size() {
    let window = TrackingWindow::new(64, 64, 16).unwrap();
    let frame = LumaFrame::new(64, 32);
    assert_eq!(window.crop(&frame).unwrap_err(), WindowError::FrameSizeMismatch);
    let frame = LumaFrame::new(64, 64);
    assert_eq!(window.crop(&frame).unwrap().pixels.len(), 256);
}

#[test]
fn peak_at_window_middle_keeps_center() {
    let mut window = TrackingWindow::new(64, 64, 16).unwrap();
    window.place((8, 8));
    let peak = window.follow_peak(8 * 16 + 8);
    assert_eq!(peak, (8, 8));
    assert_eq!(window.center, (8, 8));
}

#[test]
fn peak_moves_center_by_offset() {
    let mut window = TrackingWindow::new(64, 64, 16).unwrap();
    window.place((30, 30));
    let peak = window.follow_peak(9 * 16 + 10);
    assert_eq!(peak, (10, 9));
    assert_eq!(window.center, (32, 31));
}

#[test]
fn followed_center_stays_half_window_from_borders() {
    let mut window = TrackingWindow::new(64, 40, 16).unwrap();
    window.place((0, 0));
    window.follow_peak(0);
    assert_eq!(window.center, (8, 8));
    window.place((63, 39));
    window.follow_peak(15 * 16 + 15);
    assert_eq!(window.center, (56, 32));
}

#[test]
fn peak_index_prefers_first_of_equal_maxima() {
    assert_eq!(peak_index(&vec![1, 5, 3, 5, -2]), 1);
    assert_eq!(peak_index(&vec![-7]), 0);
    assert_eq!(peak_index(&vec![-3, -1, -2]), 1);
}

#[test]
fn established_exclusion_is_empty() {
    assert!(sidelobe_exclusion(16, (8, 8), false).is_empty());
    assert!(sidelobe_exclusion(16, (0, 0), false).is_empty());
    assert!(sidelobe_exclusion(16, (15, 15), false).is_empty());
}

#[test]
fn neighborhood_exclusion_covers_block_around_peak() {
    let inner = sidelobe_exclusion(32, (16, 16), true);
    assert_eq!(inner.len(), 121);
    assert_eq!(inner[0], 11 * 32 + 11);
    assert_eq!(inner[1], 12 * 32 + 11);
    assert_eq!(inner[120], 21 * 32 + 21);
    let corner = sidelobe_exclusion(32, (0, 0), true);
    assert_eq!(corner.len(), 36);
    assert_eq!(corner[35], 5 * 32 + 5);
    let edge = sidelobe_exclusion(16, (15, 2), true);
    assert_eq!(edge.len(), 6 * 8);
    assert_eq!(edge[0], 10);
}

#[test]
fn flat_response_keeps_center_at_half_window() {
    // a flat response peaks at its first sample, (0, 0)
    let mut window = TrackingWindow::new(64, 64, 16).unwrap();
    window.place((8, 8));
    assert_eq!(window.follow_peak(0), (0, 0));
    assert_eq!(window.center, (8, 8));
}

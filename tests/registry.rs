use mosse::{LumaFrame, TrackerRegistry, TrackingWindow};

fn trained(frame: &LumaFrame, center: (u32, u32)) -> TrackingWindow {
    let mut window = TrackingWindow::new(frame.width, frame.height, 16).unwrap();
    window.place(center);
    window
}

fn center_of(registry: &TrackerRegistry<TrackingWindow>, id: u32) -> (u32, u32) {
    registry.tracker(registry.position(id).unwrap()).center
}

#[test]
fn unique_identifier() {
    let width = 64;
    let height = 64;
    let frame = LumaFrame::new(width, height);
    let mut multi_tracker: TrackerRegistry<TrackingWindow> = TrackerRegistry::new(3);
    assert_eq!(multi_tracker.size(), 0);
    multi_tracker.add_or_replace(0, trained(&frame, (0, 0)));

    assert_eq!(multi_tracker.size(), 1);
    assert_eq!(center_of(&multi_tracker, 0), (0, 0));

    multi_tracker.add_or_replace(1, trained(&frame, (10, 0)));

    assert_eq!(multi_tracker.size(), 2);

    multi_tracker.add_or_replace(0, trained(&frame, (10, 0)));

    assert_eq!(multi_tracker.size(), 2);
    assert_eq!(center_of(&multi_tracker, 0), (10, 0));
}

#[test]
fn replacing_keeps_position_and_resets_misses() {
    let mut registry: TrackerRegistry<u32> = TrackerRegistry::new(3);
    registry.add_or_replace(7, 70);
    registry.add_or_replace(8, 80);
    registry.settle(&vec![false, false]);
    assert_eq!((registry.misses(0), registry.misses(1)), (1, 1));
    registry.add_or_replace(7, 71);
    assert_eq!(registry.size(), 2);
    assert_eq!((registry.id(0), *registry.tracker(0), registry.misses(0)), (7, 71, 0));
    assert_eq!((registry.id(1), *registry.tracker(1), registry.misses(1)), (8, 80, 1));
}

#[test]
fn repeated_add_with_same_id_keeps_size() {
    let mut registry: TrackerRegistry<u32> = TrackerRegistry::new(2);
    for round in 0..5u32 {
        registry.add_or_replace(4, round);
        assert_eq!(registry.size(), 1);
    }
    assert_eq!(*registry.tracker(0), 4);
}

#[test]
fn all_evicted_after_three_missed_frames() {
    let frame = LumaFrame::new(64, 64);
    let mut registry: TrackerRegistry<TrackingWindow> = TrackerRegistry::new(3);
    registry.add_or_replace(0, trained(&frame, (0, 0)));
    registry.add_or_replace(1, trained(&frame, (10, 0)));
    registry.settle(&vec![false, false]);
    assert_eq!(registry.size(), 2);
    registry.settle(&vec![false, false]);
    assert_eq!(registry.size(), 2);
    assert_eq!(registry.misses(1), 2);
    registry.settle(&vec![false, false]);
    assert_eq!(registry.size(), 0);
}

#[test]
fn cleared_frame_resets_count_and_evicts_only_the_lost() {
    let mut registry: TrackerRegistry<u32> = TrackerRegistry::new(2);
    registry.add_or_replace(1, 10);
    registry.add_or_replace(2, 20);
    registry.add_or_replace(3, 30);
    registry.settle(&vec![false, false, true]);
    assert_eq!((registry.misses(0), registry.misses(1), registry.misses(2)), (1, 1, 0));
    registry.settle(&vec![true, false, false]);
    assert_eq!(registry.size(), 2);
    assert_eq!((registry.id(0), registry.misses(0)), (1, 0));
    assert_eq!((registry.id(1), registry.misses(1)), (3, 1));
    assert!(registry.position(2).is_none());
}

#[test]
fn tracker_mut_changes_only_the_tracker() {
    let mut registry: TrackerRegistry<u32> = TrackerRegistry::new(5);
    registry.add_or_replace(9, 1);
    registry.settle(&vec![false]);
    *registry.tracker_mut(0) += 41;
    assert_eq!((registry.id(0), registry.misses(0), *registry.tracker(0)), (9, 1, 42));
    assert_eq!(registry.desperation_level(), 5);
}

#[test]
fn zero_desperation_level_evicts_on_first_frame() {
    let mut registry: TrackerRegistry<u32> = TrackerRegistry::new(0);
    registry.add_or_replace(1, 1);
    registry.add_or_replace(2, 2);
    registry.settle(&vec![true, false]);
    assert_eq!(registry.size(), 0);
}

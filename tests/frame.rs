use particle_dance::{FrameClock, Tick};

#[test]
fn first_frame_is_due_at_once() {
    let mut clock = FrameClock::new(1_000, 10);
    assert_eq!(clock.tick(1_000), Some(Tick { time: 1_000, elapsed: 0, delta: 0 }));
    assert_eq!(clock.next_frame, 1_010);
}

#[test]
fn early_reading_gives_no_frame() {
    let mut clock = FrameClock::new(0, 10);
    clock.resume(5);
    assert_eq!(clock.next_frame, 15);
    assert_eq!(clock.tick(14), None);
    assert_eq!(clock.tick(17), Some(Tick { time: 17, elapsed: 17, delta: 17 }));
    assert_eq!(clock.tick(20), None);
    assert_eq!(clock.tick(30), Some(Tick { time: 30, elapsed: 30, delta: 13 }));
    assert_eq!(clock.next_frame, 40);
}

#[test]
fn next_frame_saturates() {
    let mut clock = FrameClock::new(0, u64::MAX);
    assert!(clock.tick(5).is_some());
    assert_eq!(clock.next_frame, u64::MAX);
}

use minestar::client::FPSCounter;

const SECOND: u128 = 1_000_000_000;

#[test]
fn first_tick_counts_one_frame() {
    let mut counter = FPSCounter::new();
    assert_eq!(counter.tick_at(0), 1);
}

#[test]
fn default_counter_starts_empty() {
    let mut counter = FPSCounter::default();
    assert_eq!(counter.tick_at(5 * SECOND), 1);
}

#[test]
fn frames_within_a_second_accumulate() {
    let mut counter = FPSCounter::new();
    assert_eq!(counter.tick_at(0), 1);
    assert_eq!(counter.tick_at(SECOND / 4), 2);
    assert_eq!(counter.tick_at(SECOND / 2), 3);
    assert_eq!(counter.tick_at(3 * SECOND / 4), 4);
}

#[test]
fn frames_older_than_a_second_are_dropped() {
    let mut counter = FPSCounter::new();
    counter.tick_at(0);
    counter.tick_at(SECOND / 2);
    counter.tick_at(SECOND);
    // at 1.4 s, the frame at 0 is more than a second old; those at 0.5 s and 1 s are not
    assert_eq!(counter.tick_at(SECOND + 2 * SECOND / 5), 3);
    // at 1.6 s, the frame at 0.5 s is more than a second old too
    assert_eq!(counter.tick_at(SECOND + 3 * SECOND / 5), 3);
    // at 3 s, every earlier frame is stale
    assert_eq!(counter.tick_at(3 * SECOND), 1);
}

#[test]
fn frame_exactly_one_second_old_is_kept() {
    let mut counter = FPSCounter::new();
    counter.tick_at(2 * SECOND);
    assert_eq!(counter.tick_at(3 * SECOND), 2);
    assert_eq!(counter.tick_at(3 * SECOND + 1), 2);
}

#[test]
fn count_is_frames_in_last_second_for_steady_rate() {
    // sixty frames a second for three seconds
    let mut counter = FPSCounter::new();
    let step = SECOND / 60;
    let mut last = 0;
    for frame in 0..180u128 {
        last = counter.tick_at(frame * step);
    }
    // the frames at 119 * step ..= 179 * step lie within a second of the last one
    assert_eq!(last, 61);
}

#[test]
fn dropping_stops_at_first_fresh_frame() {
    // out of order frames: only the stale prefix goes
    let mut counter = FPSCounter::new();
    counter.tick_at(5 * SECOND);
    counter.tick_at(0);
    assert_eq!(counter.tick_at(5 * SECOND + SECOND / 2), 3);
}

#[test]
fn tick_reads_the_clock() {
    let mut counter = FPSCounter::new();
    assert_eq!(counter.tick(), 1);
    // the next frame follows well within a second
    assert_eq!(counter.tick(), 2);
}

#[test]
fn tick_never_goes_back_past_recorded_frames() {
    let mut counter = FPSCounter::new();
    counter.tick_at(10 * SECOND);
    // the clock reads far less than 10 s, so the frame is taken at the last frame's time
    assert_eq!(counter.tick(), 2);
    assert_eq!(counter.tick_at(10 * SECOND + SECOND / 2), 3);
}

use hexatune_dsp::event_scheduler::{EventScheduler, EventTiming, Xorshift64, MAX_EVENT_SLOTS};

/// The scheduler's ms-to-samples conversion at 48 kHz.
fn ms_to_samples(ms: u64) -> u64 {
    (ms as f32 * 48000.0 / 1000.0) as u64
}

/// A draw in `[0, 1)` built from a raw generator output.
fn unit(raw: u64) -> f32 {
    (raw >> 40) as f32 / (1u64 << 24) as f32
}

#[test]
fn xorshift64_produces_different_values() {
    let mut rng = Xorshift64::new(42);
    let a = rng.next_u64();
    let b = rng.next_u64();
    let c = rng.next_u64();
    assert_ne!(a, b);
    assert_ne!(b, c);
}

#[test]
fn xorshift64_f32_in_range() {
    let mut rng = Xorshift64::new(123);
    for _ in 0..1000 {
        let v = unit(rng.next_u64());
        assert!((0.0..1.0).contains(&v), "out of range: {v}");
    }
}

#[test]
fn xorshift64_range_u64_respects_bounds() {
    let mut rng = Xorshift64::new(7);
    for _ in 0..1000 {
        let v = rng.range_u64(10, 20);
        assert!((10..=20).contains(&v), "out of range: {v}");
    }
}

#[test]
fn xorshift64_range_f32_respects_bounds() {
    let mut rng = Xorshift64::new(99);
    for _ in 0..1000 {
        let (min, max) = (-0.5f32, 0.5f32);
        let v = min + unit(rng.next_u64()) * (max - min);
        assert!((-0.5..=0.5).contains(&v), "out of range: {v}");
    }
}

#[test]
fn zero_seed_becomes_one() {
    let mut rng = Xorshift64::new(0);
    let v = rng.next_u64();
    assert_ne!(v, 0);
}

#[test]
fn xorshift64_first_output_of_seed_one() {
    // 1 ^ (1 << 13) = 0x2001; ^ (>> 7) = 0x2041; ^ (<< 17) = 0x4082_2041.
    let mut rng = Xorshift64::new(1);
    assert_eq!(rng.next_u64(), 0x4082_2041);
    let mut zero = Xorshift64::new(0);
    assert_eq!(zero.next_u64(), 0x4082_2041);
}

#[test]
fn xorshift64_range_u64_degenerate_range_returns_min() {
    let mut a = Xorshift64::new(5);
    let mut b = Xorshift64::new(5);
    assert_eq!(a.range_u64(9, 9), 9);
    assert_eq!(a.range_u64(12, 3), 12);
    // The degenerate draws did not move the generator.
    assert_eq!(a.next_u64(), b.next_u64());
}

#[test]
fn xorshift64_range_u64_formula() {
    let mut a = Xorshift64::new(77);
    let mut b = Xorshift64::new(77);
    let raw = b.next_u64();
    assert_eq!(a.range_u64(100, 110), 100 + raw % 11);
}

#[test]
fn scheduler_disabled_returns_none() {
    let mut sched = EventScheduler::new(42);
    sched.set_slot_count(2);
    assert!(sched.advance().is_none());
}

#[test]
fn scheduler_triggers_at_zero_countdown() {
    let mut sched = EventScheduler::new(42);
    sched.set_slot_count(2);
    sched.set_enabled(true);
    let result = sched.advance();
    assert_eq!(result, Some(0));
}

#[test]
fn scheduler_counts_down() {
    let mut sched = EventScheduler::new(42);
    sched.set_slot_count(1);
    sched.set_enabled(true);

    let initial = sched.advance();
    assert_eq!(initial, Some(0));

    // Schedule 1 ms from now = 48 samples.
    let ms = sched.draw_interval_ms(1, 1);
    assert_eq!(ms, 1);
    sched.arm(ms_to_samples(ms));

    for _ in 0..47 {
        assert!(sched.advance().is_none());
    }
    let result = sched.advance();
    assert_eq!(result, Some(0));
}

#[test]
fn scheduler_round_robins_slots() {
    let mut sched = EventScheduler::new(42);
    sched.set_slot_count(3);
    sched.set_enabled(true);

    let a = sched.advance().unwrap();
    assert_eq!(a, 0);

    sched.arm(0);
    let b = sched.advance().unwrap();
    assert_eq!(b, 1);

    sched.arm(0);
    let c = sched.advance().unwrap();
    assert_eq!(c, 2);

    sched.arm(0);
    let d = sched.advance().unwrap();
    assert_eq!(d, 0);
}

#[test]
fn scheduler_stays_quiet_after_trigger_until_armed() {
    let mut sched = EventScheduler::new(3);
    sched.set_slot_count(1);
    sched.set_enabled(true);
    assert_eq!(sched.advance(), Some(0));
    for _ in 0..1000 {
        assert!(sched.advance().is_none());
    }
}

#[test]
fn zero_slot_count_disables() {
    let mut sched = EventScheduler::new(3);
    sched.set_enabled(true);
    sched.set_slot_count(0);
    assert!(!sched.is_enabled());
    assert!(sched.advance().is_none());
}

#[test]
fn schedule_from_timing_stays_in_range() {
    let timing = EventTiming { min_interval_ms: 40, max_interval_ms: 120 };
    let mut sched = EventScheduler::new(11);
    for _ in 0..200 {
        let ms = sched.draw_interval_ms(timing.min_interval_ms, timing.max_interval_ms);
        assert!((40..=120).contains(&ms));
    }
    assert_eq!(MAX_EVENT_SLOTS, 5);
}

#[test]
fn xorshift64_range_u64_full_range_is_raw_draw() {
    let mut a = Xorshift64::new(31);
    let mut b = Xorshift64::new(31);
    assert_eq!(a.range_u64(0, u64::MAX), b.next_u64());
}

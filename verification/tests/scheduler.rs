use hexatune_dsp::scheduler::{AdvanceResult, CycleItem, Scheduler, ToneAction};

const SAMPLE_RATE: f32 = 48000.0;

fn frames(dur: f32) -> u64 {
    (dur * SAMPLE_RATE) as u64
}

fn item(delta: f32, dur: f32) -> CycleItem<f32> {
    CycleItem { frequency_delta: delta, duration_frames: frames(dur), oneshot: false }
}

fn oneshot_item(delta: f32, dur: f32) -> CycleItem<f32> {
    CycleItem { frequency_delta: delta, duration_frames: frames(dur), oneshot: true }
}

fn delta(sched: &Scheduler<f32>) -> f32 {
    sched.current_delta().unwrap_or(0.0)
}

fn advance_until_change(sched: &mut Scheduler<f32>, max: usize) -> (AdvanceResult, usize) {
    for i in 1..=max {
        let r = sched.advance();
        if r != AdvanceResult::NoChange {
            return (r, i);
        }
    }
    (AdvanceResult::NoChange, max)
}

#[test]
fn cycles_through_items() {
    let items = vec![item(3.0, 0.001), item(5.0, 0.001)];
    let mut sched = Scheduler::new(items);

    assert_eq!(delta(&sched), 3.0);
    assert_eq!(sched.current_index(), 0);

    for _ in 0..48 {
        sched.advance();
    }

    assert_eq!(delta(&sched), 5.0);
    assert_eq!(sched.current_index(), 1);

    for _ in 0..48 {
        sched.advance();
    }

    assert_eq!(delta(&sched), 3.0);
    assert_eq!(sched.current_index(), 0);
}

#[test]
fn empty_schedule_returns_no_change() {
    let mut sched: Scheduler<f32> = Scheduler::new(vec![]);
    assert_eq!(delta(&sched), 0.0);
    assert_eq!(sched.current_delta(), None);
    assert_eq!(sched.advance(), AdvanceResult::NoChange);
}

#[test]
fn single_item_stays_forever() {
    let items = vec![item(7.0, 1.0)];
    let mut sched = Scheduler::new(items);

    for _ in 0..48000 {
        sched.advance();
    }

    assert_eq!(delta(&sched), 7.0);
    assert_eq!(sched.current_index(), 0);
}

#[test]
fn set_items_resets_state() {
    let items = vec![item(3.0, 1.0)];
    let mut sched = Scheduler::new(items);

    for _ in 0..10000 {
        sched.advance();
    }

    sched.set_items(vec![item(10.0, 2.0)]);

    assert_eq!(delta(&sched), 10.0);
    assert_eq!(sched.current_index(), 0);
    assert_eq!(sched.cycle_count(), 0);
}

#[test]
fn oneshot_plays_in_first_iteration() {
    let items = vec![item(3.0, 0.001), oneshot_item(4.0, 0.001), item(5.0, 0.001)];
    let mut sched = Scheduler::new(items);

    let (r, _) = advance_until_change(&mut sched, 100);
    assert_eq!(r, AdvanceResult::ItemChanged);
    assert_eq!(delta(&sched), 4.0);

    let (r, _) = advance_until_change(&mut sched, 100);
    assert_eq!(r, AdvanceResult::ItemChanged);
    assert_eq!(delta(&sched), 5.0);
    assert_eq!(sched.cycle_count(), 0);
}

#[test]
fn oneshot_skipped_in_second_iteration() {
    let items = vec![item(3.0, 0.001), oneshot_item(4.0, 0.001), item(5.0, 0.001)];
    let mut sched = Scheduler::new(items);

    for _ in 0..(48 * 3) {
        sched.advance();
    }
    assert!(sched.cycle_count() >= 1);

    assert_eq!(delta(&sched), 3.0);
    let (r, _) = advance_until_change(&mut sched, 100);
    assert_eq!(r, AdvanceResult::ItemChanged);
    assert_eq!(delta(&sched), 5.0);
}

#[test]
fn all_oneshot_exhausts_after_first_cycle() {
    let items = vec![oneshot_item(3.0, 0.001), oneshot_item(5.0, 0.001)];
    let mut sched = Scheduler::new(items);

    for _ in 0..48 {
        sched.advance();
    }
    assert_eq!(delta(&sched), 5.0);

    let (r, _) = advance_until_change(&mut sched, 100);
    assert_eq!(r, AdvanceResult::AllExhausted);
    assert!(sched.is_exhausted());
}

#[test]
fn graceful_stop_at_cycle_end() {
    let items = vec![item(3.0, 0.001), item(5.0, 0.001)];
    let mut sched = Scheduler::new(items);

    sched.set_stop_at_cycle_end(true);

    let (r, _) = advance_until_change(&mut sched, 100);
    assert_eq!(r, AdvanceResult::ItemChanged);
    assert_eq!(delta(&sched), 5.0);

    let (r, _) = advance_until_change(&mut sched, 100);
    assert_eq!(r, AdvanceResult::CycleCompleteStop);
}

#[test]
fn graceful_stop_with_oneshot() {
    let items = vec![item(3.0, 0.001), oneshot_item(4.0, 0.001), item(5.0, 0.001)];
    let mut sched = Scheduler::new(items);

    sched.set_stop_at_cycle_end(true);

    advance_until_change(&mut sched, 100);
    advance_until_change(&mut sched, 100);
    let (r, _) = advance_until_change(&mut sched, 100);
    assert_eq!(r, AdvanceResult::CycleCompleteStop);
}

#[test]
fn cycle_count_increments() {
    let items = vec![item(3.0, 0.001)];
    let mut sched = Scheduler::new(items);

    assert_eq!(sched.cycle_count(), 0);
    for _ in 0..48 {
        sched.advance();
    }
    assert_eq!(sched.cycle_count(), 1);
    for _ in 0..48 {
        sched.advance();
    }
    assert_eq!(sched.cycle_count(), 2);
}

#[test]
fn reset_clears_all_state() {
    let items = vec![item(3.0, 0.001), item(5.0, 0.001)];
    let mut sched = Scheduler::new(items);

    for _ in 0..48 {
        sched.advance();
    }
    sched.set_stop_at_cycle_end(true);
    sched.reset();

    assert_eq!(sched.cycle_count(), 0);
    assert!(!sched.stop_at_cycle_end());
    assert!(!sched.is_exhausted());
    assert_eq!(delta(&sched), 3.0);
}

#[test]
fn items_change_after_exactly_their_duration() {
    let mut sched = Scheduler::new(vec![item(3.0, 0.001), item(5.0, 0.001)]);
    let (r, n) = advance_until_change(&mut sched, 1000);
    assert_eq!(r, AdvanceResult::ItemChanged);
    assert_eq!(n, 48);
    let (r, n) = advance_until_change(&mut sched, 1000);
    assert_eq!(r, AdvanceResult::ItemChanged);
    assert_eq!(n, 48);
    assert_eq!(sched.cycle_count(), 1);
}

#[test]
fn all_oneshot_exhaustion_counts_two_wraps_and_is_final() {
    let mut sched = Scheduler::new(vec![oneshot_item(3.0, 0.001), oneshot_item(5.0, 0.001)]);
    let (r, _) = advance_until_change(&mut sched, 1000);
    assert_eq!(r, AdvanceResult::ItemChanged);
    let (r, _) = advance_until_change(&mut sched, 1000);
    assert_eq!(r, AdvanceResult::AllExhausted);
    assert_eq!(sched.cycle_count(), 2);
    // Exhaustion is final: the current item and delta stay.
    for _ in 0..500 {
        assert_eq!(sched.advance(), AdvanceResult::NoChange);
    }
    assert_eq!(delta(&sched), 5.0);
    assert_eq!(sched.current_index(), 1);
}

#[test]
fn graceful_stop_clears_request_and_exhausts() {
    let mut sched = Scheduler::new(vec![item(3.0, 0.001)]);
    sched.set_stop_at_cycle_end(true);
    let (r, n) = advance_until_change(&mut sched, 1000);
    assert_eq!(r, AdvanceResult::CycleCompleteStop);
    assert_eq!(n, 48);
    assert!(!sched.stop_at_cycle_end());
    assert!(sched.is_exhausted());
    assert_eq!(sched.cycle_count(), 1);
    assert_eq!(sched.advance(), AdvanceResult::NoChange);
}

#[test]
fn zero_duration_items_change_every_frame() {
    let mut sched = Scheduler::new(vec![item(1.0, 0.0), item(2.0, 0.0)]);
    assert_eq!(sched.advance(), AdvanceResult::ItemChanged);
    assert_eq!(sched.current_index(), 1);
    assert_eq!(sched.advance(), AdvanceResult::ItemChanged);
    assert_eq!(sched.current_index(), 0);
    assert_eq!(sched.cycle_count(), 1);
    assert_eq!(sched.len(), 2);
    assert!(!sched.is_empty());
}

#[test]
fn tone_actions_follow_results() {
    let mut sched = Scheduler::new(vec![item(3.0, 0.0), oneshot_item(4.0, 0.0)]);
    let r = sched.advance();
    assert_eq!(r, AdvanceResult::ItemChanged);
    assert_eq!(sched.tone_action(r), ToneAction::SetDelta(4.0));
    assert_eq!(sched.tone_action(AdvanceResult::NoChange), ToneAction::Keep);
    sched.set_stop_at_cycle_end(true);
    let r = sched.advance();
    assert_eq!(r, AdvanceResult::CycleCompleteStop);
    assert_eq!(sched.tone_action(r), ToneAction::Stop);

    let mut all_oneshot = Scheduler::new(vec![oneshot_item(4.0, 0.0)]);
    let r = all_oneshot.advance();
    assert_eq!(r, AdvanceResult::AllExhausted);
    assert_eq!(all_oneshot.tone_action(r), ToneAction::Silence);
}

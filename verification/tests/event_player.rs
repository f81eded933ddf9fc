use hexatune_dsp::event_player::{EventSystem, Trigger};
use hexatune_dsp::event_scheduler::MAX_EVENT_SLOTS;
use hexatune_dsp::pcm::LayerError;

/// Drives the event core with the floating-point parts the engine adds:
/// interval conversion at the sample rate, volume and pan per playback.
struct Events {
    core: EventSystem<f32>,
    ranges: [((f32, f32), (f32, f32)); MAX_EVENT_SLOTS],
    volume: f32,
    pan: f32,
    sample_rate: f32,
}

fn unit(raw: u64) -> f32 {
    (raw >> 40) as f32 / (1u64 << 24) as f32
}

fn draw(range: (f32, f32), raw: Option<u64>) -> f32 {
    match raw {
        Some(r) => range.0 + unit(r) * (range.1 - range.0),
        None => range.0,
    }
}

impl Events {
    fn new(sample_rate: f32, seed: u64) -> Self {
        Events {
            core: EventSystem::new(seed),
            ranges: [((0.0, 0.0), (0.0, 0.0)); MAX_EVENT_SLOTS],
            volume: 0.0,
            pan: 0.0,
            sample_rate,
        }
    }

    fn arm(&mut self, ms: Option<u64>) {
        if let Some(ms) = ms {
            self.core.arm((ms as f32 * self.sample_rate / 1000.0) as u64);
        }
    }

    #[allow(clippy::too_many_arguments)]
    fn set_event(
        &mut self,
        index: usize,
        samples: &[f32],
        channels: u32,
        min_ms: u32,
        max_ms: u32,
        volume_min: f32,
        volume_max: f32,
        pan_min: f32,
        pan_max: f32,
    ) -> Result<(), LayerError> {
        if index < MAX_EVENT_SLOTS {
            self.ranges[index] = ((volume_min, volume_max), (pan_min, pan_max));
        }
        let ms = self.core.set_event(
            index,
            samples,
            channels,
            min_ms,
            max_ms,
            !(volume_min >= volume_max),
            !(pan_min >= pan_max),
        )?;
        self.arm(ms);
        Ok(())
    }

    fn clear_event(&mut self, index: usize) {
        let ms = self.core.clear_event(index);
        self.arm(ms);
    }

    fn advance(&mut self) -> Option<Trigger> {
        let ms = self.core.finish_playback();
        self.arm(ms);
        let t = self.core.poll_trigger();
        if let Some(t) = t {
            let (vr, pr) = self.ranges[t.slot_index];
            self.volume = draw(vr, t.volume_draw);
            self.pan = draw(pr, t.pan_draw);
        }
        t
    }

    fn next_sample(&mut self) -> (f32, f32) {
        match self.core.next_frame() {
            None => (0.0, 0.0),
            Some((l, r)) => {
                let left_gain = ((1.0 - self.pan) * 0.5).min(1.0);
                let right_gain = ((1.0 + self.pan) * 0.5).min(1.0);
                (l * self.volume * left_gain, r * self.volume * right_gain)
            }
        }
    }
}

fn make_test_event(len: usize) -> Vec<f32> {
    (0..len).map(|i| (i as f32) / (len as f32)).collect()
}

#[test]
fn empty_system_returns_silence() {
    let mut sys = Events::new(48000.0, 42);
    sys.advance();
    let s = sys.next_sample();
    assert_eq!(s.0, 0.0);
    assert_eq!(s.1, 0.0);
}

#[test]
fn set_and_clear_event() {
    let mut sys = Events::new(48000.0, 42);
    let data = make_test_event(100);
    sys.set_event(0, &data, 1, 100, 200, 0.5, 1.0, -0.5, 0.5).unwrap();
    assert_eq!(sys.core.slot_count(), 1);

    sys.clear_event(0);
    assert_eq!(sys.core.slot_count(), 0);
}

#[test]
fn rejects_invalid_index() {
    let mut sys = Events::new(48000.0, 42);
    let data = make_test_event(100);
    let result = sys.set_event(5, &data, 1, 100, 200, 0.5, 1.0, 0.0, 0.0);
    assert!(result.is_err());
    assert_eq!(result, Err(LayerError::IndexOutOfRange { index: 5, max: 5 }));
}

#[test]
fn event_plays_and_finishes() {
    let mut sys = Events::new(48000.0, 42);
    let data = vec![0.5; 10];
    sys.set_event(0, &data, 1, 0, 0, 1.0, 1.0, 0.0, 0.0).unwrap();

    let mut triggered = false;
    for _ in 0..100 {
        sys.advance();
        if sys.core.is_playing() {
            triggered = true;
            break;
        }
    }
    assert!(triggered, "event should have triggered");

    let mut non_silent = 0;
    for _ in 0..10 {
        let s = sys.next_sample();
        if s.0.abs() > 1e-10 || s.1.abs() > 1e-10 {
            non_silent += 1;
        }
    }
    assert!(non_silent > 0, "event should produce audio");
}

#[test]
fn max_one_concurrent_event() {
    let mut sys = Events::new(48000.0, 42);
    let data = vec![0.5; 1000];
    sys.set_event(0, &data, 1, 0, 0, 1.0, 1.0, 0.0, 0.0).unwrap();
    sys.set_event(1, &data, 1, 0, 0, 1.0, 1.0, 0.0, 0.0).unwrap();

    sys.advance();
    assert!(sys.core.is_playing());

    for _ in 0..50 {
        assert!(sys.advance().is_none());
    }
    assert!(sys.core.is_playing());
}

#[test]
fn clear_all_stops_playback() {
    let mut sys = Events::new(48000.0, 42);
    let data = vec![0.5; 1000];
    sys.set_event(0, &data, 1, 0, 0, 1.0, 1.0, 0.0, 0.0).unwrap();
    sys.advance();
    assert!(sys.core.is_playing());

    sys.core.clear_all();
    assert!(!sys.core.is_playing());
    assert_eq!(sys.core.slot_count(), 0);
}

#[test]
fn pan_affects_stereo_output() {
    let mut sys = Events::new(48000.0, 42);
    let data = vec![1.0; 100];
    sys.set_event(0, &data, 1, 0, 0, 1.0, 1.0, -1.0, -1.0).unwrap();

    sys.advance();
    let s = sys.next_sample();
    assert!(s.0 > s.1, "left should be louder with left pan");
}

#[test]
fn stereo_event_loads_correctly() {
    let mut sys = Events::new(48000.0, 42);
    let data = vec![0.3, 0.7, 0.3, 0.7];
    sys.set_event(0, &data, 2, 0, 0, 1.0, 1.0, 0.0, 0.0).unwrap();

    sys.advance();
    let s = sys.next_sample();
    assert!((s.0 - 0.15).abs() < 1e-5, "got {}", s.0);
    assert!((s.1 - 0.35).abs() < 1e-5, "got {}", s.1);
}

#[test]
fn set_event_errors() {
    let mut core: EventSystem<f32> = EventSystem::new(1);
    assert_eq!(core.set_event(0, &[], 1, 0, 0, false, false), Err(LayerError::EmptyData));
    assert_eq!(
        core.set_event(0, &[1.0], 3, 0, 0, false, false),
        Err(LayerError::UnsupportedChannels(3))
    );
    assert_eq!(core.slot_count(), 0);
}

#[test]
fn interval_drawn_from_aggregated_bounds() {
    let mut core: EventSystem<f32> = EventSystem::new(9);
    let first = core.set_event(0, &[1.0], 1, 100, 200, false, false).unwrap().unwrap();
    assert!((100..=200).contains(&first));
    let second = core.set_event(3, &[1.0], 1, 50, 120, false, false).unwrap().unwrap();
    assert!((50..=200).contains(&second));
    // Clearing every slot draws nothing.
    assert!(core.clear_event(0).is_some());
    assert!(core.clear_event(3).is_none());
    assert_eq!(core.slot_count(), 0);
}

#[test]
fn event_draws_are_reported_in_order() {
    let mut core: EventSystem<f32> = EventSystem::new(42);
    core.set_event(0, &[0.5, 0.5], 1, 0, 0, true, true).unwrap();
    let t = core.poll_trigger().unwrap();
    assert_eq!(t.slot_index, 0);
    let (v, p) = (t.volume_draw.unwrap(), t.pan_draw.unwrap());
    assert_ne!(v, p);
    assert!(core.is_playing());
    assert_eq!(core.next_frame(), Some((0.5, 0.5)));
    assert_eq!(core.next_frame(), Some((0.5, 0.5)));
    assert_eq!(core.next_frame(), None);
    // The finished playback ends and the next interval (0 ms) is drawn.
    assert_eq!(core.finish_playback(), Some(0));
    assert!(!core.is_playing());
}

#[test]
fn clearing_playing_slot_stops_it() {
    let mut core: EventSystem<f32> = EventSystem::new(42);
    core.set_event(0, &[0.5; 8], 1, 0, 0, false, false).unwrap();
    core.set_event(1, &[0.5; 8], 1, 0, 0, false, false).unwrap();
    core.poll_trigger().unwrap();
    core.clear_event(1);
    assert!(core.is_playing());
    core.clear_event(0);
    assert!(!core.is_playing());
}

#[test]
fn event_in_slot_three_alone_is_played() {
    let mut sys = Events::new(48000.0, 42);
    sys.set_event(3, &vec![0.5f32; 10], 1, 0, 0, 1.0, 1.0, 0.0, 0.0).unwrap();
    let mut played = false;
    for _ in 0..100 {
        if let Some(t) = sys.advance() {
            assert_eq!(t.slot_index, 3);
        }
        if sys.core.is_playing() {
            played = true;
            break;
        }
    }
    assert!(played);
}

#[test]
fn round_robin_over_registered_slots() {
    let mut core: EventSystem<f32> = EventSystem::new(7);
    core.set_event(1, &[0.5], 1, 0, 0, false, false).unwrap();
    core.set_event(3, &[0.5], 1, 0, 0, false, false).unwrap();
    let mut order = Vec::new();
    for _ in 0..4 {
        core.arm(0);
        let t = core.poll_trigger().unwrap();
        order.push(t.slot_index);
        assert_eq!(core.next_frame(), Some((0.5, 0.5)));
        core.finish_playback();
    }
    assert_eq!(order, vec![1, 3, 1, 3]);
}

#[test]
fn replacing_playing_slot_with_shorter_event_ends_at_its_end() {
    let mut core: EventSystem<f32> = EventSystem::new(42);
    core.set_event(0, &[0.1, 0.2, 0.3], 1, 0, 0, false, false).unwrap();
    core.poll_trigger().unwrap();
    core.set_event(0, &[0.9], 1, 0, 0, false, false).unwrap();
    assert!(core.is_playing());
    assert_eq!(core.next_frame(), Some((0.9, 0.9)));
    assert_eq!(core.next_frame(), None);
    assert_eq!(core.next_frame(), None);
    assert_eq!(core.finish_playback(), Some(0));
    assert!(!core.is_playing());
}

#[test]
fn replacing_playing_slot_past_its_new_end_finishes() {
    let mut core: EventSystem<f32> = EventSystem::new(42);
    core.set_event(0, &[0.5; 1000], 1, 0, 0, false, false).unwrap();
    core.poll_trigger().unwrap();
    for _ in 0..20 {
        core.next_frame();
    }
    core.set_event(0, &[0.5; 10], 1, 0, 0, false, false).unwrap();
    assert_eq!(core.next_frame(), None);
    core.finish_playback();
    assert!(!core.is_playing());
}

#[test]
fn replacing_playing_slot_with_longer_event_keeps_length() {
    let mut core: EventSystem<f32> = EventSystem::new(42);
    core.set_event(0, &[0.1, 0.2], 1, 0, 0, false, false).unwrap();
    core.poll_trigger().unwrap();
    core.set_event(0, &[0.7, 0.8, 0.9], 1, 0, 0, false, false).unwrap();
    assert_eq!(core.next_frame(), Some((0.7, 0.7)));
    assert_eq!(core.next_frame(), Some((0.8, 0.8)));
    assert_eq!(core.next_frame(), None);
}

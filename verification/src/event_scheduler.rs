//! Xorshift64 generator and the sample-counted random-event countdown.

use vstd::prelude::*;
use vstd::arithmetic::div_mod::{lemma_add_mod_noop, lemma_mod_pos_bound, lemma_small_mod};

verus! {

/// Maximum number of event slots.
pub const MAX_EVENT_SLOTS: usize = 5;

/// One Xorshift64 step: `x ^= x << 13; x ^= x >> 7; x ^= x << 17`.
pub open spec fn xorshift_step(x: u64) -> u64 {
    let a = x ^ (x << 13u64);
    let b = a ^ (a >> 7u64);
    b ^ (b << 17u64)
}

/// The state a generator starts from for a seed: a zero seed becomes one.
pub open spec fn seed_state(seed: u64) -> u64 {
    if seed == 0 { 1 } else { seed }
}

/// The draw of `range_u64` from a raw generator output: `min` plus the raw
/// value modulo the number of values in `[min, max]` (for the full `u64`
/// range, the raw value itself).
pub open spec fn range_value(min: u64, max: u64, raw: u64) -> u64 {
    (min + (raw as int) % (max - min + 1)) as u64
}

/// A Xorshift step maps a nonzero state to a nonzero state.
pub proof fn lemma_step_nonzero(x: u64)
    requires
        x != 0,
    ensures
        xorshift_step(x) != 0,
{
    assert(x != 0 ==> ((x ^ (x << 13u64)) ^ ((x ^ (x << 13u64)) >> 7u64)) ^ (((x ^ (x
        << 13u64)) ^ ((x ^ (x << 13u64)) >> 7u64)) << 17u64) != 0) by (bit_vector);
}

/// A draw of `range_u64` lies in `[min, max]`.
pub proof fn lemma_range_value_bounds(min: u64, max: u64, raw: u64)
    requires
        min < max,
    ensures
        min <= range_value(min, max, raw) <= max,
{
    lemma_mod_pos_bound(raw as int, (max - min + 1) as int);
}

/// Xorshift64 pseudo-random number generator.
pub struct Xorshift64 {
    state: u64,
}

impl Xorshift64 {
    /// The generator's current state.
    pub closed spec fn state(&self) -> u64 {
        self.state
    }

    /// The state is never zero.
    #[verifier::type_invariant]
    closed spec fn state_nonzero(&self) -> bool {
        self.state != 0
    }

    /// Create a new generator; a zero seed is replaced by one.
    pub fn new(seed: u64) -> (r: Self)
        ensures
            r.state() == seed_state(seed),
            r.state() != 0,
    {
        Xorshift64 { state: if seed == 0 { 1 } else { seed } }
    }

    /// Generate the next pseudo-random `u64`; it is also the new state.
    pub fn next_u64(&mut self) -> (r: u64)
        ensures
            r == xorshift_step(old(self).state()),
            final(self).state() == r,
            r != 0,
    {
        proof {
            use_type_invariant(&*self);
            lemma_step_nonzero(self.state);
        }
        let mut x = self.state;
        x = x ^ (x << 13u64);
        x = x ^ (x >> 7u64);
        x = x ^ (x << 17u64);
        self.state = x;
        x
    }

    /// Generate a value in `[min, max]` (inclusive). When `min >= max` the
    /// result is `min` and the generator does not move; for the full range
    /// `[0, u64::MAX]` the result is the raw draw.
    pub fn range_u64(&mut self, min: u64, max: u64) -> (r: u64)
        ensures
            min >= max ==> r == min && final(self).state() == old(self).state(),
            min < max ==> final(self).state() == xorshift_step(old(self).state()) && r
                == range_value(min, max, final(self).state()),
            min <= max ==> min <= r <= max,
    {
        if min >= max {
            return min;
        }
        let raw = self.next_u64();
        proof {
            lemma_range_value_bounds(min, max, raw);
        }
        if max - min == u64::MAX {
            proof {
                lemma_small_mod(raw as nat, (max - min + 1) as nat);
            }
            return raw;
        }
        let range = max - min + 1;
        let off = raw % range;
        min + off
    }
}

/// Scheduling parameters for a single event slot.
#[derive(Debug, Clone, Copy)]
pub struct EventTiming {
    /// Minimum interval between triggers in milliseconds.
    pub min_interval_ms: u32,
    /// Maximum interval between triggers in milliseconds.
    pub max_interval_ms: u32,
}

/// Abstract state of an [`EventScheduler`].
pub struct EventSchedulerModel {
    /// State of the scheduler's generator.
    pub rng_state: u64,
    /// Samples remaining until the next trigger.
    pub samples_until_next: u64,
    /// Whether the scheduler is actively scheduling events.
    pub enabled: bool,
    /// Round-robin position of the next slot to play.
    pub next_slot: usize,
    /// Number of slots currently registered.
    pub slot_count: usize,
}

/// Drawing an interval in `[min_ms, max_ms]`: the new state and the interval.
/// When `min_ms >= max_ms` the interval is `min_ms` and the generator does not
/// move.
pub open spec fn draw_model(m: EventSchedulerModel, min_ms: u32, max_ms: u32) -> (
    EventSchedulerModel,
    u64,
) {
    if min_ms >= max_ms {
        (m, min_ms as u64)
    } else {
        let state = xorshift_step(m.rng_state);
        (
            EventSchedulerModel { rng_state: state, ..m },
            range_value(min_ms as u64, max_ms as u64, state),
        )
    }
}

/// A new scheduler: disabled, no slots, the countdown at zero.
pub open spec fn initial_scheduler(seed: u64) -> EventSchedulerModel {
    EventSchedulerModel {
        rng_state: seed_state(seed),
        samples_until_next: 0,
        enabled: false,
        next_slot: 0,
        slot_count: 0,
    }
}

/// An interval drawn from `[min_ms, max_ms]` lies in it.
pub proof fn lemma_draw_within_bounds(m: EventSchedulerModel, min_ms: u32, max_ms: u32)
    requires
        min_ms <= max_ms,
    ensures
        min_ms <= draw_model(m, min_ms, max_ms).1 <= max_ms,
{
    if min_ms < max_ms {
        lemma_range_value_bounds(min_ms as u64, max_ms as u64, xorshift_step(m.rng_state));
    }
}

/// One frame of the countdown: the new state and the slot that triggers.
pub open spec fn advance_model(m: EventSchedulerModel) -> (EventSchedulerModel, Option<usize>) {
    if !m.enabled || m.slot_count == 0 {
        (m, None)
    } else {
        let left: u64 = if m.samples_until_next > 0 {
            (m.samples_until_next - 1) as u64
        } else {
            0
        };
        if left == 0 {
            (
                EventSchedulerModel {
                    samples_until_next: u64::MAX,
                    next_slot: ((m.next_slot + 1) % (m.slot_count as int)) as usize,
                    ..m
                },
                Some((m.next_slot % m.slot_count) as usize),
            )
        } else {
            (EventSchedulerModel { samples_until_next: left, ..m }, None)
        }
    }
}

/// The state after `k` frames.
pub open spec fn advance_times(m: EventSchedulerModel, k: nat) -> EventSchedulerModel
    decreases k,
{
    if k == 0 {
        m
    } else {
        advance_model(advance_times(m, (k - 1) as nat)).0
    }
}

/// What the frame after `k` frames reports.
pub open spec fn result_after(m: EventSchedulerModel, k: nat) -> Option<usize> {
    advance_model(advance_times(m, k)).1
}

/// Sample-based event scheduler: counts down samples until the next trigger,
/// then picks the next slot round-robin among the registered ones.
pub struct EventScheduler {
    rng: Xorshift64,
    samples_until_next: u64,
    enabled: bool,
    next_slot: usize,
    slot_count: usize,
}

impl View for EventScheduler {
    type V = EventSchedulerModel;

    closed spec fn view(&self) -> EventSchedulerModel {
        EventSchedulerModel {
            rng_state: self.rng.state(),
            samples_until_next: self.samples_until_next,
            enabled: self.enabled,
            next_slot: self.next_slot,
            slot_count: self.slot_count,
        }
    }
}

impl EventScheduler {
    /// Create a disabled scheduler with no slots whose countdown is at zero.
    pub fn new(seed: u64) -> (r: Self)
        ensures
            r@ == initial_scheduler(seed),
    {
        EventScheduler {
            rng: Xorshift64::new(seed),
            samples_until_next: 0,
            enabled: false,
            next_slot: 0,
            slot_count: 0,
        }
    }

    /// Enable or disable the scheduler.
    pub fn set_enabled(&mut self, enabled: bool)
        ensures
            final(self)@ == (EventSchedulerModel { enabled, ..old(self)@ }),
    {
        self.enabled = enabled;
    }

    /// Update the number of available event slots; zero slots disables the
    /// scheduler.
    pub fn set_slot_count(&mut self, count: usize)
        ensures
            final(self)@ == (EventSchedulerModel {
                slot_count: count,
                enabled: if count == 0 { false } else { old(self)@.enabled },
                ..old(self)@
            }),
    {
        self.slot_count = count;
        if count == 0 {
            self.enabled = false;
        }
    }

    /// Draw the interval to the next trigger, in milliseconds, uniformly
    /// (modulo the generator) in `[min_ms, max_ms]`. The caller converts it to
    /// a sample count at its sample rate and arms the countdown with [`Self::arm`].
    pub fn draw_interval_ms(&mut self, min_ms: u32, max_ms: u32) -> (r: u64)
        ensures
            (final(self)@, r) == draw_model(old(self)@, min_ms, max_ms),
            min_ms <= max_ms ==> min_ms <= r <= max_ms,
            min_ms > max_ms ==> r == min_ms,
    {
        self.rng.range_u64(min_ms as u64, max_ms as u64)
    }

    /// Arm the countdown: the next trigger comes `samples` frames from now.
    pub fn arm(&mut self, samples: u64)
        ensures
            final(self)@ == (EventSchedulerModel { samples_until_next: samples, ..old(self)@ }),
    {
        self.samples_until_next = samples;
    }

    /// Draw a raw value from the scheduler's generator (used to randomize
    /// volume and pan at trigger time).
    pub fn next_random(&mut self) -> (r: u64)
        ensures
            r == xorshift_step(old(self)@.rng_state),
            final(self)@ == (EventSchedulerModel { rng_state: r, ..old(self)@ }),
    {
        self.rng.next_u64()
    }

    /// Advance the scheduler by one sample frame. Returns the slot to trigger,
    /// if any; after a trigger the countdown stays at `u64::MAX` until the
    /// caller arms it again.
    pub fn advance(&mut self) -> (r: Option<usize>)
        ensures
            (final(self)@, r) == advance_model(old(self)@),
            r matches Some(i) ==> i < old(self)@.slot_count,
    {
        if !self.enabled || self.slot_count == 0 {
            return None;
        }
        if self.samples_until_next > 0 {
            self.samples_until_next = self.samples_until_next - 1;
        }
        if self.samples_until_next == 0 {
            let slot = self.next_slot % self.slot_count;
            proof {
                lemma_add_mod_noop(self.next_slot as int, 1, self.slot_count as int);
                lemma_mod_bound(1, self.slot_count as int);
            }
            self.next_slot = (slot + 1) % self.slot_count;
            self.samples_until_next = u64::MAX;
            return Some(slot);
        }
        None
    }

    /// Whether the scheduler is enabled.
    pub fn is_enabled(&self) -> (r: bool)
        ensures
            r == self@.enabled,
    {
        self.enabled
    }
}

/// Countdown law: once armed with `n >= 1` frames (enabled, with slots), the
/// next `n - 1` frames trigger nothing and the `n`-th frame triggers the
/// round-robin slot.
pub proof fn lemma_countdown(m: EventSchedulerModel, k: nat)
    requires
        m.enabled,
        m.slot_count > 0,
        m.samples_until_next >= 1,
        k < m.samples_until_next,
    ensures
        advance_times(m, k) == (EventSchedulerModel {
            samples_until_next: (m.samples_until_next - k) as u64,
            ..m
        }),
        k + 1 < m.samples_until_next ==> result_after(m, k) is None,
        k + 1 == m.samples_until_next ==> result_after(m, k) == Some(
            (m.next_slot % m.slot_count) as usize,
        ),
    decreases k,
{
    if k > 0 {
        lemma_countdown(m, (k - 1) as nat);
    }
}

/// `1 % m` is `1`, or `0` when `m == 1`.
proof fn lemma_mod_bound(x: int, m: int) by (nonlinear_arith)
    requires
        m > 0,
        x == 1,
    ensures
        (x % m) == (if m == 1 { 0int } else { 1int }),
{
}

/// Round robin: after a trigger the countdown waits for re-arming, and once
/// re-armed the next trigger picks the position after the previous one,
/// wrapping after the last registered slot.
pub proof fn lemma_round_robin(m: EventSchedulerModel)
    requires
        m.enabled,
        m.slot_count > 0,
        m.next_slot < m.slot_count,
        m.samples_until_next <= 1,
    ensures
        advance_model(m).1 == Some(m.next_slot),
        advance_model(m).0.samples_until_next == u64::MAX,
        advance_model(m).0.rng_state == m.rng_state,
        advance_model(EventSchedulerModel { samples_until_next: 0, ..advance_model(m).0 }).1 == Some(
            ((m.next_slot + 1) % (m.slot_count as int)) as usize,
        ),
        advance_model(m).0.next_slot < m.slot_count,
{
    vstd::arithmetic::div_mod::lemma_small_mod(m.next_slot as nat, m.slot_count as nat);
    let n = ((m.next_slot + 1) % (m.slot_count as int));
    vstd::arithmetic::div_mod::lemma_mod_pos_bound(m.next_slot + 1, m.slot_count as int);
    vstd::arithmetic::div_mod::lemma_small_mod(n as nat, m.slot_count as nat);
}

} // verus!

//! Random one-shot event slots.
//!
//! Up to [`MAX_EVENT_SLOTS`] event definitions are registered; at most one
//! event plays at a time. The [`EventScheduler`] decides when an event
//! triggers and which slot plays. Volume and pan are randomized per playback
//! by the caller from the raw generator draws reported at trigger time, and
//! the caller converts drawn intervals (milliseconds) to sample counts and
//! arms the countdown with them.

use vstd::prelude::*;
use crate::event_scheduler::{
    EventScheduler, EventSchedulerModel, EventTiming, MAX_EVENT_SLOTS, advance_model, draw_model,
    xorshift_step, initial_scheduler, lemma_draw_within_bounds,
};
use crate::pcm::{LayerError, split_channels, split_pcm, carries_channels, lemma_split_channels};

verus! {

/// A registered event definition.
pub struct EventSlot<S> {
    pub buffer_left: Vec<S>,
    pub buffer_right: Vec<S>,
    pub timing: EventTiming,
    /// A volume is drawn from the generator at trigger time (the volume range
    /// is not a single value).
    pub draws_volume: bool,
    /// A pan is drawn from the generator at trigger time (the pan range is not
    /// a single value).
    pub draws_pan: bool,
}

/// Active playback state.
struct EventPlayback {
    slot_index: usize,
    position: usize,
    length: usize,
}

/// What a trigger reports: the slot that started playing and the raw
/// generator draws for its volume and pan, in that order.
#[derive(Debug, Clone, Copy, PartialEq, Eq)]
pub struct Trigger {
    pub slot_index: usize,
    pub volume_draw: Option<u64>,
    pub pan_draw: Option<u64>,
}

/// Abstract registered slot.
pub struct SlotModel<S> {
    pub left: Seq<S>,
    pub right: Seq<S>,
    pub timing: EventTiming,
    pub draws_volume: bool,
    pub draws_pan: bool,
}

/// Abstract playback.
pub struct PlaybackModel {
    pub slot_index: nat,
    pub position: nat,
    pub length: nat,
}

/// Abstract state of an [`EventSystem`].
pub struct EventSystemModel<S> {
    pub slots: Seq<Option<SlotModel<S>>>,
    pub active: Option<PlaybackModel>,
    pub scheduler: EventSchedulerModel,
}

/// The index of the `k`-th registered slot (counting from zero) at or after
/// index `i`; the slot count when there is none.
pub open spec fn registered_at<S>(slots: Seq<Option<SlotModel<S>>>, k: int, i: int) -> int
    decreases slots.len() - i,
{
    if i >= slots.len() {
        slots.len() as int
    } else if slots[i] is Some {
        if k <= 0 {
            i
        } else {
            registered_at(slots, k - 1, i + 1)
        }
    } else {
        registered_at(slots, k, i + 1)
    }
}

/// Number of registered slots among the first `n`.
pub open spec fn registered<S>(slots: Seq<Option<SlotModel<S>>>, n: int) -> nat
    decreases n,
{
    if n <= 0 {
        0
    } else {
        registered(slots, n - 1) + if slots[n - 1] is Some {
            1nat
        } else {
            0nat
        }
    }
}

/// The smallest minimum and largest maximum interval over the registered
/// slots among the first `n`; none when no slot is registered.
pub open spec fn interval_bounds<S>(slots: Seq<Option<SlotModel<S>>>, n: int) -> Option<(u32, u32)>
    decreases n,
{
    if n <= 0 {
        None
    } else {
        let prev = interval_bounds(slots, n - 1);
        match slots[n - 1] {
            None => prev,
            Some(s) => match prev {
                None => Some((s.timing.min_interval_ms, s.timing.max_interval_ms)),
                Some((lo, hi)) => Some(
                    (
                        if s.timing.min_interval_ms < lo {
                            s.timing.min_interval_ms
                        } else {
                            lo
                        },
                        if s.timing.max_interval_ms > hi {
                            s.timing.max_interval_ms
                        } else {
                            hi
                        },
                    ),
                ),
            },
        }
    }
}

/// The slot for registered PCM data.
pub open spec fn slot_from<S>(
    left: Seq<S>,
    right: Seq<S>,
    min_interval_ms: u32,
    max_interval_ms: u32,
    draws_volume: bool,
    draws_pan: bool,
) -> SlotModel<S> {
    SlotModel {
        left,
        right,
        timing: EventTiming { min_interval_ms, max_interval_ms },
        draws_volume,
        draws_pan,
    }
}

impl<S> EventSystemModel<S> {
    /// Number of registered slots.
    pub open spec fn slot_count(self) -> nat {
        registered(self.slots, self.slots.len() as int)
    }

    /// Every slot index is valid, registered slots have equal-length
    /// channels, a playback plays a registered slot within its buffer, and the
    /// scheduler knows how many slots are
    /// registered.
    pub open spec fn wf(self) -> bool {
        &&& self.slots_wf()
        &&& self.scheduler.slot_count == self.slot_count()
    }

    /// The slot and playback part of [`Self::wf`].
    pub open spec fn slots_wf(self) -> bool {
        &&& self.slots.len() == MAX_EVENT_SLOTS
        &&& forall|i: int|
            0 <= i < self.slots.len() && (#[trigger] self.slots[i]) is Some ==> {
                let s = self.slots[i]->0;
                &&& s.left.len() == s.right.len()
                &&& s.left.len() <= usize::MAX
            }
        &&& self.active matches Some(a) ==> {
            &&& a.slot_index < MAX_EVENT_SLOTS
            &&& self.slots[a.slot_index as int] is Some
            &&& a.length <= self.slots[a.slot_index as int]->0.left.len()
        }
    }

    /// Draw the next interval from the aggregated bounds of the registered
    /// slots, when there are some and they form a range.
    pub open spec fn reschedule(self) -> (EventSystemModel<S>, Option<u64>) {
        match interval_bounds(self.slots, self.slots.len() as int) {
            Some((lo, hi)) => if hi >= lo {
                let (sch, ms) = draw_model(self.scheduler, lo, hi);
                (EventSystemModel { scheduler: sch, ..self }, Some(ms))
            } else {
                (self, None)
            },
            None => (self, None),
        }
    }

    /// Bring the scheduler in line with the registered slots: it knows their
    /// number, is enabled exactly when there is one, and then draws the next
    /// interval.
    pub open spec fn refresh(self) -> (EventSystemModel<S>, Option<u64>) {
        let count = self.slot_count();
        let m = EventSystemModel {
            scheduler: EventSchedulerModel {
                slot_count: count as usize,
                enabled: count > 0,
                ..self.scheduler
            },
            ..self
        };
        if count > 0 {
            m.reschedule()
        } else {
            (m, None)
        }
    }

    /// Registering an event: the new state and the interval to arm, or the
    /// reason it was refused. A playback of the replaced slot goes on with
    /// the new event, ending at its end at the latest.
    pub open spec fn set_event(
        self,
        index: usize,
        samples: Seq<S>,
        channels: u32,
        min_interval_ms: u32,
        max_interval_ms: u32,
        draws_volume: bool,
        draws_pan: bool,
    ) -> (EventSystemModel<S>, Result<Option<u64>, LayerError>) {
        if index >= MAX_EVENT_SLOTS {
            (self, Err(LayerError::IndexOutOfRange { index, max: MAX_EVENT_SLOTS }))
        } else if samples.len() == 0 {
            (self, Err(LayerError::EmptyData))
        } else {
            match split_channels(samples, channels as usize) {
                None => (self, Err(LayerError::UnsupportedChannels(channels as usize))),
                Some((left, right)) => {
                    let m = EventSystemModel {
                        active: match self.active {
                            Some(a) => if a.slot_index == index && left.len() < a.length {
                                Some(PlaybackModel { length: left.len(), ..a })
                            } else {
                                Some(a)
                            },
                            None => None,
                        },
                        slots: self.slots.update(
                            index as int,
                            Some(
                                slot_from(
                                    left,
                                    right,
                                    min_interval_ms,
                                    max_interval_ms,
                                    draws_volume,
                                    draws_pan,
                                ),
                            ),
                        ),
                        ..self
                    };
                    let (m2, ms) = m.refresh();
                    (m2, Ok(ms))
                },
            }
        }
    }

    /// Removing the event of a slot; a playback of that slot stops.
    pub open spec fn clear_event(self, index: usize) -> (EventSystemModel<S>, Option<u64>) {
        if index < MAX_EVENT_SLOTS {
            let m = EventSystemModel {
                slots: self.slots.update(index as int, None),
                active: match self.active {
                    Some(a) => if a.slot_index == index {
                        None
                    } else {
                        Some(a)
                    },
                    None => None,
                },
                ..self
            };
            m.refresh()
        } else {
            (self, None)
        }
    }

    /// Removing every event and stopping playback.
    pub open spec fn clear_all(self) -> EventSystemModel<S> {
        EventSystemModel {
            slots: Seq::new(MAX_EVENT_SLOTS as nat, |i: int| None),
            active: None,
            scheduler: EventSchedulerModel { slot_count: 0, enabled: false, ..self.scheduler },
        }
    }

    /// Ending a playback that has reached its length, then drawing the next
    /// interval.
    pub open spec fn finish_playback(self) -> (EventSystemModel<S>, Option<u64>) {
        match self.active {
            Some(a) => if a.position >= a.length {
                EventSystemModel { active: None, ..self }.reschedule()
            } else {
                (self, None)
            },
            None => (self, None),
        }
    }

    /// Starting the playback of slot `i`, drawing its volume and then its pan.
    pub open spec fn trigger(self, i: int) -> (EventSystemModel<S>, Option<Trigger>) {
        match self.slots[i] {
            None => (self, None),
            Some(s) => {
                let st0 = self.scheduler.rng_state;
                let st1 = if s.draws_volume {
                    xorshift_step(st0)
                } else {
                    st0
                };
                let st2 = if s.draws_pan {
                    xorshift_step(st1)
                } else {
                    st1
                };
                (
                    EventSystemModel {
                        active: Some(PlaybackModel { slot_index: i as nat, position: 0, length: s.left.len() }),
                        scheduler: EventSchedulerModel { rng_state: st2, ..self.scheduler },
                        ..self
                    },
                    Some(
                        Trigger {
                            slot_index: i as usize,
                            volume_draw: if s.draws_volume {
                                Some(st1)
                            } else {
                                None
                            },
                            pan_draw: if s.draws_pan {
                                Some(st2)
                            } else {
                                None
                            },
                        },
                    ),
                )
            },
        }
    }

    /// When nothing plays, one frame of the scheduler, and the trigger of the
    /// slot it picks: the round-robin position designates the registered
    /// slots in index order.
    pub open spec fn poll_trigger(self) -> (EventSystemModel<S>, Option<Trigger>) {
        if self.active is Some {
            (self, None)
        } else {
            let (sch, picked) = advance_model(self.scheduler);
            let m = EventSystemModel { scheduler: sch, ..self };
            match picked {
                Some(k) => m.trigger(registered_at(m.slots, k as int, 0)),
                None => (m, None),
            }
        }
    }

    /// The raw frame of the playback, and the playback moved on by one; none
    /// (silence) when nothing plays or the playback is over.
    pub open spec fn next_frame(self) -> (EventSystemModel<S>, Option<(S, S)>) {
        match self.active {
            Some(a) => if a.position < a.length {
                let s = self.slots[a.slot_index as int]->0;
                (
                    EventSystemModel {
                        active: Some(PlaybackModel { position: a.position + 1, ..a }),
                        ..self
                    },
                    Some((s.left[a.position as int], s.right[a.position as int])),
                )
            } else {
                (self, None)
            },
            None => (self, None),
        }
    }
}

/// A new event system: no slot registered, nothing playing.
pub open spec fn initial_events<S>(seed: u64) -> EventSystemModel<S> {
    EventSystemModel {
        slots: Seq::new(MAX_EVENT_SLOTS as nat, |i: int| None::<SlotModel<S>>),
        active: None,
        scheduler: initial_scheduler(seed),
    }
}

/// Event management system: slot definitions, the scheduler and the active
/// playback.
pub struct EventSystem<S> {
    slots: Vec<Option<EventSlot<S>>>,
    active: Option<EventPlayback>,
    scheduler: EventScheduler,
}

impl<S> EventSlot<S> {
    /// The abstract slot.
    pub open spec fn model(&self) -> SlotModel<S> {
        SlotModel {
            left: self.buffer_left@,
            right: self.buffer_right@,
            timing: self.timing,
            draws_volume: self.draws_volume,
            draws_pan: self.draws_pan,
        }
    }
}

/// The abstract slot of an optional slot.
pub open spec fn slot_model<S>(o: Option<EventSlot<S>>) -> Option<SlotModel<S>> {
    match o {
        Some(s) => Some(s.model()),
        None => None,
    }
}

impl<S> View for EventSystem<S> {
    type V = EventSystemModel<S>;

    closed spec fn view(&self) -> EventSystemModel<S> {
        EventSystemModel {
            slots: self.slots@.map_values(|o: Option<EventSlot<S>>| slot_model(o)),
            active: match self.active {
                Some(a) => Some(
                    PlaybackModel {
                        slot_index: a.slot_index as nat,
                        position: a.position as nat,
                        length: a.length as nat,
                    },
                ),
                None => None,
            },
            scheduler: self.scheduler@,
        }
    }
}

/// At most `n` of the first `n` slots are registered.
pub proof fn lemma_registered_bound<S>(slots: Seq<Option<SlotModel<S>>>, n: int)
    ensures
        n >= 0 ==> registered(slots, n) <= n,
    decreases n,
{
    if n > 0 {
        lemma_registered_bound(slots, n - 1);
    }
}

/// With `k` below the number of slots registered from index `i` on, the
/// `k`-th of them exists, is registered, and has `k` registered slots between
/// `i` and itself.
pub proof fn lemma_registered_at<S>(slots: Seq<Option<SlotModel<S>>>, k: int, i: int)
    requires
        0 <= i <= slots.len(),
        0 <= k < registered(slots, slots.len() as int) - registered(slots, i),
    ensures
        i <= registered_at(slots, k, i) < slots.len(),
        slots[registered_at(slots, k, i)] is Some,
        registered(slots, registered_at(slots, k, i)) == registered(slots, i) + k,
    decreases slots.len() - i,
{
    if i < slots.len() {
        assert(registered(slots, i + 1) == registered(slots, i) + if slots[i] is Some {
            1nat
        } else {
            0nat
        });
        if slots[i] is Some {
            if k > 0 {
                lemma_registered_at(slots, k - 1, i + 1);
            }
        } else {
            lemma_registered_at(slots, k, i + 1);
        }
    }
}

/// No slot is registered exactly when none of the first `n` holds an event.
pub proof fn lemma_registered_zero<S>(slots: Seq<Option<SlotModel<S>>>, n: int)
    requires
        0 <= n <= slots.len(),
    ensures
        (registered(slots, n) == 0) == (forall|i: int| 0 <= i < n ==> (#[trigger] slots[i]) is None),
        (registered(slots, n) == 0) == (interval_bounds(slots, n) is None),
    decreases n,
{
    if n > 0 {
        lemma_registered_zero(slots, n - 1);
    }
}

impl<S: Copy> EventSystem<S> {
    /// Create an event system with no event registered.
    pub fn new(seed: u64) -> (r: Self)
        ensures
            r@ == initial_events::<S>(seed),
            r@.wf(),
    {
        let mut slots: Vec<Option<EventSlot<S>>> = Vec::new();
        let mut i: usize = 0;
        while i < MAX_EVENT_SLOTS
            invariant
                i <= MAX_EVENT_SLOTS,
                slots@.len() == i,
                forall|j: int| 0 <= j < i ==> (#[trigger] slots@[j]) is None,
            decreases MAX_EVENT_SLOTS - i,
        {
            slots.push(None);
            i = i + 1;
        }
        let r = EventSystem { slots, active: None, scheduler: EventScheduler::new(seed) };
        proof {
            lemma_registered_zero(r@.slots, MAX_EVENT_SLOTS as int);
            assert(r@.slots == initial_events::<S>(seed).slots);
        }
        r
    }

    /// Number of registered event slots.
    pub fn slot_count(&self) -> (r: usize)
        requires
            self@.slots_wf(),
        ensures
            r == self@.slot_count(),
            r <= MAX_EVENT_SLOTS,
    {
        let mut count: usize = 0;
        let mut i: usize = 0;
        while i < self.slots.len()
            invariant
                i <= self.slots.len(),
                self.slots@.len() == MAX_EVENT_SLOTS,
                count == registered(self@.slots, i as int),
                count <= i,
            decreases self.slots.len() - i,
        {
            proof {
                lemma_registered_bound(self@.slots, i as int);
            }
            if self.slots[i].is_some() {
                count = count + 1;
            }
            i = i + 1;
        }
        count
    }

    /// Draw the next interval from the aggregated bounds of the registered
    /// slots (smallest minimum, largest maximum), when they form a range.
    fn schedule_from_any_slot(&mut self) -> (r: Option<u64>)
        requires
            old(self)@.wf(),
        ensures
            (final(self)@, r) == old(self)@.reschedule(),
    {
        let mut min_ms: u32 = u32::MAX;
        let mut max_ms: u32 = 0;
        let mut has_any = false;
        let mut i: usize = 0;
        while i < self.slots.len()
            invariant
                i <= self.slots.len(),
                self.slots@.len() == MAX_EVENT_SLOTS,
                has_any == interval_bounds(self@.slots, i as int) is Some,
                has_any ==> interval_bounds(self@.slots, i as int) == Some((min_ms, max_ms)),
            decreases self.slots.len() - i,
        {
            match &self.slots[i] {
                Some(slot) => {
                    if !has_any {
                        min_ms = slot.timing.min_interval_ms;
                        max_ms = slot.timing.max_interval_ms;
                    } else {
                        if slot.timing.min_interval_ms < min_ms {
                            min_ms = slot.timing.min_interval_ms;
                        }
                        if slot.timing.max_interval_ms > max_ms {
                            max_ms = slot.timing.max_interval_ms;
                        }
                    }
                    has_any = true;
                },
                None => {},
            }
            i = i + 1;
        }
        if has_any && max_ms >= min_ms {
            Some(self.scheduler.draw_interval_ms(min_ms, max_ms))
        } else {
            None
        }
    }

    /// Bring the scheduler in line with the registered slots.
    fn update_scheduler_state(&mut self) -> (r: Option<u64>)
        requires
            old(self)@.slots_wf(),
        ensures
            (final(self)@, r) == old(self)@.refresh(),
            final(self)@.wf(),
    {
        let count = self.slot_count();
        self.scheduler.set_slot_count(count);
        if count > 0 {
            self.scheduler.set_enabled(true);
            self.schedule_from_any_slot()
        } else {
            self.scheduler.set_enabled(false);
            None
        }
    }

    /// Register an event in slot `index` from interleaved PCM data; `channels`
    /// must be 1 or 2. Returns the interval (in milliseconds) to arm the
    /// countdown with, if one was drawn.
    pub fn set_event(
        &mut self,
        index: usize,
        samples: &[S],
        channels: u32,
        min_interval_ms: u32,
        max_interval_ms: u32,
        draws_volume: bool,
        draws_pan: bool,
    ) -> (r: Result<Option<u64>, LayerError>)
        requires
            old(self)@.wf(),
        ensures
            (final(self)@, r) == old(self)@.set_event(
                index,
                samples@,
                channels,
                min_interval_ms,
                max_interval_ms,
                draws_volume,
                draws_pan,
            ),
            final(self)@.wf(),
    {
        if index >= MAX_EVENT_SLOTS {
            return Err(LayerError::IndexOutOfRange { index, max: MAX_EVENT_SLOTS });
        }
        if samples.len() == 0 {
            return Err(LayerError::EmptyData);
        }
        let (left, right) = match split_pcm(samples, channels as usize) {
            Ok(lr) => lr,
            Err(e) => {
                return Err(e);
            },
        };
        let slot = EventSlot {
            buffer_left: left,
            buffer_right: right,
            timing: EventTiming { min_interval_ms, max_interval_ms },
            draws_volume,
            draws_pan,
        };
        let new_len = slot.buffer_left.len();
        let clamp = match &self.active {
            Some(a) => a.slot_index == index && new_len < a.length,
            None => false,
        };
        if clamp {
            let (slot_index, position) = match &self.active {
                Some(a) => (a.slot_index, a.position),
                None => (index, 0),
            };
            self.active = Some(EventPlayback { slot_index, position, length: new_len });
        }
        let ghost before = self@;
        self.slots.set(index, Some(slot));
        proof {
            assert(self@.slots == before.slots.update(index as int, Some(slot.model())));
            assert(slot.model().left.len() == slot.model().right.len());
            assert(self@.slots_wf());
        }
        let r = self.update_scheduler_state();
        Ok(r)
    }

    /// Remove the event of slot `index`; a playback of that slot stops.
    /// Returns the interval (in milliseconds) to arm the countdown with, if
    /// one was drawn.
    pub fn clear_event(&mut self, index: usize) -> (r: Option<u64>)
        requires
            old(self)@.wf(),
        ensures
            (final(self)@, r) == old(self)@.clear_event(index),
            final(self)@.wf(),
    {
        if index < MAX_EVENT_SLOTS {
            let ghost before = self@;
            self.slots.set(index, None);
            let stop = match &self.active {
                Some(a) => a.slot_index == index,
                None => false,
            };
            if stop {
                self.active = None;
            }
            proof {
                assert(self@.slots == before.slots.update(index as int, None));
            }
            self.update_scheduler_state()
        } else {
            None
        }
    }

    /// Remove all events and stop playback.
    pub fn clear_all(&mut self)
        requires
            old(self)@.wf(),
        ensures
            final(self)@ == old(self)@.clear_all(),
            final(self)@.wf(),
    {
        let mut i: usize = 0;
        while i < self.slots.len()
            invariant
                i <= self.slots.len(),
                self.slots@.len() == MAX_EVENT_SLOTS,
                forall|j: int| 0 <= j < i ==> (#[trigger] self.slots@[j]) is None,
                self.scheduler@ == old(self)@.scheduler,
            decreases self.slots.len() - i,
        {
            self.slots.set(i, None);
            i = i + 1;
        }
        self.active = None;
        proof {
            assert(self@.slots == Seq::new(MAX_EVENT_SLOTS as nat, |i: int| None::<SlotModel<S>>));
            lemma_registered_zero(self@.slots, MAX_EVENT_SLOTS as int);
        }
        let r = self.update_scheduler_state();
    }

    /// Arm the countdown: the next trigger comes `samples` frames from now.
    pub fn arm(&mut self, samples: u64)
        requires
            old(self)@.wf(),
        ensures
            final(self)@ == (EventSystemModel {
                scheduler: EventSchedulerModel { samples_until_next: samples, ..old(self)@.scheduler },
                ..old(self)@
            }),
            final(self)@.wf(),
    {
        self.scheduler.arm(samples);
    }

    /// End a playback that has reached its length and draw the next interval.
    /// Returns the interval (in milliseconds) to arm the countdown with, if
    /// one was drawn.
    pub fn finish_playback(&mut self) -> (r: Option<u64>)
        requires
            old(self)@.wf(),
        ensures
            (final(self)@, r) == old(self)@.finish_playback(),
            final(self)@.wf(),
    {
        let done = match &self.active {
            Some(a) => a.position >= a.length,
            None => false,
        };
        if done {
            self.active = None;
            self.schedule_from_any_slot()
        } else {
            None
        }
    }

    /// When nothing plays, advance the scheduler by one frame; when it
    /// triggers, start the playback of the registered slot at its round-robin
    /// position.
    pub fn poll_trigger(&mut self) -> (r: Option<Trigger>)
        requires
            old(self)@.wf(),
        ensures
            (final(self)@, r) == old(self)@.poll_trigger(),
            final(self)@.wf(),
    {
        if self.active.is_some() {
            return None;
        }
        match self.scheduler.advance() {
            Some(k) => {
                let i = self.registered_slot(k);
                self.trigger_event(i)
            },
            None => None,
        }
    }

    /// The index of the `k`-th registered slot.
    fn registered_slot(&self, k: usize) -> (r: usize)
        requires
            self@.slots_wf(),
            k < self@.slot_count(),
        ensures
            r == registered_at(self@.slots, k as int, 0),
            r < MAX_EVENT_SLOTS,
            self@.slots[r as int] is Some,
    {
        proof {
            lemma_registered_at(self@.slots, k as int, 0);
        }
        let mut i: usize = 0;
        let mut left: usize = k;
        loop
            invariant
                self@.slots_wf(),
                i <= self.slots.len(),
                self.slots@.len() == MAX_EVENT_SLOTS,
                left < registered(self@.slots, MAX_EVENT_SLOTS as int) - registered(self@.slots, i as int),
                registered_at(self@.slots, k as int, 0) == registered_at(self@.slots, left as int, i as int),
                self@.slots[registered_at(self@.slots, k as int, 0)] is Some,
                registered_at(self@.slots, k as int, 0) < MAX_EVENT_SLOTS,
            decreases self.slots.len() - i,
        {
            proof {
                lemma_registered_at(self@.slots, left as int, i as int);
                assert(registered(self@.slots, i + 1) == registered(self@.slots, i as int) + if self@.slots[i as int] is Some {
                    1nat
                } else {
                    0nat
                });
            }
            if self.slots[i].is_some() {
                if left == 0 {
                    return i;
                }
                left = left - 1;
            }
            i = i + 1;
        }
    }

    /// Start the playback of slot `slot_index`, drawing its volume and pan.
    fn trigger_event(&mut self, slot_index: usize) -> (r: Option<Trigger>)
        requires
            old(self)@.wf(),
            slot_index < MAX_EVENT_SLOTS,
        ensures
            (final(self)@, r) == old(self)@.trigger(slot_index as int),
            final(self)@.wf(),
    {
        let (length, draws_volume, draws_pan) = match &self.slots[slot_index] {
            Some(slot) => (slot.buffer_left.len(), slot.draws_volume, slot.draws_pan),
            None => {
                return None;
            },
        };
        let volume_draw = if draws_volume {
            Some(self.scheduler.next_random())
        } else {
            None
        };
        let pan_draw = if draws_pan {
            Some(self.scheduler.next_random())
        } else {
            None
        };
        self.active = Some(EventPlayback { slot_index, position: 0, length });
        Some(Trigger { slot_index, volume_draw, pan_draw })
    }

    /// The raw frame of the playing event, moving the playback on; `None`
    /// (silence) when nothing plays or the event is over.
    pub fn next_frame(&mut self) -> (r: Option<(S, S)>)
        requires
            old(self)@.wf(),
        ensures
            (final(self)@, r) == old(self)@.next_frame(),
            final(self)@.wf(),
    {
        let (slot_index, position, length) = match &self.active {
            Some(a) => (a.slot_index, a.position, a.length),
            None => {
                return None;
            },
        };
        if position >= length {
            return None;
        }
        let frame = match &self.slots[slot_index] {
            Some(slot) => (slot.buffer_left[position], slot.buffer_right[position]),
            None => {
                return None;
            },
        };
        self.active = Some(EventPlayback { slot_index, position: position + 1, length });
        Some(frame)
    }

    /// Whether an event is currently playing.
    pub fn is_playing(&self) -> (r: bool)
        ensures
            r == self@.active is Some,
    {
        self.active.is_some()
    }
}

/// At most one event plays at a time: while an event plays, no trigger is
/// polled and nothing changes.
pub proof fn lemma_one_event_at_a_time<S>(m: EventSystemModel<S>)
    requires
        m.active is Some,
    ensures
        m.poll_trigger() == (m, None::<Trigger>),
{
}

/// After registering or clearing events, the scheduler knows how many slots
/// are registered and is enabled exactly when there is one.
pub proof fn lemma_scheduler_follows_slots<S>(m: EventSystemModel<S>)
    ensures
        m.refresh().0.scheduler.enabled == (m.slot_count() > 0),
        m.refresh().0.scheduler.slot_count == m.slot_count() as usize,
        m.refresh().0.slots == m.slots,
        m.refresh().0.active == m.active,
{
}

/// Clearing all events stops playback, leaves no slot registered and disables
/// the scheduler.
pub proof fn lemma_clear_all_silences<S>(m: EventSystemModel<S>)
    ensures
        m.clear_all().active is None,
        m.clear_all().slot_count() == 0,
        !m.clear_all().scheduler.enabled,
        m.clear_all().poll_trigger().1 is None,
{
    lemma_registered_zero(m.clear_all().slots, MAX_EVENT_SLOTS as int);
}

/// Clearing the slot of the playing event stops it; clearing another slot
/// leaves it playing.
pub proof fn lemma_clear_playing_slot<S>(m: EventSystemModel<S>, index: usize)
    requires
        m.active is Some,
        index < MAX_EVENT_SLOTS,
    ensures
        m.active->0.slot_index == index ==> m.clear_event(index).0.active is None,
        m.active->0.slot_index != index ==> m.clear_event(index).0.active == m.active,
{
}

/// A triggered event plays its slot from the first frame to the last, one
/// frame per call, and its volume and pan draws are the generator's next
/// outputs in that order.
pub proof fn lemma_trigger_plays_slot<S>(m: EventSystemModel<S>, i: int)
    requires
        0 <= i < MAX_EVENT_SLOTS,
        m.slots[i] is Some,
    ensures
        m.trigger(i).0.active == Some(
            PlaybackModel { slot_index: i as nat, position: 0, length: m.slots[i]->0.left.len() },
        ),
        m.trigger(i).1 matches Some(t) && (t.volume_draw is Some) == m.slots[i]->0.draws_volume
            && (t.pan_draw is Some) == m.slots[i]->0.draws_pan,
        m.slots[i]->0.draws_volume ==> m.trigger(i).1->0.volume_draw == Some(
            xorshift_step(m.scheduler.rng_state),
        ),
        m.slots[i]->0.draws_pan && !m.slots[i]->0.draws_volume ==> m.trigger(i).1->0.pan_draw
            == Some(xorshift_step(m.scheduler.rng_state)),
        m.slots[i]->0.draws_pan && m.slots[i]->0.draws_volume ==> m.trigger(i).1->0.pan_draw
            == Some(xorshift_step(xorshift_step(m.scheduler.rng_state))),
        m.trigger(i).1->0.slot_index as int == i,
        m.trigger(i).0.slots == m.slots,
        m.trigger(i).0.scheduler.samples_until_next == m.scheduler.samples_until_next,
        m.trigger(i).0.scheduler.slot_count == m.scheduler.slot_count,
        m.trigger(i).0.scheduler.enabled == m.scheduler.enabled,
        m.trigger(i).0.scheduler.next_slot == m.scheduler.next_slot,
{
}

/// A playing event hands out its slot's frames in order.
pub proof fn lemma_playback_reads_slot<S>(m: EventSystemModel<S>)
    requires
        m.wf(),
        m.active matches Some(a) && a.position < a.length,
    ensures
        ({
            let a = m.active->0;
            let s = m.slots[a.slot_index as int]->0;
            &&& m.next_frame().1 == Some((s.left[a.position as int], s.right[a.position as int]))
            &&& m.next_frame().0.active == Some(PlaybackModel { position: a.position + 1, ..a })
        }),
{
}

/// The next interval is drawn between the smallest minimum and the largest
/// maximum interval of the registered slots; nothing is drawn without a
/// registered slot or when those bounds do not form a range.
pub proof fn lemma_interval_within_bounds<S>(m: EventSystemModel<S>)
    ensures
        match interval_bounds(m.slots, m.slots.len() as int) {
            Some((lo, hi)) => if hi >= lo {
                m.reschedule().1 matches Some(ms) && lo <= ms <= hi
            } else {
                m.reschedule().1 is None
            },
            None => m.reschedule().1 is None,
        },
{
    match interval_bounds(m.slots, m.slots.len() as int) {
        Some((lo, hi)) => {
            if hi >= lo {
                lemma_draw_within_bounds(m.scheduler, lo, hi);
            }
        },
        None => {},
    }
}

/// Every trigger plays a registered event: when the scheduler picks the
/// round-robin position `k`, the `k`-th registered slot (in index order)
/// starts playing, whichever indices hold the events.
pub proof fn lemma_trigger_starts_playback<S>(m: EventSystemModel<S>)
    requires
        m.wf(),
        m.active is None,
        advance_model(m.scheduler).1 is Some,
    ensures
        ({
            let k = advance_model(m.scheduler).1->0 as int;
            let i = registered_at(m.slots, k, 0);
            &&& 0 <= i < MAX_EVENT_SLOTS
            &&& m.slots[i] is Some
            &&& registered(m.slots, i) == k
            &&& m.poll_trigger().1 matches Some(t) && t.slot_index == i
            &&& m.poll_trigger().0.active == Some(
                PlaybackModel { slot_index: i as nat, position: 0, length: m.slots[i]->0.left.len() },
            )
        }),
{
    let k = advance_model(m.scheduler).1->0 as int;
    lemma_registered_at(m.slots, k, 0);
}

/// The playback always lies within its slot's buffer (every operation keeps
/// [`EventSystemModel::wf`], which says so, also when the playing slot is
/// replaced by a shorter event), so reading a frame never leaves the buffer.
pub proof fn lemma_playback_within_buffer<S>(m: EventSystemModel<S>)
    requires
        m.wf(),
    ensures
        m.next_frame().0.wf(),
        m.active matches Some(a) ==> a.length <= m.slots[a.slot_index as int]->0.left.len(),
        m.active matches Some(a) && a.position < a.length ==> m.next_frame().1 is Some,
{
}

/// The aggregated interval bounds over the first `n` slots are the smallest
/// minimum and the largest maximum interval of the registered slots: every
/// registered slot lies within them and each bound is some slot's own. There
/// are bounds exactly when a slot is registered.
pub proof fn lemma_interval_bounds_extremes<S>(slots: Seq<Option<SlotModel<S>>>, n: int)
    requires
        0 <= n <= slots.len(),
    ensures
        interval_bounds(slots, n) is Some <==> exists|i: int| 0 <= i < n && (#[trigger] slots[i]) is Some,
        interval_bounds(slots, n) matches Some((lo, hi)) ==> {
            &&& forall|i: int|
                0 <= i < n && (#[trigger] slots[i]) is Some ==> lo <= slots[i]->0.timing.min_interval_ms
                    && slots[i]->0.timing.max_interval_ms <= hi
            &&& exists|i: int|
                0 <= i < n && (#[trigger] slots[i]) is Some && slots[i]->0.timing.min_interval_ms == lo
            &&& exists|j: int|
                0 <= j < n && (#[trigger] slots[j]) is Some && slots[j]->0.timing.max_interval_ms == hi
        },
    decreases n,
{
    if n > 0 {
        lemma_interval_bounds_extremes(slots, n - 1);
        if slots[n - 1] is Some {
            match interval_bounds(slots, n - 1) {
                None => {
                    assert(slots[n - 1] is Some);
                },
                Some((lo, hi)) => {
                    let s = slots[n - 1]->0;
                    if s.timing.min_interval_ms < lo {
                        assert(slots[n - 1] is Some);
                    }
                    if s.timing.max_interval_ms > hi {
                        assert(slots[n - 1] is Some);
                    }
                },
            }
        } else {
            if exists|i: int| 0 <= i < n && (#[trigger] slots[i]) is Some {
                let i = choose|i: int| 0 <= i < n && (#[trigger] slots[i]) is Some;
                assert(i < n - 1);
            }
        }
    }
}

/// Registering an event succeeds exactly for an index in range and non-empty
/// mono or stereo data; the slot then holds the data on its channels with
/// the caller's timing and draw flags, the other slots are unchanged, and a
/// playback of another slot goes on unchanged.
pub proof fn lemma_set_event_stores_slot<S>(
    m: EventSystemModel<S>,
    index: usize,
    samples: Seq<S>,
    channels: u32,
    min_interval_ms: u32,
    max_interval_ms: u32,
    draws_volume: bool,
    draws_pan: bool,
)
    requires
        m.wf(),
    ensures
        ({
            let (m2, r) = m.set_event(
                index,
                samples,
                channels,
                min_interval_ms,
                max_interval_ms,
                draws_volume,
                draws_pan,
            );
            &&& r is Ok <==> index < MAX_EVENT_SLOTS && samples.len() > 0 && (channels == 1
                || channels == 2)
            &&& r is Err ==> m2 == m
            &&& r is Ok ==> {
                &&& m2.slots[index as int] matches Some(s) && s.timing.min_interval_ms
                    == min_interval_ms && s.timing.max_interval_ms == max_interval_ms
                    && s.draws_volume == draws_volume && s.draws_pan == draws_pan
                    && carries_channels(s.left, s.right, samples, channels as usize)
                &&& m2.slots.len() == m.slots.len()
                &&& forall|j: int| 0 <= j < m.slots.len() && j != index ==> m2.slots[j] == m.slots[j]
                &&& match m.active {
                    Some(a) => a.slot_index != index ==> m2.active == m.active,
                    None => m2.active is None,
                }
            }
        }),
{
    lemma_split_channels(samples, channels as usize);
}

/// When every registered slot, the new one included, has its minimum interval
/// at most its maximum, registering an event always draws the next interval,
/// and the interval lies between the smallest minimum and the largest
/// maximum of the registered slots.
pub proof fn lemma_set_event_draws_interval<S>(
    m: EventSystemModel<S>,
    index: usize,
    samples: Seq<S>,
    channels: u32,
    min_interval_ms: u32,
    max_interval_ms: u32,
    draws_volume: bool,
    draws_pan: bool,
)
    requires
        m.wf(),
        index < MAX_EVENT_SLOTS,
        samples.len() > 0,
        channels == 1 || channels == 2,
        min_interval_ms <= max_interval_ms,
        forall|i: int|
            0 <= i < m.slots.len() && (#[trigger] m.slots[i]) is Some ==> m.slots[i]->0.timing.min_interval_ms
                <= m.slots[i]->0.timing.max_interval_ms,
    ensures
        ({
            let (m2, r) = m.set_event(
                index,
                samples,
                channels,
                min_interval_ms,
                max_interval_ms,
                draws_volume,
                draws_pan,
            );
            &&& r matches Ok(Some(ms)) && (exists|j: int|
                0 <= j < m2.slots.len() && (#[trigger] m2.slots[j]) is Some
                    && m2.slots[j]->0.timing.min_interval_ms <= ms) && (exists|j: int|
                0 <= j < m2.slots.len() && (#[trigger] m2.slots[j]) is Some && ms
                    <= m2.slots[j]->0.timing.max_interval_ms)
        }),
{
    lemma_split_channels(samples, channels as usize);
    let (left, right) = split_channels(samples, channels as usize)->0;
    let slots = m.slots.update(
        index as int,
        Some(slot_from(left, right, min_interval_ms, max_interval_ms, draws_volume, draws_pan)),
    );
    assert(slots[index as int] is Some);
    lemma_registered_zero(slots, slots.len() as int);
    lemma_interval_bounds_extremes(slots, slots.len() as int);
    let (lo, hi) = interval_bounds(slots, slots.len() as int)->0;
    let i = choose|i: int|
        0 <= i < slots.len() && (#[trigger] slots[i]) is Some && slots[i]->0.timing.min_interval_ms == lo;
    assert(slots[i]->0.timing.min_interval_ms <= slots[i]->0.timing.max_interval_ms);
    let j = choose|j: int|
        0 <= j < slots.len() && (#[trigger] slots[j]) is Some && slots[j]->0.timing.max_interval_ms == hi;
    let (m2, r) = m.set_event(
        index,
        samples,
        channels,
        min_interval_ms,
        max_interval_ms,
        draws_volume,
        draws_pan,
    );
    assert(m2.slots == slots);
    let sch = EventSchedulerModel { slot_count: registered(slots, slots.len() as int) as usize, enabled: true, ..m.scheduler };
    lemma_draw_within_bounds(sch, lo, hi);
    assert(r == Ok::<Option<u64>, LayerError>(Some(draw_model(sch, lo, hi).1)));
}

/// When the playing event has played its last frame, finishing it stops the
/// playback, keeps every slot, and, when each registered slot's minimum
/// interval is at most its maximum, always draws the next interval between
/// the smallest minimum and the largest maximum. Before its end, nothing
/// changes and nothing is drawn.
pub proof fn lemma_finish_playback_rearms<S>(m: EventSystemModel<S>)
    requires
        m.wf(),
        m.active is Some,
    ensures
        m.active->0.position < m.active->0.length ==> m.finish_playback() == (m, None::<u64>),
        m.active->0.position >= m.active->0.length ==> {
            let (m2, r) = m.finish_playback();
            &&& m2.active is None
            &&& m2.slots == m.slots
            &&& (forall|i: int|
                0 <= i < m.slots.len() && (#[trigger] m.slots[i]) is Some
                    ==> m.slots[i]->0.timing.min_interval_ms <= m.slots[i]->0.timing.max_interval_ms)
                ==> (r matches Some(ms) && (exists|j: int|
                0 <= j < m.slots.len() && (#[trigger] m.slots[j]) is Some
                    && m.slots[j]->0.timing.min_interval_ms <= ms) && (exists|j: int|
                0 <= j < m.slots.len() && (#[trigger] m.slots[j]) is Some
                    && ms <= m.slots[j]->0.timing.max_interval_ms))
        },
{
    let a = m.active->0;
    if a.position >= a.length {
        let slots = m.slots;
        assert(slots[a.slot_index as int] is Some);
        lemma_interval_bounds_extremes(slots, slots.len() as int);
        if forall|i: int|
            0 <= i < slots.len() && (#[trigger] slots[i]) is Some
                ==> slots[i]->0.timing.min_interval_ms <= slots[i]->0.timing.max_interval_ms {
            let (lo, hi) = interval_bounds(slots, slots.len() as int)->0;
            let i = choose|i: int|
                0 <= i < slots.len() && (#[trigger] slots[i]) is Some
                    && slots[i]->0.timing.min_interval_ms == lo;
            assert(slots[i]->0.timing.min_interval_ms <= slots[i]->0.timing.max_interval_ms);
            lemma_draw_within_bounds(m.scheduler, lo, hi);
        }
    }
}

/// Clearing an event empties exactly its slot; the scheduler then counts
/// the remaining events, is disabled with none left, and otherwise (each
/// remaining slot's minimum interval at most its maximum) draws the next
/// interval between the smallest minimum and the largest maximum of the
/// remaining slots. An index out of range changes nothing.
pub proof fn lemma_clear_event_empties_slot<S>(m: EventSystemModel<S>, index: usize)
    requires
        m.wf(),
    ensures
        index >= MAX_EVENT_SLOTS ==> m.clear_event(index) == (m, None::<u64>),
        index < MAX_EVENT_SLOTS ==> {
            let (m2, r) = m.clear_event(index);
            &&& m2.wf()
            &&& m2.slots.len() == m.slots.len()
            &&& m2.slots[index as int] is None
            &&& forall|j: int| 0 <= j < m.slots.len() && j != index ==> m2.slots[j] == m.slots[j]
            &&& m2.slot_count() == 0 ==> !m2.scheduler.enabled && r is None
            &&& m2.slot_count() > 0 && (forall|i: int|
                0 <= i < m2.slots.len() && (#[trigger] m2.slots[i]) is Some
                    ==> m2.slots[i]->0.timing.min_interval_ms <= m2.slots[i]->0.timing.max_interval_ms)
                ==> m2.scheduler.enabled && (r matches Some(ms) && (exists|j: int|
                0 <= j < m2.slots.len() && (#[trigger] m2.slots[j]) is Some
                    && m2.slots[j]->0.timing.min_interval_ms <= ms) && (exists|j: int|
                0 <= j < m2.slots.len() && (#[trigger] m2.slots[j]) is Some
                    && ms <= m2.slots[j]->0.timing.max_interval_ms))
        },
{
    if index < MAX_EVENT_SLOTS {
        let slots = m.slots.update(index as int, None);
        let mid = EventSystemModel {
            slots,
            active: match m.active {
                Some(a) => if a.slot_index == index {
                    None
                } else {
                    Some(a)
                },
                None => None,
            },
            ..m
        };
        assert(m.clear_event(index) == mid.refresh());
        lemma_scheduler_follows_slots(mid);
        lemma_registered_bound(slots, slots.len() as int);
        lemma_registered_zero(slots, slots.len() as int);
        lemma_interval_bounds_extremes(slots, slots.len() as int);
        let (m2, r) = m.clear_event(index);
        assert(m2.slots == slots);
        if registered(slots, slots.len() as int) > 0 && forall|i: int|
            0 <= i < slots.len() && (#[trigger] slots[i]) is Some
                ==> slots[i]->0.timing.min_interval_ms <= slots[i]->0.timing.max_interval_ms {
            let (lo, hi) = interval_bounds(slots, slots.len() as int)->0;
            let i = choose|i: int|
                0 <= i < slots.len() && (#[trigger] slots[i]) is Some
                    && slots[i]->0.timing.min_interval_ms == lo;
            assert(slots[i]->0.timing.min_interval_ms <= slots[i]->0.timing.max_interval_ms);
            let sch = EventSchedulerModel {
                slot_count: registered(slots, slots.len() as int) as usize,
                enabled: true,
                ..m.scheduler
            };
            lemma_draw_within_bounds(sch, lo, hi);
        }
    }
}

} // verus!

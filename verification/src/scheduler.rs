//! Frequency cycle scheduler.
//!
//! Counts sample frames through a list of cycle items, looping indefinitely.
//! One-shot items play only during the first iteration; a graceful stop ends
//! playback at the next wrap of the cycle. The frequency delta of an item is
//! carried as an opaque value `D`; durations are given in sample frames.

use vstd::prelude::*;
use vstd::arithmetic::div_mod::{lemma_small_mod, lemma_mod_self_0};

verus! {

/// A single step in the frequency cycle.
#[derive(Debug, Clone, Copy)]
pub struct CycleItem<D> {
    /// Frequency delta of this step.
    pub frequency_delta: D,
    /// Duration of this step in sample frames.
    pub duration_frames: u64,
    /// If true, the item plays only during the first cycle iteration and is
    /// skipped on all later iterations.
    pub oneshot: bool,
}

/// Result of a scheduler advance step.
#[derive(Debug, Clone, Copy, PartialEq, Eq, Structural)]
pub enum AdvanceResult {
    /// No item change this frame.
    NoChange,
    /// The active item changed (read `current_delta()`).
    ItemChanged,
    /// All remaining items are one-shot and have been played; the tone layer
    /// should go silent.
    AllExhausted,
    /// The current iteration is complete and a graceful stop was requested.
    CycleCompleteStop,
}

/// What the tone generator does after a frame of the scheduler.
#[derive(Debug, Clone, Copy, PartialEq, Eq)]
pub enum ToneAction<D> {
    /// Nothing changes.
    Keep,
    /// Switch to this frequency delta.
    SetDelta(D),
    /// Only exhausted one-shot items are left: the tone goes silent.
    Silence,
    /// The iteration is complete and a graceful stop was requested: the
    /// engine stops.
    Stop,
}

/// The tone action for the result of a frame, given the scheduler state
/// after it.
pub open spec fn tone_action<D>(m: SchedulerModel<D>, r: AdvanceResult) -> ToneAction<D> {
    match r {
        AdvanceResult::NoChange => ToneAction::Keep,
        AdvanceResult::ItemChanged => match m.current_delta() {
            Some(d) => ToneAction::SetDelta(d),
            None => ToneAction::Keep,
        },
        AdvanceResult::AllExhausted => ToneAction::Silence,
        AdvanceResult::CycleCompleteStop => ToneAction::Stop,
    }
}

/// Abstract state of a [`Scheduler`].
pub struct SchedulerModel<D> {
    pub items: Seq<CycleItem<D>>,
    pub current_index: nat,
    pub samples_remaining: nat,
    pub cycle_count: nat,
    pub stop_at_cycle_end: bool,
    pub exhausted: bool,
}

impl<D> SchedulerModel<D> {
    /// Number of items.
    pub open spec fn n(self) -> int {
        self.items.len() as int
    }

    /// Well-formed: the current index designates an item when there is one.
    pub open spec fn wf(self) -> bool {
        &&& self.n() > 0 ==> self.current_index < self.n()
        &&& self.n() == 0 ==> self.current_index == 0
        &&& self.cycle_count <= u32::MAX
    }

    /// The active frequency delta: the current item's, none without items.
    pub open spec fn current_delta(self) -> Option<D> {
        if self.n() == 0 {
            None
        } else {
            Some(self.items[self.current_index as int].frequency_delta)
        }
    }

    /// The scan after the current item visits positions `current_index + 1`
    /// onwards; position `p` designates item `p` modulo the length. This is
    /// the number of wraps of the cycle passed on the way to `p` (for the
    /// positions the scan can reach, up to twice the length).
    pub open spec fn wraps_to(self, p: int) -> int {
        if p >= 2 * self.n() {
            2
        } else if p >= self.n() {
            1
        } else {
            0
        }
    }

    /// The item that position `p` designates.
    pub open spec fn index_at(self, p: int) -> int {
        if p >= 2 * self.n() {
            p - 2 * self.n()
        } else if p >= self.n() {
            p - self.n()
        } else {
            p
        }
    }

    /// The cycle count once the scan has reached position `p`.
    pub open spec fn count_at(self, p: int) -> int {
        self.cycle_count + self.wraps_to(p)
    }

    /// Position `p` starts a new iteration of the cycle.
    pub open spec fn wraps_at(self, p: int) -> bool {
        p == self.n() || p == 2 * self.n()
    }

    /// The item at position `p` is skipped: it is one-shot and the first
    /// iteration is over.
    pub open spec fn skipped_at(self, p: int) -> bool {
        self.count_at(p) > 0 && self.items[self.index_at(p)].oneshot
    }

    /// The last position the scan reaches: one full length after the current
    /// item's successor; reaching it means every item is skipped.
    pub open spec fn last_pos(self) -> int {
        self.current_index + self.n() + 1
    }

    /// The scan ends at position `p`: a graceful stop at a wrap, exhaustion,
    /// or an item that is played.
    pub open spec fn ends_at(self, p: int) -> bool {
        ||| self.wraps_at(p) && self.stop_at_cycle_end
        ||| p == self.last_pos()
        ||| !self.skipped_at(p)
    }

    /// The first position at or after `p` where the scan ends.
    pub open spec fn first_end_from(self, p: int) -> int
        decreases self.last_pos() - p,
    {
        if p >= self.last_pos() || self.ends_at(p) {
            p
        } else {
            self.first_end_from(p + 1)
        }
    }

    /// The position where the scan after the current item ends.
    pub open spec fn first_end(self) -> int {
        self.first_end_from(self.current_index as int + 1)
    }

    /// The state and result once the scan ends at position `p`.
    pub open spec fn finish_at(self, p: int) -> (SchedulerModel<D>, AdvanceResult) {
        let count = self.count_at(p) as nat;
        if self.wraps_at(p) && self.stop_at_cycle_end {
            (
                SchedulerModel {
                    cycle_count: count,
                    stop_at_cycle_end: false,
                    exhausted: true,
                    ..self
                },
                AdvanceResult::CycleCompleteStop,
            )
        } else if p == self.last_pos() {
            (SchedulerModel { cycle_count: count, exhausted: true, ..self }, AdvanceResult::AllExhausted)
        } else {
            let i = self.index_at(p);
            (
                SchedulerModel {
                    current_index: i as nat,
                    samples_remaining: self.items[i].duration_frames as nat,
                    cycle_count: count,
                    ..self
                },
                AdvanceResult::ItemChanged,
            )
        }
    }

    /// The countdown of the current item ends on this frame.
    pub open spec fn moves(self) -> bool {
        self.n() > 0 && !self.exhausted && self.samples_remaining <= 1
    }

    /// One frame of the scheduler.
    pub open spec fn advance(self) -> (SchedulerModel<D>, AdvanceResult) {
        if self.n() == 0 || self.exhausted {
            (self, AdvanceResult::NoChange)
        } else if self.samples_remaining > 1 {
            (
                SchedulerModel { samples_remaining: (self.samples_remaining - 1) as nat, ..self },
                AdvanceResult::NoChange,
            )
        } else {
            self.settled().finish_at(self.settled().first_end())
        }
    }

    /// The state once the countdown of the current item has run out.
    pub open spec fn settled(self) -> SchedulerModel<D> {
        SchedulerModel { samples_remaining: 0, ..self }
    }

    /// The cycle count of a frame stays within `u32`.
    pub open spec fn advance_fits(self) -> bool {
        self.moves() ==> self.settled().count_at(self.settled().first_end()) <= u32::MAX
    }

    /// The state at the start of the cycle, for the given items.
    pub open spec fn start(items: Seq<CycleItem<D>>) -> SchedulerModel<D> {
        SchedulerModel {
            items,
            current_index: 0,
            samples_remaining: if items.len() == 0 {
                0
            } else {
                items[0].duration_frames as nat
            },
            cycle_count: 0,
            stop_at_cycle_end: false,
            exhausted: false,
        }
    }
}

/// Sample-counted frequency cycle scheduler.
pub struct Scheduler<D> {
    items: Vec<CycleItem<D>>,
    current_index: usize,
    samples_remaining: u64,
    cycle_count: u32,
    stop_at_cycle_end: bool,
    exhausted: bool,
}

impl<D> View for Scheduler<D> {
    type V = SchedulerModel<D>;

    closed spec fn view(&self) -> SchedulerModel<D> {
        SchedulerModel {
            items: self.items@,
            current_index: self.current_index as nat,
            samples_remaining: self.samples_remaining as nat,
            cycle_count: self.cycle_count as nat,
            stop_at_cycle_end: self.stop_at_cycle_end,
            exhausted: self.exhausted,
        }
    }
}

/// The scan ends somewhere between `s` and the last position, and nowhere
/// before that.
pub proof fn lemma_first_end_from<D>(m: SchedulerModel<D>, s: int)
    requires
        s <= m.last_pos(),
    ensures
        s <= m.first_end_from(s) <= m.last_pos(),
        m.ends_at(m.first_end_from(s)),
        forall|q: int| s <= q < m.first_end_from(s) ==> !m.ends_at(q),
    decreases m.last_pos() - s,
{
    if s < m.last_pos() && !m.ends_at(s) {
        lemma_first_end_from(m, s + 1);
    }
}

/// The first end is the only position that ends the scan with no end before it.
pub proof fn lemma_first_end_unique<D>(m: SchedulerModel<D>, p: int)
    requires
        m.current_index + 1 <= p <= m.last_pos(),
        m.ends_at(p),
        forall|q: int| m.current_index + 1 <= q < p ==> !m.ends_at(q),
    ensures
        m.first_end() == p,
{
    lemma_first_end_from(m, m.current_index as int + 1);
}

impl<D> Scheduler<D> {
    #[verifier::type_invariant]
    closed spec fn inv(&self) -> bool {
        self@.wf()
    }
}

impl<D: Copy> Scheduler<D> {
    /// Create a scheduler at the start of the cycle of `items`.
    pub fn new(items: Vec<CycleItem<D>>) -> (r: Self)
        ensures
            r@ == SchedulerModel::start(items@),
    {
        let samples_remaining = if items.len() == 0 { 0 } else { items[0].duration_frames };
        Scheduler {
            items,
            current_index: 0,
            samples_remaining,
            cycle_count: 0,
            stop_at_cycle_end: false,
            exhausted: false,
        }
    }

    /// Replace the cycle items and restart at the first item.
    pub fn set_items(&mut self, items: Vec<CycleItem<D>>)
        ensures
            final(self)@ == SchedulerModel::start(items@),
    {
        let samples_remaining = if items.len() == 0 { 0 } else { items[0].duration_frames };
        self.current_index = 0;
        self.samples_remaining = samples_remaining;
        self.items = items;
        self.cycle_count = 0;
        self.stop_at_cycle_end = false;
        self.exhausted = false;
    }

    /// Reset to the beginning of the cycle, keeping the items.
    pub fn reset(&mut self)
        ensures
            final(self)@ == SchedulerModel::start(old(self)@.items),
    {
        let samples_remaining = if self.items.len() == 0 {
            0
        } else {
            self.items[0].duration_frames
        };
        self.current_index = 0;
        self.samples_remaining = samples_remaining;
        self.cycle_count = 0;
        self.stop_at_cycle_end = false;
        self.exhausted = false;
    }

    /// The current frequency delta; `None` when there are no items.
    pub fn current_delta(&self) -> (r: Option<D>)
        ensures
            r == self@.current_delta(),
    {
        proof {
            use_type_invariant(self);
        }
        if self.items.len() == 0 {
            None
        } else {
            Some(self.items[self.current_index].frequency_delta)
        }
    }

    /// The index of the currently active cycle item.
    pub fn current_index(&self) -> (r: usize)
        ensures
            r == self@.current_index,
    {
        self.current_index
    }

    /// How many full cycle iterations have completed.
    pub fn cycle_count(&self) -> (r: u32)
        ensures
            r == self@.cycle_count,
    {
        self.cycle_count
    }

    /// Whether the scheduler is exhausted (after all remaining items were
    /// one-shot, or after a graceful stop).
    pub fn is_exhausted(&self) -> (r: bool)
        ensures
            r == self@.exhausted,
    {
        self.exhausted
    }

    /// Request (or cancel) a stop at the end of the current cycle iteration.
    pub fn set_stop_at_cycle_end(&mut self, stop: bool)
        ensures
            final(self)@ == (SchedulerModel { stop_at_cycle_end: stop, ..old(self)@ }),
    {
        proof {
            use_type_invariant(&*self);
        }
        self.stop_at_cycle_end = stop;
    }

    /// Whether a graceful stop has been requested.
    pub fn stop_at_cycle_end(&self) -> (r: bool)
        ensures
            r == self@.stop_at_cycle_end,
    {
        self.stop_at_cycle_end
    }

    /// Number of cycle items.
    pub fn len(&self) -> (r: usize)
        ensures
            r == self@.items.len(),
    {
        self.items.len()
    }

    /// Whether the schedule is empty.
    pub fn is_empty(&self) -> (r: bool)
        ensures
            r == (self@.items.len() == 0),
    {
        self.items.len() == 0
    }

    /// What the tone generator does after a frame that reported `r`: take
    /// the new current delta after a change, go silent after exhaustion, stop
    /// after a graceful stop.
    pub fn tone_action(&self, r: AdvanceResult) -> (a: ToneAction<D>)
        ensures
            a == tone_action(self@, r),
    {
        match r {
            AdvanceResult::NoChange => ToneAction::Keep,
            AdvanceResult::ItemChanged => match self.current_delta() {
                Some(d) => ToneAction::SetDelta(d),
                None => ToneAction::Keep,
            },
            AdvanceResult::AllExhausted => ToneAction::Silence,
            AdvanceResult::CycleCompleteStop => ToneAction::Stop,
        }
    }

    /// Advance the scheduler by one sample frame.
    pub fn advance(&mut self) -> (r: AdvanceResult)
        requires
            old(self)@.advance_fits(),
        ensures
            (final(self)@, r) == old(self)@.advance(),
            final(self)@.wf(),
    {
        proof {
            use_type_invariant(&*self);
        }
        if self.items.len() == 0 || self.exhausted {
            return AdvanceResult::NoChange;
        }
        if self.samples_remaining > 1 {
            self.samples_remaining = self.samples_remaining - 1;
            return AdvanceResult::NoChange;
        }
        self.samples_remaining = 0;
        self.move_to_next_item()
    }

    /// Find and activate the next item once the current one has finished.
    fn move_to_next_item(&mut self) -> (r: AdvanceResult)
        requires
            old(self)@.n() > 0,
            old(self)@.samples_remaining == 0,
            !old(self)@.exhausted,
            old(self)@.count_at(old(self)@.first_end()) <= u32::MAX,
        ensures
            (final(self)@, r) == old(self)@.finish_at(old(self)@.first_end()),
            final(self)@.wf(),
    {
        proof {
            use_type_invariant(&*self);
        }
        let ghost m = self@;
        let len = self.items.len();
        let c = self.current_index;
        proof {
            lemma_first_end_from(m, m.current_index as int + 1);
            lemma_mod_self_0(len as int);
            if c + 1 < len {
                lemma_small_mod((c + 1) as nat, len as nat);
            }
        }
        let mut next = (c + 1) % len;
        let ghost mut p: int = c + 1;
        if next <= c {
            assert(m.wraps_at(p));
            self.cycle_count = self.cycle_count + 1;
            if self.stop_at_cycle_end {
                self.stop_at_cycle_end = false;
                self.exhausted = true;
                proof {
                    lemma_first_end_unique(m, p);
                }
                return AdvanceResult::CycleCompleteStop;
            }
        }
        let mut scanned: usize = 0;
        loop
            invariant
                m == old(self)@,
                m.n() == len,
                m.wf(),
                !m.exhausted,
                m.samples_remaining == 0,
                0 < len,
                c == m.current_index,
                c < len,
                p == c + 1 + scanned,
                scanned <= len,
                next == m.index_at(p),
                self.cycle_count == m.count_at(p),
                self.items@ == m.items,
                self.current_index == c,
                self.samples_remaining == 0,
                self.stop_at_cycle_end == m.stop_at_cycle_end,
                !self.exhausted,
                !(m.wraps_at(p) && m.stop_at_cycle_end),
                forall|q: int| c + 1 <= q < p ==> !m.ends_at(q),
                p <= m.first_end(),
                m.count_at(m.first_end()) <= u32::MAX,
                m.ends_at(m.first_end()),
                m.first_end() <= m.last_pos(),
                m.current_index + 1 <= m.first_end(),
                forall|q: int| c + 1 <= q < m.first_end() ==> !m.ends_at(q),
            decreases len - scanned,
        {
            if scanned >= len {
                self.exhausted = true;
                proof {
                    lemma_first_end_unique(m, p);
                }
                return AdvanceResult::AllExhausted;
            }
            let skip = self.cycle_count > 0 && self.items[next].oneshot;
            if !skip {
                proof {
                    lemma_first_end_unique(m, p);
                }
                self.current_index = next;
                self.samples_remaining = self.items[next].duration_frames;
                return AdvanceResult::ItemChanged;
            }
            let prev = next;
            proof {
                if prev + 1 < len {
                    lemma_small_mod((prev + 1) as nat, len as nat);
                } else {
                    lemma_mod_self_0(len as int);
                }
            }
            next = (next + 1) % len;
            scanned = scanned + 1;
            proof {
                p = p + 1;
            }
            if next <= prev {
                assert(m.wraps_at(p));
                assert(p <= m.first_end());
                self.cycle_count = self.cycle_count + 1;
                if self.stop_at_cycle_end {
                    self.stop_at_cycle_end = false;
                    self.exhausted = true;
                    proof {
                        lemma_first_end_unique(m, p);
                    }
                    return AdvanceResult::CycleCompleteStop;
                }
            }
        }
    }
}

/// Once exhausted, the scheduler reports no change and stays as it is.
pub proof fn lemma_exhausted_is_final<D>(m: SchedulerModel<D>)
    requires
        m.exhausted,
    ensures
        m.advance() == (m, AdvanceResult::NoChange),
{
}

/// A model where, once the first iteration is over, the current item is not
/// one-shot (unless the scheduler is exhausted).
pub open spec fn oneshot_done<D>(m: SchedulerModel<D>) -> bool {
    m.n() > 0 && m.cycle_count > 0 && !m.exhausted ==> !m.items[m.current_index as int].oneshot
}

/// One-shot items play only during the first iteration: a frame never makes a
/// one-shot item current once the first iteration is over, so this property
/// holds at the start of a cycle and is kept by every frame.
pub proof fn lemma_oneshot_only_first_iteration<D>(m: SchedulerModel<D>)
    requires
        m.wf(),
        oneshot_done(m),
    ensures
        oneshot_done(m.advance().0),
        m.advance().1 == AdvanceResult::ItemChanged ==> {
            let m2 = m.advance().0;
            m2.cycle_count == 0 || !m2.items[m2.current_index as int].oneshot
        },
{
    if m.moves() {
        let z = m.settled();
        lemma_first_end_from(z, z.current_index as int + 1);
    }
}

/// The start of a cycle has no one-shot item current after the first iteration.
pub proof fn lemma_start_oneshot_done<D>(items: Seq<CycleItem<D>>)
    ensures
        oneshot_done(SchedulerModel::start(items)),
        SchedulerModel::start(items).wf(),
{
}

/// A frame keeps the model well-formed.
pub proof fn lemma_advance_wf<D>(m: SchedulerModel<D>)
    requires
        m.wf(),
        m.advance_fits(),
    ensures
        m.advance().0.wf(),
{
    if m.moves() {
        let z = m.settled();
        lemma_first_end_from(z, z.current_index as int + 1);
    }
}

/// During the first iteration the items play in order, one-shot or not.
pub proof fn lemma_first_iteration_in_order<D>(m: SchedulerModel<D>)
    requires
        m.wf(),
        m.moves(),
        m.cycle_count == 0,
        m.current_index + 1 < m.n(),
    ensures
        m.advance().1 == AdvanceResult::ItemChanged,
        m.advance().0.current_index == m.current_index + 1,
        m.advance().0.cycle_count == 0,
{
    let z = m.settled();
    lemma_first_end_unique(z, z.current_index as int + 1);
}

/// Without one-shot items and without a stop request, the cycle loops
/// forever: each item hands over to the next, the last to the first, and the
/// cycle count grows by one at each wrap. A single item stays current.
pub proof fn lemma_plain_cycle<D>(m: SchedulerModel<D>)
    requires
        m.wf(),
        m.moves(),
        !m.stop_at_cycle_end,
        forall|i: int| 0 <= i < m.n() ==> !(#[trigger] m.items[i]).oneshot,
    ensures
        m.advance().1 == AdvanceResult::ItemChanged,
        m.current_index + 1 < m.n() ==> m.advance().0.current_index == m.current_index + 1
            && m.advance().0.cycle_count == m.cycle_count,
        m.current_index + 1 == m.n() ==> m.advance().0.current_index == 0
            && m.advance().0.cycle_count == m.cycle_count + 1,
{
    let z = m.settled();
    assert(!z.items[z.index_at(z.current_index as int + 1)].oneshot);
    lemma_first_end_unique(z, z.current_index as int + 1);
}

/// A graceful stop never lets a new iteration begin: the frame either moves
/// forward within the iteration or, at the wrap, stops.
pub proof fn lemma_graceful_stop<D>(m: SchedulerModel<D>)
    requires
        m.wf(),
        m.moves(),
        m.stop_at_cycle_end,
    ensures
        m.advance().1 == AdvanceResult::ItemChanged || m.advance().1
            == AdvanceResult::CycleCompleteStop,
        m.advance().1 == AdvanceResult::ItemChanged ==> m.advance().0.cycle_count
            == m.cycle_count && m.advance().0.current_index > m.current_index,
        m.advance().1 == AdvanceResult::CycleCompleteStop ==> m.advance().0.cycle_count
            == m.cycle_count + 1 && m.advance().0.exhausted && !m.advance().0.stop_at_cycle_end,
{
    let z = m.settled();
    lemma_first_end_from(z, z.current_index as int + 1);
    assert(z.ends_at(z.n()));
}

/// When every item is one-shot and no stop is requested, the scheduler is
/// exhausted as soon as the first iteration is over.
pub proof fn lemma_all_oneshot_exhausts<D>(m: SchedulerModel<D>)
    requires
        m.wf(),
        m.moves(),
        !m.stop_at_cycle_end,
        m.cycle_count > 0 || m.current_index + 1 == m.n(),
        forall|i: int| 0 <= i < m.n() ==> (#[trigger] m.items[i]).oneshot,
    ensures
        m.advance().1 == AdvanceResult::AllExhausted,
        m.advance().0.exhausted,
{
    let z = m.settled();
    assert forall|q: int| z.current_index as int + 1 <= q < z.last_pos() implies !z.ends_at(q) by {
        assert(z.items[z.index_at(q)].oneshot);
    }
    lemma_first_end_unique(z, z.last_pos());
}

/// The state after `k` frames.
pub open spec fn advance_times<D>(m: SchedulerModel<D>, k: nat) -> SchedulerModel<D>
    decreases k,
{
    if k == 0 {
        m
    } else {
        advance_times(m, (k - 1) as nat).advance().0
    }
}

/// Each item lasts its duration: with `r >= 1` frames remaining, the next
/// `r - 1` frames report no change and count down, and the `r`-th frame ends
/// the item.
pub proof fn lemma_item_lasts_its_duration<D>(m: SchedulerModel<D>, k: nat)
    requires
        m.n() > 0,
        !m.exhausted,
        k < m.samples_remaining,
    ensures
        advance_times(m, k) == (SchedulerModel {
            samples_remaining: (m.samples_remaining - k) as nat,
            ..m
        }),
        k + 1 < m.samples_remaining ==> advance_times(m, k).advance().1 == AdvanceResult::NoChange,
        k + 1 == m.samples_remaining ==> advance_times(m, k).moves(),
    decreases k,
{
    if k > 0 {
        lemma_item_lasts_its_duration(m, (k - 1) as nat);
    }
}

/// After a frame that changes the item, the tone takes the new current
/// item's delta.
pub proof fn lemma_item_change_sets_delta<D>(m: SchedulerModel<D>)
    requires
        m.wf(),
        m.advance_fits(),
        m.advance().1 == AdvanceResult::ItemChanged,
    ensures
        ({
            let m2 = m.advance().0;
            tone_action(m2, AdvanceResult::ItemChanged) == ToneAction::SetDelta(
                m2.items[m2.current_index as int].frequency_delta,
            )
        }),
{
}

/// After a frame that changes the item, the new item is one of the items,
/// its countdown is its own duration, and the tone's delta is its delta; the
/// items themselves are unchanged.
pub proof fn lemma_new_item_runs_its_duration<D>(m: SchedulerModel<D>)
    requires
        m.wf(),
        m.advance().1 == AdvanceResult::ItemChanged,
    ensures
        ({
            let m2 = m.advance().0;
            &&& m2.items == m.items
            &&& m2.current_index < m2.items.len()
            &&& m2.samples_remaining == m2.items[m2.current_index as int].duration_frames
            &&& m2.current_delta() == Some(m2.items[m2.current_index as int].frequency_delta)
            &&& !m2.exhausted
            &&& m2.stop_at_cycle_end == m.stop_at_cycle_end
        }),
{
    let z = m.settled();
    lemma_first_end_from(z, z.current_index as int + 1);
}

/// A cycle starts at its first item with that item's duration, in the first
/// iteration, with no stop requested and not exhausted.
pub proof fn lemma_start_at_first_item<D>(items: Seq<CycleItem<D>>)
    ensures
        SchedulerModel::start(items).items == items,
        SchedulerModel::start(items).current_index == 0,
        SchedulerModel::start(items).cycle_count == 0,
        !SchedulerModel::start(items).stop_at_cycle_end,
        !SchedulerModel::start(items).exhausted,
        items.len() > 0 ==> SchedulerModel::start(items).samples_remaining == items[0].duration_frames
            && SchedulerModel::start(items).current_delta() == Some(items[0].frequency_delta),
        items.len() == 0 ==> SchedulerModel::start(items).current_delta() is None,
{
}

/// A frame that changes the item moves to the next item in cycle order that
/// is played: every item passed over on the way is one-shot, passed over
/// after the first iteration. Without a wrap the cycle count stays; with a
/// wrap it grows by one.
pub proof fn lemma_item_change_skips_only_oneshots<D>(m: SchedulerModel<D>)
    requires
        m.wf(),
        m.moves(),
        m.advance().1 == AdvanceResult::ItemChanged,
    ensures
        ({
            let m2 = m.advance().0;
            let c = m.current_index as int;
            let c2 = m2.current_index as int;
            &&& c2 < m.n()
            &&& m2.cycle_count == 0 || !m2.items[c2].oneshot
            &&& c < c2 ==> {
                &&& m2.cycle_count == m.cycle_count
                &&& forall|j: int| c < j < c2 ==> m.cycle_count > 0 && (#[trigger] m.items[j]).oneshot
            }
            &&& c2 <= c ==> {
                &&& m2.cycle_count == m.cycle_count + 1
                &&& forall|j: int| c < j < m.n() ==> m.cycle_count > 0 && (#[trigger] m.items[j]).oneshot
                &&& forall|j: int| 0 <= j < c2 ==> (#[trigger] m.items[j]).oneshot
            }
        }),
{
    let z = m.settled();
    let c = z.current_index as int;
    lemma_first_end_from(z, c + 1);
    let p = z.first_end();
    assert forall|q: int| c + 1 <= q < p implies z.skipped_at(q) by {
        assert(!z.ends_at(q));
    }
    if p < z.n() {
        assert forall|j: int| c < j < p implies m.cycle_count > 0 && (#[trigger] m.items[j]).oneshot by {
            assert(z.skipped_at(j));
        }
    } else {
        assert forall|j: int| c < j < m.n() implies m.cycle_count > 0 && (#[trigger] m.items[j]).oneshot by {
            assert(z.skipped_at(j));
        }
        assert forall|j: int| 0 <= j < p - m.n() implies (#[trigger] m.items[j]).oneshot by {
            assert(z.skipped_at(j + m.n()));
        }
    }
}

} // verus!

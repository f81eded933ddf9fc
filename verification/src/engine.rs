//! Layer registry of the soundscape engine: one base layer, up to
//! [`MAX_TEXTURE_LAYERS`] texture layers and the random-event system.
//!
//! Textures and events require a base layer; clearing the base clears them
//! too. The tone generator, the gains and the mixing are the caller's.

use vstd::prelude::*;
use crate::event_player::{EventSystem, EventSystemModel, initial_events, lemma_registered_zero};
use crate::event_scheduler::MAX_EVENT_SLOTS;
use crate::pcm::{LayerError, split_channels, carries_channels, lemma_split_channels};
use crate::sample_player::{PlayerFrame, PlayerModel, SamplePlayer, DEFAULT_CROSSFADE_FRAMES};

verus! {

/// Maximum number of texture layers.
pub const MAX_TEXTURE_LAYERS: usize = 3;

/// Seed of the random-event generator.
pub const EVENT_SCHEDULER_SEED: u64 = 0xDEAD_BEEF_CAFE_1337;

/// Abstract state of a [`Layers`] registry.
pub struct LayersModel<S> {
    pub base: Option<PlayerModel<S>>,
    pub textures: Seq<Option<PlayerModel<S>>>,
    pub events: EventSystemModel<S>,
}

/// A freshly loaded player holding the given PCM data with the default
/// crossfade, or why the data was refused.
pub open spec fn loaded_player<S>(data: Seq<S>, channels: u32) -> Result<PlayerModel<S>, LayerError> {
    if data.len() == 0 {
        Err(LayerError::EmptyData)
    } else {
        match split_channels(data, channels as usize) {
            Some((left, right)) => Ok(
                PlayerModel {
                    left,
                    right,
                    position: 0,
                    loaded: left.len() > 0,
                    crossfade_frames: DEFAULT_CROSSFADE_FRAMES as nat,
                },
            ),
            None => Err(LayerError::UnsupportedChannels(channels as usize)),
        }
    }
}

impl<S> LayersModel<S> {
    /// Three texture positions and a well-formed event system.
    pub open spec fn wf(self) -> bool {
        &&& self.textures.len() == MAX_TEXTURE_LAYERS
        &&& self.events.wf()
    }

    /// No layer at all: no base, no texture, no event.
    pub open spec fn is_cleared(self) -> bool {
        &&& self.base is None
        &&& forall|i: int| 0 <= i < self.textures.len() ==> (#[trigger] self.textures[i]) is None
        &&& self.events.active is None
        &&& self.events.slot_count() == 0
    }

    /// The registry once every layer is removed.
    pub open spec fn cleared(self) -> LayersModel<S> {
        LayersModel {
            base: None,
            textures: Seq::new(MAX_TEXTURE_LAYERS as nat, |i: int| None::<PlayerModel<S>>),
            events: self.events.clear_all(),
        }
    }

    /// Setting a texture layer: refused when the index is out of range, then
    /// when no base layer is set, then when the data is refused.
    pub open spec fn set_texture_layer(self, index: usize, data: Seq<S>, channels: u32) -> (
        LayersModel<S>,
        Result<(), LayerError>,
    ) {
        if index >= MAX_TEXTURE_LAYERS {
            (self, Err(LayerError::IndexOutOfRange { index, max: MAX_TEXTURE_LAYERS }))
        } else if self.base is None {
            (self, Err(LayerError::BaseRequired))
        } else {
            match loaded_player(data, channels) {
                Ok(p) => (
                    LayersModel { textures: self.textures.update(index as int, Some(p)), ..self },
                    Ok(()),
                ),
                Err(e) => (self, Err(e)),
            }
        }
    }

    /// Registering an event: refused without a base layer, otherwise as the
    /// event system decides.
    pub open spec fn set_event(
        self,
        index: usize,
        samples: Seq<S>,
        channels: u32,
        min_interval_ms: u32,
        max_interval_ms: u32,
        draws_volume: bool,
        draws_pan: bool,
    ) -> (LayersModel<S>, Result<Option<u64>, LayerError>) {
        if self.base is None {
            (self, Err(LayerError::BaseRequired))
        } else {
            let (ev, r) = self.events.set_event(
                index,
                samples,
                channels,
                min_interval_ms,
                max_interval_ms,
                draws_volume,
                draws_pan,
            );
            (LayersModel { events: ev, ..self }, r)
        }
    }
}

/// The layers of the engine.
pub struct Layers<S> {
    base: Option<SamplePlayer<S>>,
    textures: Vec<Option<SamplePlayer<S>>>,
    events: EventSystem<S>,
}

/// The abstract player of an optional player.
pub open spec fn player_model<S>(o: Option<SamplePlayer<S>>) -> Option<PlayerModel<S>> {
    match o {
        Some(p) => Some(p@),
        None => None,
    }
}

impl<S> View for Layers<S> {
    type V = LayersModel<S>;

    closed spec fn view(&self) -> LayersModel<S> {
        LayersModel {
            base: player_model(self.base),
            textures: self.textures@.map_values(|o: Option<SamplePlayer<S>>| player_model(o)),
            events: self.events@,
        }
    }
}

impl<S: Copy> Layers<S> {
    /// No layer, and an event system seeded with [`EVENT_SCHEDULER_SEED`].
    pub fn new() -> (r: Self)
        ensures
            r@.wf(),
            r@.is_cleared(),
            r@.events == initial_events::<S>(EVENT_SCHEDULER_SEED),
    {
        let mut textures: Vec<Option<SamplePlayer<S>>> = Vec::new();
        let mut i: usize = 0;
        while i < MAX_TEXTURE_LAYERS
            invariant
                i <= MAX_TEXTURE_LAYERS,
                textures@.len() == i,
                forall|j: int| 0 <= j < i ==> (#[trigger] textures@[j]) is None,
            decreases MAX_TEXTURE_LAYERS - i,
        {
            textures.push(None);
            i = i + 1;
        }
        Layers { base: None, textures, events: EventSystem::new(EVENT_SCHEDULER_SEED) }
    }

    /// A player loaded with the given PCM data.
    fn load_player(data: &[S], channels: u32) -> (r: Result<SamplePlayer<S>, LayerError>)
        ensures
            match r {
                Ok(p) => loaded_player(data@, channels) == Ok::<PlayerModel<S>, LayerError>(p@),
                Err(e) => loaded_player::<S>(data@, channels) == Err::<PlayerModel<S>, LayerError>(e),
            },
    {
        let mut player = SamplePlayer::new();
        match player.load_raw_pcm(data, channels) {
            Ok(()) => Ok(player),
            Err(e) => Err(e),
        }
    }

    /// Set the base layer from interleaved PCM data; `channels` must be 1 or
    /// 2. On error nothing changes.
    pub fn set_base_layer(&mut self, data: &[S], channels: u32) -> (r: Result<(), LayerError>)
        requires
            old(self)@.wf(),
        ensures
            final(self)@.wf(),
            match loaded_player(data@, channels) {
                Ok(p) => r is Ok && final(self)@ == (LayersModel { base: Some(p), ..old(self)@ }),
                Err(e) => r == Err::<(), LayerError>(e) && final(self)@ == old(self)@,
            },
    {
        let player = match Self::load_player(data, channels) {
            Ok(p) => p,
            Err(e) => {
                return Err(e);
            },
        };
        self.base = Some(player);
        Ok(())
    }

    /// Remove all layers: base, textures and events.
    fn clear_layers(&mut self)
        requires
            old(self)@.wf(),
        ensures
            final(self)@.wf(),
            final(self)@ == old(self)@.cleared(),
            final(self)@.is_cleared(),
    {
        self.base = None;
        let mut i: usize = 0;
        while i < self.textures.len()
            invariant
                i <= self.textures.len(),
                self.textures@.len() == MAX_TEXTURE_LAYERS,
                forall|j: int| 0 <= j < i ==> (#[trigger] self.textures@[j]) is None,
                self.events@ == old(self)@.events,
                self.events@.wf(),
                self.base is None,
            decreases self.textures.len() - i,
        {
            self.textures.set(i, None);
            i = i + 1;
        }
        self.events.clear_all();
        proof {
            lemma_registered_zero(self@.events.slots, MAX_EVENT_SLOTS as int);
            assert(self@.textures == old(self)@.cleared().textures);
        }
    }

    /// Remove the base layer; the textures and events, which require it, go
    /// too.
    pub fn clear_base_layer(&mut self)
        requires
            old(self)@.wf(),
        ensures
            final(self)@.wf(),
            final(self)@ == old(self)@.cleared(),
            final(self)@.is_cleared(),
    {
        self.clear_layers();
    }

    /// Remove all layers (base, textures, events).
    pub fn clear_all_layers(&mut self)
        requires
            old(self)@.wf(),
        ensures
            final(self)@.wf(),
            final(self)@ == old(self)@.cleared(),
            final(self)@.is_cleared(),
    {
        self.clear_layers();
    }

    /// Set texture layer `index` from interleaved PCM data. Refused when the
    /// index is out of range, then when no base layer is set, then when the
    /// data is refused; on error nothing changes.
    pub fn set_texture_layer(&mut self, index: usize, data: &[S], channels: u32) -> (r: Result<
        (),
        LayerError,
    >)
        requires
            old(self)@.wf(),
        ensures
            final(self)@.wf(),
            (final(self)@, r) == old(self)@.set_texture_layer(index, data@, channels),
    {
        if index >= MAX_TEXTURE_LAYERS {
            return Err(LayerError::IndexOutOfRange { index, max: MAX_TEXTURE_LAYERS });
        }
        if self.base.is_none() {
            return Err(LayerError::BaseRequired);
        }
        let player = match Self::load_player(data, channels) {
            Ok(p) => p,
            Err(e) => {
                return Err(e);
            },
        };
        let ghost before = self@;
        let ghost pm = player@;
        self.textures.set(index, Some(player));
        proof {
            assert(self@.textures == before.textures.update(index as int, Some(pm)));
        }
        Ok(())
    }

    /// Remove texture layer `index`, if the index is in range.
    pub fn clear_texture_layer(&mut self, index: usize)
        requires
            old(self)@.wf(),
        ensures
            final(self)@.wf(),
            index < MAX_TEXTURE_LAYERS ==> final(self)@ == (LayersModel {
                textures: old(self)@.textures.update(index as int, None),
                ..old(self)@
            }),
            index >= MAX_TEXTURE_LAYERS ==> final(self)@ == old(self)@,
    {
        if index < MAX_TEXTURE_LAYERS {
            let ghost before = self@;
            self.textures.set(index, None);
            proof {
                assert(self@.textures == before.textures.update(index as int, None));
            }
        }
    }

    /// Register a random event in slot `index`; refused when no base layer is
    /// set, otherwise as the event system decides. Returns the interval (in
    /// milliseconds) to arm the event countdown with, if one was drawn.
    pub fn set_event(
        &mut self,
        index: usize,
        samples: &[S],
        channels: u32,
        min_interval_ms: u32,
        max_interval_ms: u32,
        draws_volume: bool,
        draws_pan: bool,
    ) -> (r: Result<Option<u64>, LayerError>)
        requires
            old(self)@.wf(),
        ensures
            final(self)@.wf(),
            (final(self)@, r) == old(self)@.set_event(
                index,
                samples@,
                channels,
                min_interval_ms,
                max_interval_ms,
                draws_volume,
                draws_pan,
            ),
    {
        if self.base.is_none() {
            return Err(LayerError::BaseRequired);
        }
        self.events.set_event(
            index,
            samples,
            channels,
            min_interval_ms,
            max_interval_ms,
            draws_volume,
            draws_pan,
        )
    }

    /// Remove the event of slot `index`. Returns the interval (in
    /// milliseconds) to arm the event countdown with, if one was drawn.
    pub fn clear_event(&mut self, index: usize) -> (r: Option<u64>)
        requires
            old(self)@.wf(),
        ensures
            final(self)@.wf(),
            r == old(self)@.events.clear_event(index).1,
            final(self)@ == (LayersModel { events: old(self)@.events.clear_event(index).0, ..old(self)@ }),
    {
        self.events.clear_event(index)
    }

    /// Whether a base layer is set.
    pub fn has_base_layer(&self) -> (r: bool)
        ensures
            r == self@.base is Some,
    {
        self.base.is_some()
    }

    /// The next frame of the base layer; silence without one.
    pub fn base_frame(&mut self) -> (r: PlayerFrame<S>)
        requires
            old(self)@.wf(),
        ensures
            final(self)@.wf(),
            match old(self)@.base {
                Some(p) => r == p.frame() && final(self)@ == (LayersModel {
                    base: Some(PlayerModel { position: p.next_position(), ..p }),
                    ..old(self)@
                }),
                None => r == PlayerFrame::<S>::Silence && final(self)@ == old(self)@,
            },
    {
        match &mut self.base {
            Some(p) => p.next_frame(),
            None => PlayerFrame::Silence,
        }
    }

    /// The next frame of texture layer `index`; silence without one.
    pub fn texture_frame(&mut self, index: usize) -> (r: PlayerFrame<S>)
        requires
            old(self)@.wf(),
            index < MAX_TEXTURE_LAYERS,
        ensures
            final(self)@.wf(),
            match old(self)@.textures[index as int] {
                Some(p) => r == p.frame() && final(self)@ == (LayersModel {
                    textures: old(self)@.textures.update(
                        index as int,
                        Some(PlayerModel { position: p.next_position(), ..p }),
                    ),
                    ..old(self)@
                }),
                None => r == PlayerFrame::<S>::Silence && final(self)@ == old(self)@,
            },
    {
        let ghost before = self@;
        let r = match &mut self.textures[index] {
            Some(p) => p.next_frame(),
            None => PlayerFrame::Silence,
        };
        proof {
            assert(self@.textures =~= (match before.textures[index as int] {
                Some(p) => before.textures.update(
                    index as int,
                    Some(PlayerModel { position: p.next_position(), ..p }),
                ),
                None => before.textures,
            }));
        }
        r
    }

    /// The event system.
    pub fn events(&self) -> (r: &EventSystem<S>)
        ensures
            r@ == self@.events,
    {
        &self.events
    }

    /// The event system, for the per-frame event steps.
    pub fn events_mut(&mut self) -> (r: &mut EventSystem<S>)
        requires
            old(self)@.wf(),
        ensures
            r@ == old(self)@.events,
            final(self)@ == (LayersModel { events: final(r)@, ..old(self)@ }),
    {
        &mut self.events
    }
}

/// Textures and events require a base layer: without one, adding either (with
/// a texture index in range) is refused with [`LayerError::BaseRequired`] and
/// nothing changes.
pub proof fn lemma_base_required<S>(
    m: LayersModel<S>,
    index: usize,
    data: Seq<S>,
    channels: u32,
    min_interval_ms: u32,
    max_interval_ms: u32,
    draws_volume: bool,
    draws_pan: bool,
)
    requires
        m.base is None,
    ensures
        index < MAX_TEXTURE_LAYERS ==> m.set_texture_layer(index, data, channels) == (
            m,
            Err::<(), LayerError>(LayerError::BaseRequired),
        ),
        m.set_event(index, data, channels, min_interval_ms, max_interval_ms, draws_volume, draws_pan)
            == (m, Err::<Option<u64>, LayerError>(LayerError::BaseRequired)),
{
}

/// Clearing the base layer leaves no texture and no event, and stops any
/// playing event.
pub proof fn lemma_clear_base_clears_dependents<S>(m: LayersModel<S>)
    ensures
        m.cleared().is_cleared(),
        m.cleared().events.active is None,
        !m.cleared().events.scheduler.enabled,
{
    lemma_registered_zero(m.cleared().events.slots, MAX_EVENT_SLOTS as int);
}

/// A layer player accepts exactly non-empty mono or stereo data; it starts
/// at the first frame with the default loop-point crossfade, holds the data
/// on its channels, and is loaded when it holds a frame.
pub proof fn lemma_layer_player<S>(data: Seq<S>, channels: u32)
    ensures
        loaded_player(data, channels) is Ok <==> data.len() > 0 && (channels == 1 || channels == 2),
        data.len() == 0 ==> loaded_player(data, channels) == Err::<PlayerModel<S>, LayerError>(
            LayerError::EmptyData,
        ),
        data.len() > 0 && channels != 1 && channels != 2 ==> loaded_player(data, channels) == Err::<
            PlayerModel<S>,
            LayerError,
        >(LayerError::UnsupportedChannels(channels as usize)),
        loaded_player(data, channels) matches Ok(p) ==> {
            &&& p.crossfade_frames == DEFAULT_CROSSFADE_FRAMES
            &&& p.position == 0
            &&& p.loaded == (p.left.len() > 0)
            &&& carries_channels(p.left, p.right, data, channels as usize)
        },
{
    lemma_split_channels(data, channels as usize);
}

/// Setting a texture layer with a base layer present and an index in range
/// loads exactly that texture position, with the same player a base layer
/// would get; the base, the other textures and the events stay as they are.
/// An index out of range is refused first, and a refusal changes nothing.
pub proof fn lemma_set_texture_stores_layer<S>(
    m: LayersModel<S>,
    index: usize,
    data: Seq<S>,
    channels: u32,
)
    requires
        m.wf(),
    ensures
        index >= MAX_TEXTURE_LAYERS ==> m.set_texture_layer(index, data, channels) == (
            m,
            Err::<(), LayerError>(LayerError::IndexOutOfRange { index, max: MAX_TEXTURE_LAYERS }),
        ),
        m.set_texture_layer(index, data, channels).1 is Err ==> m.set_texture_layer(
            index,
            data,
            channels,
        ).0 == m,
        index < MAX_TEXTURE_LAYERS && m.base is Some ==> {
            let (m2, r) = m.set_texture_layer(index, data, channels);
            &&& r is Ok <==> data.len() > 0 && (channels == 1 || channels == 2)
            &&& r is Ok ==> {
                &&& m2.textures[index as int] matches Some(p)
                    && p.crossfade_frames == DEFAULT_CROSSFADE_FRAMES
                    && p.position == 0
                    && p.loaded == (p.left.len() > 0)
                    && carries_channels(p.left, p.right, data, channels as usize)
                &&& m2.base == m.base
                &&& m2.events == m.events
                &&& m2.textures.len() == m.textures.len()
                &&& forall|j: int| 0 <= j < m.textures.len() && j != index ==> m2.textures[j] == m.textures[j]
            }
        },
{
    lemma_layer_player(data, channels);
}

} // verus!

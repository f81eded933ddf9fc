//! Looping ambient sound player (rain, white noise, ...) without crossfade.
//!
//! Sample values are opaque; the player hands out the raw frame of each
//! position and loops at the end of the buffer.

use vstd::prelude::*;
use crate::pcm::copy_samples;

verus! {

/// Abstract state of a [`RainPlayer`].
pub struct RainModel<S> {
    pub left: Seq<S>,
    pub right: Seq<S>,
    pub position: nat,
    pub loaded: bool,
}

impl<S> RainModel<S> {
    /// Both channels have the same length, the player is loaded exactly when
    /// the buffer is non-empty, and the position lies in the buffer.
    pub open spec fn wf(self) -> bool {
        &&& self.right.len() == self.left.len()
        &&& self.left.len() <= usize::MAX
        &&& self.loaded == (self.left.len() > 0)
        &&& self.loaded ==> self.position < self.left.len()
        &&& !self.loaded ==> self.position == 0
    }

    /// The player holding the given buffers, at the start.
    pub open spec fn holding(left: Seq<S>, right: Seq<S>) -> RainModel<S> {
        RainModel { left, right, position: 0, loaded: left.len() > 0 }
    }

    /// The frame at the current position; none (silence) when nothing is
    /// loaded.
    pub open spec fn frame(self) -> Option<(S, S)> {
        if self.loaded {
            Some((self.left[self.position as int], self.right[self.position as int]))
        } else {
            None
        }
    }

    /// The position after the current frame, wrapping at the end.
    pub open spec fn next_position(self) -> nat {
        if !self.loaded {
            self.position
        } else if self.position + 1 >= self.left.len() {
            0
        } else {
            self.position + 1
        }
    }
}

/// Looping sample player for ambient audio.
pub struct RainPlayer<S> {
    buffer_left: Vec<S>,
    buffer_right: Vec<S>,
    position: usize,
    loaded: bool,
}

impl<S> View for RainPlayer<S> {
    type V = RainModel<S>;

    closed spec fn view(&self) -> RainModel<S> {
        RainModel {
            left: self.buffer_left@,
            right: self.buffer_right@,
            position: self.position as nat,
            loaded: self.loaded,
        }
    }
}

impl<S> RainPlayer<S> {
    #[verifier::type_invariant]
    closed spec fn inv(&self) -> bool {
        self@.wf()
    }
}

impl<S: Copy> RainPlayer<S> {
    /// Create an empty player with no audio loaded.
    pub fn new() -> (r: Self)
        ensures
            r@ == RainModel::<S>::holding(Seq::empty(), Seq::empty()),
    {
        RainPlayer { buffer_left: Vec::new(), buffer_right: Vec::new(), position: 0, loaded: false }
    }

    /// Load mono samples, played on both channels.
    pub fn load_raw_mono(&mut self, samples: Vec<S>)
        ensures
            final(self)@ == RainModel::holding(samples@, samples@),
    {
        let right = copy_samples(samples.as_slice());
        let loaded = samples.len() > 0;
        *self = RainPlayer { buffer_left: samples, buffer_right: right, position: 0, loaded };
    }

    /// Load separate left and right channels of equal length.
    pub fn load_raw_stereo(&mut self, left: Vec<S>, right: Vec<S>)
        requires
            left@.len() == right@.len(),
        ensures
            final(self)@ == RainModel::holding(left@, right@),
    {
        let loaded = left.len() > 0;
        *self = RainPlayer { buffer_left: left, buffer_right: right, position: 0, loaded };
    }

    /// Fetch the next frame, looping at the end of the buffer; `None`
    /// (silence) when nothing is loaded.
    pub fn next_sample(&mut self) -> (r: Option<(S, S)>)
        ensures
            r == old(self)@.frame(),
            final(self)@ == (RainModel { position: old(self)@.next_position(), ..old(self)@ }),
    {
        proof {
            use_type_invariant(&*self);
        }
        if !self.loaded {
            return None;
        }
        let left = self.buffer_left[self.position];
        let right = self.buffer_right[self.position];
        if self.position + 1 >= self.buffer_left.len() {
            self.position = 0;
        } else {
            self.position = self.position + 1;
        }
        Some((left, right))
    }

    /// Reset the playback position to the start.
    pub fn reset(&mut self)
        ensures
            final(self)@ == (RainModel { position: 0, ..old(self)@ }),
    {
        proof {
            use_type_invariant(&*self);
        }
        self.position = 0;
    }

    /// Whether audio data is loaded.
    pub fn is_loaded(&self) -> (r: bool)
        ensures
            r == self@.loaded,
    {
        self.loaded
    }

    /// Number of frames in the buffer.
    pub fn len(&self) -> (r: usize)
        ensures
            r == self@.left.len(),
    {
        self.buffer_left.len()
    }

    /// Whether the buffer is empty.
    pub fn is_empty(&self) -> (r: bool)
        ensures
            r == (self@.left.len() == 0),
    {
        self.buffer_left.len() == 0
    }
}

impl<S: Copy> Default for RainPlayer<S> {
    fn default() -> (r: Self)
        ensures
            r@ == RainModel::<S>::holding(Seq::empty(), Seq::empty()),
    {
        Self::new()
    }
}

/// The rain player loops plainly: each frame reads the buffer at the current
/// position, which then moves on modulo the buffer length, never leaving it.
pub proof fn lemma_rain_loop<S>(m: RainModel<S>)
    requires
        m.wf(),
        m.loaded,
    ensures
        m.frame() == Some((m.left[m.position as int], m.right[m.position as int])),
        m.next_position() == (m.position + 1) % m.left.len(),
        (RainModel { position: m.next_position(), ..m }).wf(),
{
    if m.position + 1 < m.left.len() {
        vstd::arithmetic::div_mod::lemma_small_mod((m.position + 1) as nat, m.left.len());
    } else {
        vstd::arithmetic::div_mod::lemma_mod_self_0(m.left.len() as int);
    }
}

} // verus!

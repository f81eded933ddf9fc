//! Looping sample player for the base and texture layers, with a loop-point
//! crossfade: near the end of the buffer the tail is blended with the head,
//! and after the wrap playback resumes past the blended head region.
//!
//! Sample values are opaque; the player reports which samples make up each
//! output frame and with what crossfade weight, and the caller blends them.

use vstd::prelude::*;
use crate::pcm::{LayerError, split_channels, split_pcm, copy_samples};

verus! {

/// Default crossfade length in sample frames (about 42 ms at 48 kHz).
pub const DEFAULT_CROSSFADE_FRAMES: usize = 2048;

/// What makes up one output frame.
#[derive(Debug, Clone, Copy, PartialEq, Eq)]
pub enum PlayerFrame<S> {
    /// Nothing is loaded: the frame is silent.
    Silence,
    /// The frame is the buffer's samples at the current position.
    Direct { left: S, right: S },
    /// Inside the crossfade region: the tail samples weighted by
    /// `1 - step / span`, plus the head samples weighted by `step / span`.
    Crossfade { tail_left: S, tail_right: S, head_left: S, head_right: S, step: usize, span: usize },
}

/// Abstract state of a [`SamplePlayer`].
pub struct PlayerModel<S> {
    pub left: Seq<S>,
    pub right: Seq<S>,
    pub position: nat,
    pub loaded: bool,
    pub crossfade_frames: nat,
}

/// The crossfade length actually used for a buffer of `len` frames: none for
/// buffers shorter than 4 frames, and never more than half the buffer.
pub open spec fn effective_crossfade(len: nat, crossfade_frames: nat) -> nat {
    if len < 4 {
        0
    } else if crossfade_frames < len / 2 {
        crossfade_frames
    } else {
        len / 2
    }
}

impl<S> PlayerModel<S> {
    /// Number of frames in the buffer.
    pub open spec fn len(self) -> nat {
        self.left.len()
    }

    /// The crossfade length in use.
    pub open spec fn crossfade(self) -> nat {
        effective_crossfade(self.len(), self.crossfade_frames)
    }

    /// Both channels have the same length, the player is loaded exactly when
    /// the buffer is non-empty, and the position lies in the buffer.
    pub open spec fn wf(self) -> bool {
        &&& self.right.len() == self.left.len()
        &&& self.len() <= usize::MAX
        &&& self.loaded == (self.len() > 0)
        &&& self.loaded ==> self.position < self.len()
        &&& !self.loaded ==> self.position == 0
    }

    /// The player after new buffers were stored: back at the start, loaded
    /// when the buffers hold a frame.
    pub open spec fn with_buffers(self, left: Seq<S>, right: Seq<S>) -> PlayerModel<S> {
        PlayerModel { left, right, position: 0, loaded: left.len() > 0, ..self }
    }

    /// The frame at the current position.
    pub open spec fn frame(self) -> PlayerFrame<S> {
        let p = self.position as int;
        let cf = self.crossfade() as int;
        let len = self.len() as int;
        if !self.loaded {
            PlayerFrame::Silence
        } else if cf > 0 && p >= len - cf {
            let head = p - (len - cf);
            PlayerFrame::Crossfade {
                tail_left: self.left[p],
                tail_right: self.right[p],
                head_left: self.left[head],
                head_right: self.right[head],
                step: (head + 1) as usize,
                span: cf as usize,
            }
        } else {
            PlayerFrame::Direct { left: self.left[p], right: self.right[p] }
        }
    }

    /// The position after the current frame: the next one, or past the
    /// crossfaded head region after the end of the buffer.
    pub open spec fn next_position(self) -> nat {
        if !self.loaded {
            self.position
        } else if self.position + 1 >= self.len() {
            self.crossfade()
        } else {
            self.position + 1
        }
    }
}

/// Looping sample player for base and texture layers.
pub struct SamplePlayer<S> {
    buffer_left: Vec<S>,
    buffer_right: Vec<S>,
    position: usize,
    loaded: bool,
    crossfade_frames: usize,
}

impl<S> View for SamplePlayer<S> {
    type V = PlayerModel<S>;

    closed spec fn view(&self) -> PlayerModel<S> {
        PlayerModel {
            left: self.buffer_left@,
            right: self.buffer_right@,
            position: self.position as nat,
            loaded: self.loaded,
            crossfade_frames: self.crossfade_frames as nat,
        }
    }
}

impl<S> SamplePlayer<S> {
    #[verifier::type_invariant]
    closed spec fn inv(&self) -> bool {
        self@.wf()
    }
}

impl<S: Copy> SamplePlayer<S> {
    /// Create an empty player with the default crossfade length.
    pub fn new() -> (r: Self)
        ensures
            r@.left.len() == 0,
            r@.right.len() == 0,
            r@.position == 0,
            !r@.loaded,
            r@.crossfade_frames == DEFAULT_CROSSFADE_FRAMES,
    {
        SamplePlayer {
            buffer_left: Vec::new(),
            buffer_right: Vec::new(),
            position: 0,
            loaded: false,
            crossfade_frames: DEFAULT_CROSSFADE_FRAMES,
        }
    }

    /// Create an empty player with a custom crossfade length.
    pub fn with_crossfade(crossfade_frames: usize) -> (r: Self)
        ensures
            r@.left.len() == 0,
            r@.right.len() == 0,
            r@.position == 0,
            !r@.loaded,
            r@.crossfade_frames == crossfade_frames,
    {
        SamplePlayer {
            buffer_left: Vec::new(),
            buffer_right: Vec::new(),
            position: 0,
            loaded: false,
            crossfade_frames,
        }
    }

    /// Load raw interleaved PCM data; `channels` must be 1 (mono) or 2
    /// (stereo). On error the player is left as it was.
    pub fn load_raw_pcm(&mut self, data: &[S], channels: u32) -> (r: Result<(), LayerError>)
        ensures
            data@.len() == 0 ==> r == Err::<(), LayerError>(LayerError::EmptyData) && final(self)@
                == old(self)@,
            data@.len() > 0 ==> match split_channels(data@, channels as usize) {
                Some((left, right)) => r is Ok && final(self)@ == old(self)@.with_buffers(
                    left,
                    right,
                ),
                None => r == Err::<(), LayerError>(LayerError::UnsupportedChannels(
                    channels as usize,
                )) && final(self)@ == old(self)@,
            },
    {
        if data.len() == 0 {
            return Err(LayerError::EmptyData);
        }
        self.store_samples(data, channels as usize)
    }

    /// Store raw samples into the player buffers.
    fn store_samples(&mut self, data: &[S], channels: usize) -> (r: Result<(), LayerError>)
        ensures
            match split_channels(data@, channels) {
                Some((left, right)) => r is Ok && final(self)@ == old(self)@.with_buffers(left, right),
                None => r == Err::<(), LayerError>(LayerError::UnsupportedChannels(channels))
                    && final(self)@ == old(self)@,
            },
    {
        match split_pcm(data, channels) {
            Ok((left, right)) => {
                let loaded = left.len() > 0;
                *self = SamplePlayer {
                    buffer_left: left,
                    buffer_right: right,
                    position: 0,
                    loaded,
                    crossfade_frames: self.crossfade_frames,
                };
                Ok(())
            },
            Err(e) => Err(e),
        }
    }

    /// Load mono samples, played on both channels.
    pub fn load_raw_mono(&mut self, samples: Vec<S>)
        ensures
            final(self)@ == old(self)@.with_buffers(samples@, samples@),
    {
        let right = copy_samples(samples.as_slice());
        let loaded = samples.len() > 0;
        *self = SamplePlayer {
            buffer_left: samples,
            buffer_right: right,
            position: 0,
            loaded,
            crossfade_frames: self.crossfade_frames,
        };
    }

    /// Load separate left and right channels of equal length.
    pub fn load_raw_stereo(&mut self, left: Vec<S>, right: Vec<S>)
        requires
            left@.len() == right@.len(),
        ensures
            final(self)@ == old(self)@.with_buffers(left@, right@),
    {
        let loaded = left.len() > 0;
        *self = SamplePlayer {
            buffer_left: left,
            buffer_right: right,
            position: 0,
            loaded,
            crossfade_frames: self.crossfade_frames,
        };
    }

    /// The crossfade length used for a buffer of `len` frames.
    fn effective_crossfade(&self, len: usize) -> (r: usize)
        ensures
            r == effective_crossfade(len as nat, self@.crossfade_frames),
    {
        if len < 4 {
            return 0;
        }
        if self.crossfade_frames < len / 2 {
            self.crossfade_frames
        } else {
            len / 2
        }
    }

    /// Fetch the next frame, with loop-point crossfade; silence when nothing
    /// is loaded.
    pub fn next_frame(&mut self) -> (r: PlayerFrame<S>)
        ensures
            r == old(self)@.frame(),
            final(self)@ == (PlayerModel { position: old(self)@.next_position(), ..old(self)@ }),
    {
        proof {
            use_type_invariant(&*self);
        }
        if !self.loaded {
            return PlayerFrame::Silence;
        }
        let len = self.buffer_left.len();
        let cf = self.effective_crossfade(len);
        let p = self.position;
        let frame = if cf > 0 && p >= len - cf {
            let head = p - (len - cf);
            PlayerFrame::Crossfade {
                tail_left: self.buffer_left[p],
                tail_right: self.buffer_right[p],
                head_left: self.buffer_left[head],
                head_right: self.buffer_right[head],
                step: head + 1,
                span: cf,
            }
        } else {
            PlayerFrame::Direct { left: self.buffer_left[p], right: self.buffer_right[p] }
        };
        if p + 1 >= len {
            self.position = cf;
        } else {
            self.position = p + 1;
        }
        frame
    }

    /// Reset the playback position to the start.
    pub fn reset(&mut self)
        ensures
            final(self)@ == (PlayerModel { position: 0, ..old(self)@ }),
    {
        proof {
            use_type_invariant(&*self);
        }
        self.position = 0;
    }

    /// Whether audio data is loaded.
    pub fn is_loaded(&self) -> (r: bool)
        ensures
            r == self@.loaded,
    {
        self.loaded
    }

    /// Number of frames in the buffer.
    pub fn len(&self) -> (r: usize)
        ensures
            r == self@.len(),
    {
        self.buffer_left.len()
    }

    /// Whether the buffer is empty.
    pub fn is_empty(&self) -> (r: bool)
        ensures
            r == (self@.len() == 0),
    {
        self.buffer_left.len() == 0
    }
}

impl<S: Copy> Default for SamplePlayer<S> {
    fn default() -> (r: Self)
        ensures
            r@.len() == 0 && !r@.loaded && r@.position == 0 && r@.crossfade_frames
                == DEFAULT_CROSSFADE_FRAMES,
    {
        Self::new()
    }
}

/// Playback never leaves the buffer: every frame keeps the position inside it.
pub proof fn lemma_position_in_buffer<S>(m: PlayerModel<S>)
    requires
        m.wf(),
    ensures
        (PlayerModel { position: m.next_position(), ..m }).wf(),
{
}

/// Without a crossfade the player loops plainly: each frame reads the buffer
/// at the current position, and the position then moves to the next frame,
/// wrapping to the first.
pub proof fn lemma_plain_loop<S>(m: PlayerModel<S>)
    requires
        m.wf(),
        m.loaded,
        m.crossfade() == 0,
    ensures
        m.frame() == (PlayerFrame::Direct {
            left: m.left[m.position as int],
            right: m.right[m.position as int],
        }),
        m.next_position() == (m.position + 1) % m.len(),
{
    if m.position + 1 < m.len() {
        vstd::arithmetic::div_mod::lemma_small_mod((m.position + 1) as nat, m.len());
    } else {
        vstd::arithmetic::div_mod::lemma_mod_self_0(m.len() as int);
    }
}

/// Outside the crossfade region a frame is the buffer's own samples at the
/// current position, each channel from its own buffer.
pub proof fn lemma_direct_frame<S>(m: PlayerModel<S>)
    requires
        m.wf(),
        m.loaded,
        m.position + m.crossfade() < m.len(),
    ensures
        m.frame() == (PlayerFrame::Direct {
            left: m.left[m.position as int],
            right: m.right[m.position as int],
        }),
        m.position + 1 < m.len() ==> m.next_position() == m.position + 1,
{
}

/// With a crossfade, the last `crossfade()` frames of the buffer blend in the
/// first ones, each channel's tail with the same channel's head, with weights
/// rising from `1 / crossfade()` to one, and after the wrap playback resumes
/// right after the blended head region, so no frame of the head is played
/// twice.
pub proof fn lemma_crossfade_wrap<S>(m: PlayerModel<S>)
    requires
        m.wf(),
        m.loaded,
        m.crossfade() > 0,
        m.position + m.crossfade() >= m.len(),
    ensures
        m.frame() matches PlayerFrame::Crossfade { step, span, .. } && step == m.position + m.crossfade()
            + 1 - m.len() && span == m.crossfade() && 1 <= step <= span,
        ({
            let h = m.position + m.crossfade() - m.len();
            &&& 0 <= h < m.crossfade()
            &&& m.frame() matches PlayerFrame::Crossfade {
                tail_left,
                tail_right,
                head_left,
                head_right,
                ..
            } && tail_left == m.left[m.position as int] && tail_right == m.right[m.position as int]
                && head_left == m.left[h] && head_right == m.right[h]
        }),
        m.position + 1 == m.len() ==> m.next_position() == m.crossfade(),
        m.crossfade() < m.len(),
{
}

/// The crossfade in use is the configured length, capped at half the buffer,
/// and there is none for a buffer of fewer than 4 frames.
pub proof fn lemma_crossfade_length<S>(m: PlayerModel<S>)
    ensures
        m.len() < 4 ==> m.crossfade() == 0,
        m.len() >= 4 ==> {
            &&& m.crossfade() <= m.crossfade_frames
            &&& m.crossfade() <= m.len() / 2
            &&& (m.crossfade() == m.crossfade_frames || m.crossfade() == m.len() / 2)
        },
{
}

} // verus!

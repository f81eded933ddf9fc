//! Channel handling of raw PCM data, shared by the players and the event slots.

use vstd::prelude::*;

verus! {

/// Why a buffer of PCM data, a layer or an event was refused.
#[derive(Debug, Clone, Copy, PartialEq, Eq, Structural)]
pub enum LayerError {
    /// The PCM data holds no sample.
    EmptyData,
    /// The channel count is neither 1 nor 2.
    UnsupportedChannels(usize),
    /// The slot index is not below the number of slots.
    IndexOutOfRange { index: usize, max: usize },
    /// A texture or an event was given while no base layer is set.
    BaseRequired,
}

/// The left channel of interleaved stereo data: the samples at even
/// positions, one per complete frame.
pub open spec fn even_samples<S>(data: Seq<S>) -> Seq<S> {
    Seq::new(data.len() / 2, |i: int| data[2 * i])
}

/// The right channel of interleaved stereo data: the samples at odd positions,
/// one per complete frame.
pub open spec fn odd_samples<S>(data: Seq<S>) -> Seq<S> {
    Seq::new(data.len() / 2, |i: int| data[2 * i + 1])
}

/// The (left, right) buffers for data with the given channel count: mono data
/// feeds both channels, stereo data is de-interleaved (a trailing odd sample
/// is dropped); other channel counts have none.
pub open spec fn split_channels<S>(data: Seq<S>, channels: usize) -> Option<(Seq<S>, Seq<S>)> {
    if channels == 1 {
        Some((data, data))
    } else if channels == 2 {
        Some((even_samples(data), odd_samples(data)))
    } else {
        None
    }
}

/// Copy a slice into a new vector.
pub fn copy_samples<S: Copy>(data: &[S]) -> (r: Vec<S>)
    ensures
        r@ == data@,
{
    let mut r: Vec<S> = Vec::with_capacity(data.len());
    let mut i: usize = 0;
    while i < data.len()
        invariant
            i <= data.len(),
            r@ == data@.subrange(0, i as int),
        decreases data.len() - i,
    {
        r.push(data[i]);
        i = i + 1;
    }
    r
}

/// De-interleave stereo data into its left and right channels.
pub fn deinterleave<S: Copy>(data: &[S]) -> (r: (Vec<S>, Vec<S>))
    ensures
        r.0@ == even_samples(data@),
        r.1@ == odd_samples(data@),
{
    let frames = data.len() / 2;
    let mut left: Vec<S> = Vec::with_capacity(frames);
    let mut right: Vec<S> = Vec::with_capacity(frames);
    let mut i: usize = 0;
    while i < frames
        invariant
            frames == data.len() / 2,
            i <= frames,
            left@ == even_samples(data@).subrange(0, i as int),
            right@ == odd_samples(data@).subrange(0, i as int),
        decreases frames - i,
    {
        left.push(data[2 * i]);
        right.push(data[2 * i + 1]);
        i = i + 1;
    }
    assert(left@ == even_samples(data@));
    assert(right@ == odd_samples(data@));
    (left, right)
}

/// Split PCM data into its left and right channels, or refuse an unsupported
/// channel count.
pub fn split_pcm<S: Copy>(data: &[S], channels: usize) -> (r: Result<(Vec<S>, Vec<S>), LayerError>)
    ensures
        match r {
            Ok((left, right)) => split_channels(data@, channels) == Some((left@, right@)),
            Err(e) => split_channels(data@, channels) is None && e == LayerError::UnsupportedChannels(
                channels,
            ),
        },
{
    if channels == 1 {
        Ok((copy_samples(data), copy_samples(data)))
    } else if channels == 2 {
        Ok(deinterleave(data))
    } else {
        Err(LayerError::UnsupportedChannels(channels))
    }
}

/// `left` and `right` carry the PCM data: mono data on both channels, or
/// the complete frames of interleaved stereo data, left sample first.
pub open spec fn carries_channels<S>(left: Seq<S>, right: Seq<S>, data: Seq<S>, channels: usize) -> bool {
    &&& channels == 1 ==> left == data && right == data
    &&& channels == 2 ==> {
        &&& left.len() == data.len() / 2
        &&& right.len() == data.len() / 2
        &&& forall|i: int| 0 <= i < left.len() ==> #[trigger] left[i] == data[2 * i] && right[i] == data[2 * i + 1]
    }
}

/// Channel splitting accepts exactly mono and stereo data, and its channels
/// carry the data.
pub proof fn lemma_split_channels<S>(data: Seq<S>, channels: usize)
    ensures
        split_channels(data, channels) is Some <==> (channels == 1 || channels == 2),
        split_channels(data, channels) matches Some((left, right)) ==> carries_channels(
            left,
            right,
            data,
            channels,
        ) && left.len() == right.len(),
{
}

} // verus!

//! Verified core of a real-time soundscape engine.
//!
//! The crate holds the integer and data-movement logic of the engine: the
//! Xorshift64 generator and the random-event countdown, the frequency cycle
//! scheduler, the looping sample players with loop-point crossfade, the
//! random-event slot system, the layer registry of the engine and the error
//! codes of the C interface. Sample values are generic; the floating-point
//! arithmetic (oscillators, gains, blending) is done by the caller.

pub mod engine;
pub mod event_player;
pub mod event_scheduler;
pub mod ffi;
pub mod pcm;
pub mod rain_player;
pub mod sample_player;
pub mod scheduler;

//! Status codes of the C interface and the decisions that map library
//! outcomes to them. The `extern "C"` entry points themselves, which handle
//! raw pointers, live outside this crate.

use vstd::prelude::*;
use crate::pcm::LayerError;

verus! {

/// Status codes returned by the C interface functions.
#[derive(Debug, Clone, Copy, PartialEq, Eq, Structural)]
pub enum HtdError {
    Success,
    NullPointer,
    InvalidConfig,
    InitFailed,
    InvalidUtf8,
    BufferTooSmall,
    LoadFailed,
    LayerLimitExceeded,
    BaseRequired,
}

/// The number of each status: `0` for success, a distinct negative number
/// for each error.
pub open spec fn status_code(e: HtdError) -> int {
    match e {
        HtdError::Success => 0,
        HtdError::NullPointer => -1,
        HtdError::InvalidConfig => -2,
        HtdError::InitFailed => -3,
        HtdError::InvalidUtf8 => -4,
        HtdError::BufferTooSmall => -5,
        HtdError::LoadFailed => -6,
        HtdError::LayerLimitExceeded => -7,
        HtdError::BaseRequired => -8,
    }
}

impl HtdError {
    /// The status number returned across the C interface.
    pub fn code(self) -> (r: i32)
        ensures
            r == status_code(self),
    {
        match self {
            HtdError::Success => 0,
            HtdError::NullPointer => -1,
            HtdError::InvalidConfig => -2,
            HtdError::InitFailed => -3,
            HtdError::InvalidUtf8 => -4,
            HtdError::BufferTooSmall => -5,
            HtdError::LoadFailed => -6,
            HtdError::LayerLimitExceeded => -7,
            HtdError::BaseRequired => -8,
        }
    }
}

/// The status of setting the base layer: any refusal of the data is an
/// invalid configuration.
pub fn base_layer_status(r: Result<(), LayerError>) -> (s: HtdError)
    ensures
        r is Ok ==> s == HtdError::Success,
        r is Err ==> s == HtdError::InvalidConfig,
{
    match r {
        Ok(()) => HtdError::Success,
        Err(_) => HtdError::InvalidConfig,
    }
}

/// The status of placing a texture or an event: an index out of range is a
/// layer limit, a missing base layer is reported as such, and refused data
/// (empty, or an unsupported channel count) is an invalid configuration.
pub fn placement_status<T>(r: Result<T, LayerError>) -> (s: HtdError)
    ensures
        s == match r {
            Ok(_) => HtdError::Success,
            Err(LayerError::IndexOutOfRange { .. }) => HtdError::LayerLimitExceeded,
            Err(LayerError::BaseRequired) => HtdError::BaseRequired,
            Err(LayerError::EmptyData) => HtdError::InvalidConfig,
            Err(LayerError::UnsupportedChannels(_)) => HtdError::InvalidConfig,
        },
{
    match r {
        Ok(_) => HtdError::Success,
        Err(LayerError::IndexOutOfRange { .. }) => HtdError::LayerLimitExceeded,
        Err(LayerError::BaseRequired) => HtdError::BaseRequired,
        Err(LayerError::EmptyData) => HtdError::InvalidConfig,
        Err(LayerError::UnsupportedChannels(_)) => HtdError::InvalidConfig,
    }
}

/// Success is the only status numbered zero, errors are negative, and no two
/// statuses share a number.
pub proof fn lemma_status_codes_distinct(a: HtdError, b: HtdError)
    ensures
        (status_code(a) == 0) == (a == HtdError::Success),
        status_code(a) <= 0,
        status_code(a) == status_code(b) ==> a == b,
{
}

} // verus!

//! Endpoint latency probing: the timing itself is network work done
//! by the surrounding application; the crate owns the result shape
//! and the timeout policy.

use vstd::prelude::*;

verus! {

pub const DEFAULT_TIMEOUT_SECS: u64 = 8;

pub const MAX_TIMEOUT_SECS: u64 = 30;

pub const MIN_TIMEOUT_SECS: u64 = 2;

/// One probed endpoint's outcome.
pub struct EndpointLatency {
    pub url: String,
    pub latency: Option<u128>,
    pub status: Option<u16>,
    pub error: Option<String>,
}

pub struct SpeedtestService;

impl SpeedtestService {
    /// Clamp a requested timeout into the allowed band; none asks for
    /// the default.
    pub fn sanitize_timeout(timeout_secs: Option<u64>) -> (r: u64)
        ensures
            r == Self::sanitize_timeout_spec(timeout_secs),
    {
        let secs = match timeout_secs {
            Some(s) => s,
            None => DEFAULT_TIMEOUT_SECS,
        };
        if secs < MIN_TIMEOUT_SECS {
            MIN_TIMEOUT_SECS
        } else if secs > MAX_TIMEOUT_SECS {
            MAX_TIMEOUT_SECS
        } else {
            secs
        }
    }

    pub open spec fn sanitize_timeout_spec(timeout_secs: Option<u64>) -> u64 {
        let secs = match timeout_secs {
            Some(s) => s,
            None => DEFAULT_TIMEOUT_SECS,
        };
        if secs < MIN_TIMEOUT_SECS {
            MIN_TIMEOUT_SECS
        } else if secs > MAX_TIMEOUT_SECS {
            MAX_TIMEOUT_SECS
        } else {
            secs
        }
    }
}

} // verus!

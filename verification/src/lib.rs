//! Verified core of the PulseSeek audio browser and player.
use vstd::prelude::*;

pub mod capture;
pub mod commands;
pub mod diagnostics;
pub mod drag;
pub mod control;
pub mod engine;
pub mod entries;
pub mod events;
pub mod fft_bank;
pub mod handlers;
pub mod lanes;
pub mod mounts;
pub mod paths;
pub mod resample;
pub mod roots;
pub mod services;
pub mod sessions;
pub mod text;
pub mod visualization;
pub mod watcher;

verus! {

/// Largest integer that a JavaScript number represents exactly.
pub const MAX_JAVASCRIPT_SAFE_INTEGER: u64 = 9_007_199_254_740_991;

/// Keeps a value only when the frontend can represent it exactly.
pub fn js_safe_integer(value: u64) -> (result: Option<u64>)
    ensures
        result == (if value <= MAX_JAVASCRIPT_SAFE_INTEGER { Some(value) } else { None::<u64> }),
{
    if value <= MAX_JAVASCRIPT_SAFE_INTEGER {
        Some(value)
    } else {
        None
    }
}

} // verus!

//! When a network learns and when it rests.

use vstd::prelude::*;

use crate::scalar::{lit, Scalar, ZERO};

verus! {

/// Whether a network learns.
#[derive(Clone, Copy, Debug, PartialEq, Eq, Structural)]
pub enum PlasticityState {
    /// The network learns.
    Plastic,
    /// The network rests.
    Frozen,
}

/// An exponentially weighted moving average.
#[derive(Clone, Copy, Debug, PartialEq, Eq, Structural)]
pub struct EwmaTracker {
    /// Current average.
    pub value: Scalar,
    /// How many values went in.
    pub k: u64,
    /// Window size.
    pub window: usize,
}

impl EwmaTracker {
    /// An average that nothing went into.
    pub open spec fn fresh(window: usize) -> EwmaTracker {
        EwmaTracker { value: lit(ZERO), k: 0, window }
    }

    /// An average that nothing went into.
    pub fn new(window: usize) -> (r: Self)
        ensures
            r == EwmaTracker::fresh(window),
    {
        EwmaTracker { value: lit(ZERO), k: 0, window }
    }
}

/// The switch between learning and resting.
#[derive(Clone, Copy, Debug, PartialEq, Eq, Structural)]
pub struct HysteresisState {
    pub fast: EwmaTracker,
    pub slow: EwmaTracker,
    pub state: PlasticityState,
    pub wake_fraction: Scalar,
    pub sleep_fraction: Scalar,
    /// Steps before the network may first rest.
    pub min_initial_plastic: u64,
}

/// A switch in the learning state, or none where it is disabled. The network
/// may first rest after the slow window and after `warmup` steps.
pub open spec fn fresh_hysteresis(
    enabled: bool,
    fast_window: usize,
    slow_window: usize,
    wake_fraction: Scalar,
    sleep_fraction: Scalar,
    warmup: u64,
) -> Option<HysteresisState> {
    if enabled {
        Some(
            HysteresisState {
                fast: EwmaTracker::fresh(fast_window),
                slow: EwmaTracker::fresh(slow_window),
                state: PlasticityState::Plastic,
                wake_fraction,
                sleep_fraction,
                min_initial_plastic: if slow_window as u64 >= warmup {
                    slow_window as u64
                } else {
                    warmup
                },
            },
        )
    } else {
        None
    }
}

/// Builds a switch.
pub fn build_hysteresis(
    enabled: bool,
    fast_window: usize,
    slow_window: usize,
    wake_fraction: Scalar,
    sleep_fraction: Scalar,
    warmup: u64,
) -> (r: Option<HysteresisState>)
    ensures
        r == fresh_hysteresis(
            enabled,
            fast_window,
            slow_window,
            wake_fraction,
            sleep_fraction,
            warmup,
        ),
{
    if enabled {
        let slow: u64 = slow_window as u64;
        Some(
            HysteresisState {
                fast: EwmaTracker::new(fast_window),
                slow: EwmaTracker::new(slow_window),
                state: PlasticityState::Plastic,
                wake_fraction,
                sleep_fraction,
                min_initial_plastic: if slow >= warmup {
                    slow
                } else {
                    warmup
                },
            },
        )
    } else {
        None
    }
}

} // verus!

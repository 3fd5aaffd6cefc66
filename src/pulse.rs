//! The asymmetric on/off cycle of the pulsing indicator LED.
use vstd::prelude::*;

verus! {

/// Length of the lit phase, in units of `BASE_PULSE_WIDTH`.
pub const ON_PULSE_RATIO: u64 = 1;

/// Length of the dark phase, in units of `BASE_PULSE_WIDTH`.
pub const OFF_PULSE_RATIO: u64 = 12;

/// The time unit of the pulse, in milliseconds.
pub const BASE_PULSE_WIDTH: u64 = 20;

/// One phase of the pulse: the level to drive and how long to hold it.
#[derive(Clone, Copy, Debug, PartialEq, Eq, Structural)]
pub struct PulsePhase {
    pub high: bool,
    pub millis: u64,
}

/// How long a phase at level `high` lasts, in milliseconds.
pub open spec fn phase_millis(high: bool) -> nat {
    if high {
        (ON_PULSE_RATIO * BASE_PULSE_WIDTH) as nat
    } else {
        (OFF_PULSE_RATIO * BASE_PULSE_WIDTH) as nat
    }
}

/// The pulse cycle: a lit phase and a dark phase, in turn.
pub struct Pulse {
    next_high: bool,
}

impl Pulse {
    /// Whether the next phase is the lit one.
    pub closed spec fn next_is_high(&self) -> bool {
        self.next_high
    }

    /// A cycle that starts with the lit phase.
    pub fn new() -> (r: Pulse)
        ensures
            r.next_is_high(),
    {
        Pulse { next_high: true }
    }

    /// The phase to run now; the one after it has the other level.
    pub fn next_phase(&mut self) -> (r: PulsePhase)
        ensures
            r.high == old(self).next_is_high(),
            r.millis as nat == phase_millis(r.high),
            final(self).next_is_high() == !r.high,
    {
        let high = self.next_high;
        self.next_high = !high;
        let millis = if high {
            ON_PULSE_RATIO * BASE_PULSE_WIDTH
        } else {
            OFF_PULSE_RATIO * BASE_PULSE_WIDTH
        };
        PulsePhase { high, millis }
    }
}

} // verus!

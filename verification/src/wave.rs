//! Square-wave position logic for the tone generator: the sample clock of a
//! fixed-rate square wave. Only the integer phase arithmetic lives here; a
//! presentation collaborator maps the low/high flag onto sample amplitudes.

use vstd::prelude::*;

verus! {

/// Samples per second of the generated wave.
pub const SAMPLE_RATE: u32 = 48000;

/// The phase state of a square wave of a fixed frequency.
pub struct SquareWave {
    samples_per_cycle: u32,
    pos: u32,
}

impl SquareWave {
    /// The wave covers one full cycle every `samples_per_cycle` samples.
    pub closed spec fn cycle_len(&self) -> u32 {
        self.samples_per_cycle
    }

    /// The position within the current cycle.
    pub closed spec fn phase(&self) -> u32 {
        self.pos
    }

    /// The cycle is at least one sample long and the phase lies inside it.
    pub closed spec fn wf(&self) -> bool {
        self.samples_per_cycle >= 1 && self.pos < self.samples_per_cycle
    }

    /// A wave of `freq` hertz at phase zero. The frequency must be positive
    /// and at most the sample rate, so that a cycle holds at least one
    /// sample.
    pub fn new(freq: u32) -> (r: SquareWave)
        requires
            1 <= freq <= 48000,
        ensures
            r.wf(),
            r.cycle_len() == 48000u32 / freq,
            r.phase() == 0,
    {
        proof {
            assert(48000int / (freq as int) >= 1) by (nonlinear_arith)
                requires
                    1 <= freq <= 48000,
            ;
        }
        SquareWave { pos: 0, samples_per_cycle: SAMPLE_RATE / freq }
    }

    /// Advance the phase by one sample (wrapping at the cycle length) and
    /// report whether the wave is in the high half of its cycle.
    pub fn advance(&mut self) -> (high: bool)
        requires
            old(self).wf(),
        ensures
            final(self).wf(),
            final(self).cycle_len() == old(self).cycle_len(),
            final(self).phase() == ((old(self).phase() + 1) as u32) % old(self).cycle_len(),
            high == (final(self).phase() >= old(self).cycle_len() / 2),
    {
        self.pos = (self.pos + 1) % self.samples_per_cycle;
        self.pos >= self.samples_per_cycle / 2
    }
}

} // verus!

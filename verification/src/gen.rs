//! The phase counter of a tone generator. A tone of frequency `freq` sampled
//! at `rate` repeats every `rate / freq` samples; sample `k` of the tone sits
//! at phase `k % (rate / freq)` of that period.

use vstd::prelude::*;
use vstd::arithmetic::div_mod::{lemma_add_mod_noop, lemma_mod_add_multiples_vanish, lemma_small_mod};

verus! {

/// The phase, within one period, of the next sample of a tone.
pub struct TonePhase {
    sample_period: u32,
    curr_phase: u32,
}

/// The phase of the sample `i` steps after a sample at phase `start`, for a
/// tone whose period is `period` samples.
pub open spec fn phase_after(start: int, i: int, period: int) -> int {
    (start + i) % period
}

impl TonePhase {
    /// The number of samples in one period of the tone.
    pub closed spec fn period(self) -> u32 {
        self.sample_period
    }

    /// The phase of the next sample.
    pub closed spec fn phase(self) -> u32 {
        self.curr_phase
    }

    #[verifier::type_invariant]
    closed spec fn inv(self) -> bool {
        if self.sample_period == 0 {
            self.curr_phase == 0
        } else {
            self.curr_phase < self.sample_period
        }
    }

    /// The counter for a tone of frequency `freq` sampled at `rate`, before its
    /// first sample. `freq` must not be zero: the period is `rate / freq`.
    pub fn new(freq: u32, rate: u32) -> (r: Self)
        requires
            freq != 0,
        ensures
            r.period() == rate / freq,
            r.phase() == 0,
    {
        TonePhase { sample_period: rate / freq, curr_phase: 0 }
    }

    pub fn sample_period(&self) -> (r: u32)
        ensures
            r == self.period(),
    {
        self.sample_period
    }

    /// Returns the phase of the next sample and moves on by one sample. A tone
    /// whose period is zero samples (its rate is below its frequency) has no
    /// next sample.
    pub fn next_phase(&mut self) -> (r: u32)
        requires
            old(self).period() > 0,
        ensures
            r == old(self).phase(),
            final(self).period() == old(self).period(),
            final(self).phase() == phase_after(old(self).phase() as int, 1, old(self).period() as int),
    {
        proof {
            use_type_invariant(&*self);
        }
        let r: u32 = self.curr_phase;
        self.curr_phase = (self.curr_phase + 1) % self.sample_period;
        r
    }

    /// Returns the phases of the next `n` samples, in order, and moves on by
    /// `n` samples.
    pub fn next_phases(&mut self, n: usize) -> (r: Vec<u32>)
        requires
            old(self).period() > 0,
        ensures
            r@.len() == n,
            forall|i: int|
                0 <= i < n ==> #[trigger] r@[i] == phase_after(
                    old(self).phase() as int,
                    i,
                    old(self).period() as int,
                ),
            final(self).period() == old(self).period(),
            final(self).phase() == phase_after(
                old(self).phase() as int,
                n as int,
                old(self).period() as int,
            ),
    {
        proof {
            use_type_invariant(&*self);
        }
        let ghost start = self.phase() as int;
        let ghost p = self.period() as int;
        proof {
            lemma_small_mod(start as nat, p as nat);
        }
        let mut out: Vec<u32> = Vec::new();
        let mut k: usize = 0;
        while k < n
            invariant
                k <= n,
                self.period() == p,
                p > 0,
                out@.len() == k,
                forall|i: int| 0 <= i < k ==> #[trigger] out@[i] == phase_after(start, i, p),
                self.phase() == phase_after(start, k as int, p),
            decreases n - k,
        {
            let ghost before = self.phase() as int;
            let v = self.next_phase();
            proof {
                lemma_add_mod_noop(start + k, 1, p);
                if p == 1 {
                    assert(phase_after(start, k + 1, p) == 0);
                } else {
                    lemma_small_mod(1, p as nat);
                }
            }
            out.push(v);
            k = k + 1;
        }
        out
    }
}

/// The phase sequence of a tone repeats every period: the sample one period
/// later sits at the same phase.
pub proof fn lemma_phase_periodic(start: int, i: int, period: int)
    requires
        period > 0,
    ensures
        phase_after(start, i + period, period) == phase_after(start, i, period),
{
    lemma_mod_add_multiples_vanish(start + i, period);
    assert(start + (i + period) == period + (start + i));
}

} // verus!

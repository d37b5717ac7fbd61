//! Index arithmetic of the waveforms and the per-tick state of a generator.
use crate::stepper::{fires_at, rotate, StepKind, Stepper};
use vstd::prelude::*;

verus! {

/// The shape of a generator's output.
#[derive(Clone, Copy, Debug, PartialEq, Eq, Structural)]
pub enum Waveform {
    Sine,
    Square,
    Saw,
}

/// Half the sample rate: the square wave's half period is this over its frequency.
pub const HALF_RATE: usize = 24000;

/// What one tick did to a generator: the index its waveform is evaluated at,
/// and the step that fired, if one did.
#[derive(Clone, Copy, Debug, PartialEq, Eq, Structural)]
pub struct Tick {
    pub index: usize,
    pub fired: Option<StepKind>,
}

/// One periodic signal generator. `freq` is the bit pattern of an `f32` in Hz;
/// `phase_steps` is added to every sample index it is given.
pub struct Generator {
    pub waveform: Waveform,
    pub freq: u32,
    pub phase_steps: usize,
    pub stepper: Stepper,
}

/// The frequency after a step fired: a set step replaces it, any other
/// step leaves it as it was.
pub open spec fn freq_after(freq: u32, fired: Option<StepKind>) -> u32 {
    match fired {
        Some(StepKind::FreqSet(v)) => v,
        _ => freq,
    }
}

impl Generator {
    pub open spec fn wf(&self) -> bool {
        self.stepper.wf()
    }

    /// Runs the generator's clock for sample `num_samples` of the graph: shifts
    /// the index by the phase offset, lets the sequencer fire at that index, and
    /// applies a set step. A multiply step is reported in the result and leaves
    /// `freq` as it was: scaling the frequency is the caller's part, who then
    /// stores the product with `set_freq`.
    pub fn advance(&mut self, num_samples: usize) -> (r: Tick)
        requires
            old(self).wf(),
        ensures
            final(self).wf(),
            r.index as nat == offset_index(num_samples as nat, old(self).phase_steps as nat),
            final(self).waveform == old(self).waveform,
            final(self).phase_steps == old(self).phase_steps,
            final(self).stepper.bpm == old(self).stepper.bpm,
            fires_at(old(self).stepper.bpm as nat, old(self).stepper.steps@.len(), r.index as nat)
                ==> {
                &&& r.fired == Some(old(self).stepper.steps@[0])
                &&& final(self).stepper.steps@ == rotate(old(self).stepper.steps@)
            },
            !fires_at(old(self).stepper.bpm as nat, old(self).stepper.steps@.len(), r.index as nat)
                ==> {
                &&& r.fired.is_none()
                &&& final(self).stepper.steps@ == old(self).stepper.steps@
            },
            final(self).freq == freq_after(old(self).freq, r.fired),
    {
        let index = shifted_index(num_samples, self.phase_steps);
        let fired = self.stepper.step(index);
        if let Some(StepKind::FreqSet(v)) = fired {
            self.freq = v;
        }
        Tick { index, fired }
    }

    /// Stores a new frequency (an `f32` bit pattern), leaving the rest as it was.
    pub fn set_freq(&mut self, freq: u32)
        ensures
            final(self).freq == freq,
            final(self).waveform == old(self).waveform,
            final(self).phase_steps == old(self).phase_steps,
            final(self).stepper == old(self).stepper,
    {
        self.freq = freq;
    }
}

/// `a + b` wrapped round modulo `usize::MAX + 1`.
pub open spec fn offset_index(a: nat, b: nat) -> nat {
    (a + b) % (usize::MAX as nat + 1)
}

/// Length in samples of one half of a square wave of integer frequency `freq`.
pub open spec fn half_period(freq: nat) -> nat {
    HALF_RATE as nat / freq
}

/// Whether the square wave is at +1 (rather than -1) at `index`: the quotient
/// of the index by the half period is odd.
pub open spec fn square_high(index: nat, half: nat) -> bool {
    (index / half) % 2 == 1
}

/// Position of `index` within its saw period of `period` samples.
pub open spec fn saw_pos(index: nat, period: nat) -> nat {
    index % period
}

/// Sample index shifted by a phase offset, wrapping on overflow.
pub fn shifted_index(num_samples: usize, phase_steps: usize) -> (r: usize)
    ensures
        r as nat == offset_index(num_samples as nat, phase_steps as nat),
{
    let r = num_samples.wrapping_add(phase_steps);
    proof {
        let m = usize::MAX as nat + 1;
        let t = num_samples as nat + phase_steps as nat;
        if t < m {
            vstd::arithmetic::div_mod::lemma_small_mod(t, m);
        } else {
            vstd::arithmetic::div_mod::lemma_mod_add_multiples_vanish(t - m, m as int);
            vstd::arithmetic::div_mod::lemma_small_mod((t - m) as nat, m);
        }
    }
    r
}

/// Half period, in samples, of a square wave whose frequency truncates to
/// `freq` (the frequency is cast to an integer by dropping its fraction).
pub fn square_half_period(freq: usize) -> (r: usize)
    requires
        1 <= freq <= HALF_RATE,
    ensures
        r as nat == half_period(freq as nat),
        r >= 1,
{
    proof {
        vstd::arithmetic::div_mod::lemma_div_is_ordered(freq as int, HALF_RATE as int, freq as int);
        vstd::arithmetic::div_mod::lemma_div_by_self(freq as int);
    }
    HALF_RATE / freq
}

/// Whether the square wave is at +1 at `index`, for a half period of `half` samples.
pub fn square_is_high(index: usize, half: usize) -> (r: bool)
    requires
        half > 0,
    ensures
        r == square_high(index as nat, half as nat),
{
    (index / half) % 2 == 1
}

/// Position of `index` within a saw period of `period` samples.
pub fn saw_position(index: usize, period: usize) -> (r: usize)
    requires
        period > 0,
    ensures
        r as nat == saw_pos(index as nat, period as nat),
        r < period,
{
    index % period
}

/// The square wave holds its level for a whole half period and flips it at the
/// next: from the start `i` of a half period, every index before the next
/// boundary has the level of `i`, and `i + half` has the other level.
pub proof fn lemma_square_toggles(i: nat, half: nat)
    requires
        half > 0,
        i % half == 0,
    ensures
        forall|d: nat| d < half ==> #[trigger] square_high(i + d, half) == square_high(i, half),
        square_high(i + half, half) != square_high(i, half),
{
    let q = (i / half) as int;
    vstd::arithmetic::div_mod::lemma_fundamental_div_mod(i as int, half as int);
    assert(i == q * half);
    assert forall|d: nat| d < half implies #[trigger] square_high(i + d, half) == square_high(i, half) by {
        vstd::arithmetic::div_mod::lemma_fundamental_div_mod_converse((i + d) as int, half as int, q, d as int);
    }
    assert((q + 1) * half == q * half + half) by (nonlinear_arith);
    vstd::arithmetic::div_mod::lemma_fundamental_div_mod_converse(
        (i + half) as int,
        half as int,
        q + 1,
        0,
    );
}

/// The saw ramp: the position within a period is below the period length, never
/// decreases between two indices of the same period, and is zero at each
/// period boundary.
pub proof fn lemma_saw_ramp(i: nat, j: nat, period: nat, k: nat)
    requires
        period > 0,
    ensures
        saw_pos(i, period) < period,
        i <= j && i / period == j / period ==> saw_pos(i, period) <= saw_pos(j, period),
        saw_pos(k * period, period) == 0,
{
    vstd::arithmetic::div_mod::lemma_fundamental_div_mod(i as int, period as int);
    vstd::arithmetic::div_mod::lemma_fundamental_div_mod(j as int, period as int);
    vstd::arithmetic::div_mod::lemma_mod_bound(i as int, period as int);
    vstd::arithmetic::div_mod::lemma_mod_multiples_basic(k as int, period as int);
}

} // verus!

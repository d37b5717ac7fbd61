//! Beat clock that rewrites a generator's frequency on beat boundaries.
use std::collections::VecDeque;
use vstd::arithmetic::div_mod::{lemma_add_mod_noop, lemma_mod_self_0, lemma_small_mod};
use vstd::prelude::*;

verus! {

/// Output samples per second.
pub const SAMPLE_RATE: usize = 48000;

/// One entry of a sequence. Payloads are IEEE-754 bit patterns of `f32`.
#[derive(Clone, Copy, Debug, PartialEq, Eq, Structural)]
pub enum StepKind {
    Nop,
    FreqMult(u32),
    FreqSet(u32),
}

/// A tempo and a cyclic list of steps.
pub struct Stepper {
    pub bpm: usize,
    pub steps: VecDeque<StepKind>,
}

/// Samples in one beat at `bpm` beats per minute.
pub open spec fn beat_len(bpm: nat) -> nat {
    bpm * (SAMPLE_RATE as nat) / 60
}

/// Whether a tempo is usable: positive, with a beat length that fits in a `usize`.
pub open spec fn bpm_valid(bpm: nat) -> bool {
    1 <= bpm && bpm * (SAMPLE_RATE as nat) <= usize::MAX
}

/// The sequence moved on by one: its front goes to the back.
pub open spec fn rotate(s: Seq<StepKind>) -> Seq<StepKind> {
    if s.len() == 0 {
        s
    } else {
        s.subrange(1, s.len() as int).push(s[0])
    }
}

/// The sequence moved on `k` times.
pub open spec fn rotate_times(s: Seq<StepKind>, k: nat) -> Seq<StepKind>
    decreases k,
{
    if k == 0 {
        s
    } else {
        rotate(rotate_times(s, (k - 1) as nat))
    }
}

/// The sequence read from position `j` on, wrapping round to its start.
pub open spec fn rotate_from(s: Seq<StepKind>, j: int) -> Seq<StepKind> {
    s.subrange(j, s.len() as int) + s.subrange(0, j)
}

/// Whether a step fires at the (offset-adjusted) sample `index`.
pub open spec fn fires_at(bpm: nat, n_steps: nat, index: nat) -> bool {
    n_steps > 0 && index % beat_len(bpm) == 0
}

proof fn lemma_rotate_from_next(s: Seq<StepKind>, j: int)
    requires
        0 <= j < s.len(),
    ensures
        rotate(rotate_from(s, j)) == rotate_from(s, (j + 1) % (s.len() as int)),
{
    let n = s.len() as int;
    let r = rotate_from(s, j);
    assert(r[0] == s[j]);
    if j + 1 < n {
        lemma_small_mod((j + 1) as nat, n as nat);
        assert(rotate(r) =~= rotate_from(s, j + 1));
    } else {
        lemma_mod_self_0(n);
        assert(rotate(r) =~= s);
        assert(rotate_from(s, 0) =~= s);
    }
}

proof fn lemma_next_position(p: int, n: int)
    requires
        0 <= p,
        0 < n,
    ensures
        (p % n + 1) % n == (p + 1) % n,
{
    lemma_add_mod_noop(p, 1, n);
    if n > 1 {
        lemma_small_mod(1, n as nat);
    } else {
        assert((p % n + 1) % n == 0 && (p + 1) % n == 0) by (nonlinear_arith)
            requires n == 1;
    }
}

proof fn lemma_rotate_times(s: Seq<StepKind>, k: nat)
    requires
        s.len() > 0,
    ensures
        rotate_times(s, k) == rotate_from(s, k as int % s.len() as int),
    decreases k,
{
    let n = s.len() as int;
    if k == 0 {
        assert(rotate_from(s, 0) =~= s);
    } else {
        let p = (k - 1) as int;
        lemma_rotate_times(s, p as nat);
        assert(0 <= p % n < n) by (nonlinear_arith)
            requires 0 <= p, 0 < n;
        lemma_rotate_from_next(s, p % n);
        lemma_next_position(p, n);
    }
}

/// Round robin: after `k` firings the sequence reads from position `k mod len`
/// of the starting sequence, so the step that fires next is the one at that position,
/// and after exactly `len` firings the sequence is back as it began.
pub proof fn lemma_round_robin(s: Seq<StepKind>, k: nat)
    requires
        s.len() > 0,
    ensures
        rotate_times(s, k) == rotate_from(s, k as int % s.len() as int),
        rotate_times(s, k)[0] == s[k as int % s.len() as int],
        rotate_times(s, s.len()) == s,
{
    let n = s.len() as int;
    lemma_rotate_times(s, k);
    let m = k as int % n;
    assert(0 <= m < n) by (nonlinear_arith)
        requires m == k as int % n, 0 < n;
    assert(rotate_from(s, m)[0] == s[m]);
    lemma_rotate_times(s, s.len());
    lemma_mod_self_0(n);
    assert(rotate_from(s, 0) =~= s);
}

impl Stepper {
    pub open spec fn wf(&self) -> bool {
        bpm_valid(self.bpm as nat)
    }

    /// Samples per beat: `bpm * 48000 / 60`.
    pub fn samples_per_beat(&self) -> (r: usize)
        requires
            self.wf(),
        ensures
            r as nat == beat_len(self.bpm as nat),
            r > 0,
    {
        self.bpm * SAMPLE_RATE / 60
    }

    /// Advances the beat clock to sample `index`. At a beat boundary of a
    /// non-empty sequence the front step is returned and moved to the back.
    /// Index 0 is a boundary, so such a sequence fires on the very first sample.
    pub fn step(&mut self, index: usize) -> (r: Option<StepKind>)
        requires
            old(self).wf(),
        ensures
            final(self).bpm == old(self).bpm,
            fires_at(old(self).bpm as nat, old(self).steps@.len(), index as nat) ==> {
                &&& r == Some(old(self).steps@[0])
                &&& final(self).steps@ == rotate(old(self).steps@)
            },
            !fires_at(old(self).bpm as nat, old(self).steps@.len(), index as nat) ==> {
                &&& r.is_none()
                &&& final(self).steps@ == old(self).steps@
            },
    {
        if self.steps.len() == 0 {
            return None;
        }
        let per_beat = self.samples_per_beat();
        if index % per_beat != 0 {
            return None;
        }
        match self.steps.pop_front() {
            Some(s) => {
                self.steps.push_back(s);
                Some(s)
            },
            None => None,
        }
    }
}

impl Clone for Stepper {
    /// Same tempo, same steps in the same order.
    fn clone(&self) -> (r: Stepper)
        ensures
            r.bpm == self.bpm,
            r.steps@ == self.steps@,
    {
        let mut steps: VecDeque<StepKind> = VecDeque::new();
        let n = self.steps.len();
        let mut i: usize = 0;
        while i < n
            invariant
                n == self.steps@.len(),
                i <= n,
                steps@ == self.steps@.subrange(0, i as int),
            decreases n - i,
        {
            steps.push_back(self.steps[i]);
            i += 1;
            assert(steps@ =~= self.steps@.subrange(0, i as int));
        }
        assert(steps@ =~= self.steps@);
        Stepper { bpm: self.bpm, steps }
    }
}

impl Default for Stepper {
    /// A tempo of one beat per minute and no steps: the frequency never changes.
    fn default() -> (r: Stepper)
        ensures
            r.bpm == 1,
            r.steps@.len() == 0,
            r.wf(),
    {
        Stepper { bpm: 1, steps: VecDeque::new() }
    }
}

} // verus!

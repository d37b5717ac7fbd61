//! Declarative description of a synthesis graph and its construction.
use crate::stepper::{bpm_valid, Stepper, SAMPLE_RATE};
use crate::wave::{Generator, Waveform};
use vstd::prelude::*;

verus! {

/// The waveform an operator entry asks for.
#[derive(Clone, Copy, Debug, PartialEq, Eq, Structural)]
pub enum OperatorKind {
    Sine,
    Square,
    Saw,
    Triangle,
}

/// One generator entry. `frequency` is the bit pattern of an `f32` in Hz.
pub struct Operator {
    pub frequency: u32,
    pub op_kind: OperatorKind,
    pub phase_steps: usize,
    pub stepper: Stepper,
}

/// One modulation chain: a source multiplied by each of its operators.
pub struct Group {
    pub source: Operator,
    pub operators: Vec<Operator>,
}

/// A whole graph: its groups, mixed with equal weight.
pub struct Config {
    pub group: Vec<Group>,
}

/// Why a description was refused.
#[derive(Clone, Copy, Debug, PartialEq, Eq, Structural)]
pub enum ConfigError {
    /// The graph has no group, so its mean would be undefined.
    NoGroups,
    /// A waveform kind that has no implementation.
    Unimplemented,
    /// A tempo of zero, or one whose beat length does not fit in a `usize`.
    BadTempo,
    /// A square or saw frequency that is not a positive finite number.
    BadFrequency,
}

/// A group made ready to run.
pub struct BGroup {
    pub samps_per_sec: usize,
    pub source: Generator,
    pub operators: Vec<Generator>,
}

/// A graph made ready to run.
pub struct Bidness {
    pub b_groups: Vec<BGroup>,
}

/// Bits `b` of an `f32` stand for a positive finite number: sign clear,
/// not zero, exponent not all ones.
pub open spec fn freq_positive(b: u32) -> bool {
    0 < b && b < 0x7f80_0000
}

/// Whether the waveform divides by its frequency.
pub open spec fn divides_by_freq(k: OperatorKind) -> bool {
    k == OperatorKind::Square || k == OperatorKind::Saw
}

/// What is wrong with an operator entry, checked in this order, if anything is.
pub open spec fn operator_error(op: Operator) -> Option<ConfigError> {
    if op.op_kind == OperatorKind::Triangle {
        Some(ConfigError::Unimplemented)
    } else if !bpm_valid(op.stepper.bpm as nat) {
        Some(ConfigError::BadTempo)
    } else if divides_by_freq(op.op_kind) && !freq_positive(op.frequency) {
        Some(ConfigError::BadFrequency)
    } else {
        None
    }
}

pub open spec fn waveform_of(k: OperatorKind) -> Waveform {
    match k {
        OperatorKind::Sine => Waveform::Sine,
        OperatorKind::Square => Waveform::Square,
        _ => Waveform::Saw,
    }
}

/// `g` is the generator that the entry `op` describes.
pub open spec fn generator_of(op: Operator, g: Generator) -> bool {
    &&& g.waveform == waveform_of(op.op_kind)
    &&& g.freq == op.frequency
    &&& g.phase_steps == op.phase_steps
    &&& g.stepper.bpm == op.stepper.bpm
    &&& g.stepper.steps@ == op.stepper.steps@
    &&& g.wf()
}

/// Every entry of a group is acceptable.
pub open spec fn group_valid(g: Group) -> bool {
    &&& operator_error(g.source).is_none()
    &&& forall|j: int| 0 <= j < g.operators@.len() ==> operator_error(#[trigger] g.operators@[j]).is_none()
}

/// The first faulty entry of the group, taking the source first and then the
/// operators in order, has error `e`.
pub open spec fn group_first_error(g: Group, e: ConfigError) -> bool {
    ||| operator_error(g.source) == Some(e)
    ||| {
        &&& operator_error(g.source).is_none()
        &&& exists|j: int|
            0 <= j < g.operators@.len() && operator_error(#[trigger] g.operators@[j]) == Some(e)
                && forall|k: int| 0 <= k < j ==> operator_error(#[trigger] g.operators@[k]).is_none()
    }
}

/// The first faulty group of the description has `e` as its first error.
pub open spec fn config_first_error(cfg: Config, e: ConfigError) -> bool {
    exists|i: int|
        0 <= i < cfg.group@.len() && group_first_error(#[trigger] cfg.group@[i], e)
            && forall|k: int| 0 <= k < i ==> group_valid(#[trigger] cfg.group@[k])
}

/// `b` is the running group for the description `g`.
pub open spec fn group_built(g: Group, b: BGroup, samps_per_sec: usize) -> bool {
    &&& b.samps_per_sec == samps_per_sec
    &&& generator_of(g.source, b.source)
    &&& b.operators@.len() == g.operators@.len()
    &&& forall|j: int| 0 <= j < g.operators@.len() ==> generator_of(#[trigger] g.operators@[j], b.operators@[j])
}

/// Every group of the description is acceptable.
pub open spec fn config_valid(cfg: Config) -> bool {
    forall|i: int| 0 <= i < cfg.group@.len() ==> group_valid(#[trigger] cfg.group@[i])
}

/// A description is refused when it has no group, or when any of its entries,
/// source or operator, asks for the unimplemented triangle waveform.
pub proof fn lemma_refused_descriptions(cfg: Config, i: int, j: int)
    ensures
        cfg.group@.len() == 0 ==> !(cfg.group@.len() > 0 && config_valid(cfg)),
        0 <= i < cfg.group@.len() && cfg.group@[i].source.op_kind == OperatorKind::Triangle
            ==> !config_valid(cfg),
        0 <= i < cfg.group@.len() && 0 <= j < cfg.group@[i].operators@.len()
            && cfg.group@[i].operators@[j].op_kind == OperatorKind::Triangle ==> !config_valid(cfg),
{
    if 0 <= i < cfg.group@.len() && 0 <= j < cfg.group@[i].operators@.len()
        && cfg.group@[i].operators@[j].op_kind == OperatorKind::Triangle {
        assert(!group_valid(cfg.group@[i]));
    }
}

impl Operator {
    /// The generator this entry describes, or why there is none.
    pub fn into_generator(&self) -> (r: Result<Generator, ConfigError>)
        ensures
            match r {
                Ok(g) => operator_error(*self).is_none() && generator_of(*self, g),
                Err(e) => operator_error(*self) == Some(e),
            },
    {
        let waveform = match self.op_kind {
            OperatorKind::Sine => Waveform::Sine,
            OperatorKind::Square => Waveform::Square,
            OperatorKind::Saw => Waveform::Saw,
            OperatorKind::Triangle => {
                return Err(ConfigError::Unimplemented);
            },
        };
        if self.stepper.bpm == 0 || self.stepper.bpm > usize::MAX / SAMPLE_RATE {
            return Err(ConfigError::BadTempo);
        }
        let divides = match waveform {
            Waveform::Sine => false,
            _ => true,
        };
        if divides && !(0 < self.frequency && self.frequency < 0x7f80_0000) {
            return Err(ConfigError::BadFrequency);
        }
        Ok(
            Generator {
                waveform,
                freq: self.frequency,
                phase_steps: self.phase_steps,
                stepper: self.stepper.clone(),
            },
        )
    }
}

impl BGroup {
    /// The running group for the description `g`, or an error of one of its entries.
    pub fn from_group(g: &Group, samps_per_sec: usize) -> (r: Result<BGroup, ConfigError>)
        ensures
            match r {
                Ok(b) => group_valid(*g) && group_built(*g, b, samps_per_sec),
                Err(e) => !group_valid(*g) && group_first_error(*g, e),
            },
    {
        let source = match g.source.into_generator() {
            Ok(s) => s,
            Err(e) => {
                return Err(e);
            },
        };
        let mut operators: Vec<Generator> = Vec::new();
        let n = g.operators.len();
        let mut j: usize = 0;
        while j < n
            invariant
                n == g.operators@.len(),
                j <= n,
                operator_error(g.source).is_none(),
                generator_of(g.source, source),
                operators@.len() == j,
                forall|k: int| 0 <= k < j ==> operator_error(#[trigger] g.operators@[k]).is_none(),
                forall|k: int| 0 <= k < j ==> generator_of(#[trigger] g.operators@[k], operators@[k]),
            decreases n - j,
        {
            match g.operators[j].into_generator() {
                Ok(op) => {
                    operators.push(op);
                },
                Err(e) => {
                    assert(operator_error(g.operators@[j as int]) == Some(e));
                    proof {
                        let jj = j as int;
                        assert(0 <= jj < g.operators@.len() && operator_error(g.operators@[jj]) == Some(e)
                            && forall|k: int| 0 <= k < jj ==> operator_error(#[trigger] g.operators@[k]).is_none());
                        assert(group_first_error(*g, e));
                    }
                    return Err(e);
                },
            }
            j += 1;
        }
        Ok(BGroup { samps_per_sec, source, operators })
    }
}

impl Bidness {
    /// Builds the running graph from its description. A description with no
    /// group, or with any entry that `operator_error` refuses, is rejected here,
    /// before any sample is made.
    pub fn from_config(cfg: &Config, samps_per_sec: usize) -> (r: Result<Bidness, ConfigError>)
        ensures
            r == Err::<Bidness, ConfigError>(ConfigError::NoGroups) <==> cfg.group@.len() == 0,
            r.is_ok() <==> cfg.group@.len() > 0 && config_valid(*cfg),
            match r {
                Ok(b) => {
                    &&& b.b_groups@.len() == cfg.group@.len()
                    &&& forall|i: int|
                        0 <= i < cfg.group@.len() ==> group_built(
                            #[trigger] cfg.group@[i],
                            b.b_groups@[i],
                            samps_per_sec,
                        )
                },
                Err(e) => cfg.group@.len() == 0 || config_first_error(*cfg, e),
            },
    {
        let n = cfg.group.len();
        if n == 0 {
            return Err(ConfigError::NoGroups);
        }
        let mut groups: Vec<BGroup> = Vec::new();
        let mut i: usize = 0;
        while i < n
            invariant
                n == cfg.group@.len(),
                i <= n,
                groups@.len() == i,
                forall|k: int| 0 <= k < i ==> group_valid(#[trigger] cfg.group@[k]),
                forall|k: int| 0 <= k < i ==> group_built(#[trigger] cfg.group@[k], groups@[k], samps_per_sec),
            decreases n - i,
        {
            match BGroup::from_group(&cfg.group[i], samps_per_sec) {
                Ok(b) => {
                    groups.push(b);
                },
                Err(e) => {
                    proof {
                        let ii = i as int;
                        assert(0 <= ii < cfg.group@.len() && group_first_error(cfg.group@[ii], e)
                            && forall|k: int| 0 <= k < ii ==> group_valid(#[trigger] cfg.group@[k]));
                        assert(config_first_error(*cfg, e));
                    }
                    return Err(e);
                },
            }
            i += 1;
        }
        Ok(Bidness { b_groups: groups })
    }
}

} // verus!

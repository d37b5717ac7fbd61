use opsynth::config::{Bidness, Config, ConfigError, Group, Operator, OperatorKind};
use opsynth::stepper::{StepKind, Stepper};
use opsynth::wave::Waveform;
use std::collections::VecDeque;

fn op(kind: OperatorKind, freq: f32) -> Operator {
    Operator { frequency: freq.to_bits(), op_kind: kind, phase_steps: 0, stepper: Stepper::default() }
}

fn one_group(source: Operator, operators: Vec<Operator>) -> Config {
    Config { group: vec![Group { source, operators }] }
}

#[test]
fn empty_graph_is_refused() {
    let cfg = Config { group: vec![] };
    assert_eq!(Bidness::from_config(&cfg, 48000).err(), Some(ConfigError::NoGroups));
}

#[test]
fn triangle_is_refused() {
    let cfg = one_group(op(OperatorKind::Triangle, 440.0), vec![]);
    assert_eq!(Bidness::from_config(&cfg, 48000).err(), Some(ConfigError::Unimplemented));
    let cfg = one_group(op(OperatorKind::Sine, 440.0), vec![op(OperatorKind::Triangle, 2.0)]);
    assert_eq!(Bidness::from_config(&cfg, 48000).err(), Some(ConfigError::Unimplemented));
}

#[test]
fn zero_tempo_is_refused() {
    let mut o = op(OperatorKind::Sine, 440.0);
    o.stepper = Stepper { bpm: 0, steps: VecDeque::new() };
    let cfg = one_group(o, vec![]);
    assert_eq!(Bidness::from_config(&cfg, 48000).err(), Some(ConfigError::BadTempo));
    let mut o = op(OperatorKind::Sine, 440.0);
    o.stepper = Stepper { bpm: usize::MAX, steps: VecDeque::new() };
    assert_eq!(o.into_generator().err(), Some(ConfigError::BadTempo));
}

#[test]
fn non_positive_divisor_frequency_is_refused() {
    for f in [0.0f32, -0.0, -3.0, f32::INFINITY, f32::NAN] {
        assert_eq!(op(OperatorKind::Square, f).into_generator().err(), Some(ConfigError::BadFrequency));
        assert_eq!(op(OperatorKind::Saw, f).into_generator().err(), Some(ConfigError::BadFrequency));
    }
    assert!(op(OperatorKind::Sine, 0.0).into_generator().is_ok());
    assert!(op(OperatorKind::Saw, f32::MIN_POSITIVE).into_generator().is_ok());
}

#[test]
fn valid_graph_is_built_in_order() {
    let mut src = op(OperatorKind::Sine, 1.0);
    src.phase_steps = 12;
    src.stepper = Stepper { bpm: 30, steps: vec![StepKind::FreqSet(5)].into_iter().collect() };
    let cfg = Config {
        group: vec![
            Group { source: src, operators: vec![op(OperatorKind::Square, 1.0), op(OperatorKind::Saw, 2.0)] },
            Group { source: op(OperatorKind::Saw, 3.0), operators: vec![] },
        ],
    };
    let b = Bidness::from_config(&cfg, 44100).ok().unwrap();
    assert_eq!(b.b_groups.len(), 2);
    let g0 = &b.b_groups[0];
    assert_eq!(g0.samps_per_sec, 44100);
    assert_eq!(g0.source.waveform, Waveform::Sine);
    assert_eq!(g0.source.freq, 1.0f32.to_bits());
    assert_eq!(g0.source.phase_steps, 12);
    assert_eq!(g0.source.stepper.bpm, 30);
    assert_eq!(g0.source.stepper.steps, VecDeque::from(vec![StepKind::FreqSet(5)]));
    assert_eq!(g0.operators.len(), 2);
    assert_eq!(g0.operators[0].waveform, Waveform::Square);
    assert_eq!(g0.operators[1].waveform, Waveform::Saw);
    assert_eq!(g0.operators[1].freq, 2.0f32.to_bits());
    assert_eq!(b.b_groups[1].source.waveform, Waveform::Saw);
    assert!(b.b_groups[1].operators.is_empty());
}

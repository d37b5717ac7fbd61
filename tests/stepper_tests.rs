use opsynth::stepper::{StepKind, Stepper};
use opsynth::wave::{Generator, Tick, Waveform};
use std::collections::VecDeque;

fn stepper(bpm: usize, steps: Vec<StepKind>) -> Stepper {
    Stepper { bpm, steps: steps.into_iter().collect::<VecDeque<StepKind>>() }
}

#[test]
fn default_stepper_never_fires() {
    let mut s = Stepper::default();
    assert_eq!(s.bpm, 1);
    assert!(s.steps.is_empty());
    for i in [0usize, 1, 2880000, 5760000] {
        assert_eq!(s.step(i), None);
    }
}

#[test]
fn samples_per_beat_values() {
    assert_eq!(stepper(1, vec![]).samples_per_beat(), 800);
    assert_eq!(stepper(60, vec![]).samples_per_beat(), 48000);
    assert_eq!(stepper(120, vec![]).samples_per_beat(), 96000);
}

#[test]
fn fires_on_beat_boundaries_only() {
    let mut s = stepper(60, vec![StepKind::Nop, StepKind::FreqMult(2.0f32.to_bits())]);
    assert_eq!(s.step(0), Some(StepKind::Nop));
    assert_eq!(s.step(1), None);
    assert_eq!(s.step(47999), None);
    assert_eq!(s.step(48000), Some(StepKind::FreqMult(2.0f32.to_bits())));
    assert_eq!(s.step(96000), Some(StepKind::Nop));
    assert_eq!(s.steps.len(), 2);
}

#[test]
fn round_robin_returns_to_start() {
    let steps = vec![StepKind::FreqSet(1), StepKind::FreqSet(2), StepKind::FreqSet(3)];
    let mut s = stepper(1, steps.clone());
    for k in 0..7usize {
        assert_eq!(s.step(k * 800), Some(steps[k % 3]));
    }
    let mut s = stepper(1, steps.clone());
    for k in 0..3usize {
        s.step(k * 800);
    }
    assert_eq!(s.steps.iter().copied().collect::<Vec<StepKind>>(), steps);
}

#[test]
fn clone_keeps_tempo_and_steps() {
    let s = stepper(90, vec![StepKind::Nop, StepKind::FreqSet(7)]);
    let c = s.clone();
    assert_eq!(c.bpm, 90);
    assert_eq!(c.steps, s.steps);
}

#[test]
fn sequencer_sets_frequency_per_beat() {
    let mut g = Generator {
        waveform: Waveform::Sine,
        freq: 100.0f32.to_bits(),
        phase_steps: 0,
        stepper: stepper(
            60,
            vec![StepKind::FreqSet(220.0f32.to_bits()), StepKind::FreqSet(440.0f32.to_bits())],
        ),
    };
    for i in 0..144000usize {
        g.advance(i);
        let f = f32::from_bits(g.freq);
        if i < 48000 {
            assert_eq!(f, 220.0);
        } else if i < 96000 {
            assert_eq!(f, 440.0);
        } else {
            assert_eq!(f, 220.0);
        }
    }
}

#[test]
fn advance_reports_multiply_and_keeps_freq() {
    let mut g = Generator {
        waveform: Waveform::Square,
        freq: 110.0f32.to_bits(),
        phase_steps: 5,
        stepper: stepper(1, vec![StepKind::FreqMult(1.5f32.to_bits())]),
    };
    let t = g.advance(795);
    assert_eq!(t, Tick { index: 800, fired: Some(StepKind::FreqMult(1.5f32.to_bits())) });
    assert_eq!(g.freq, 110.0f32.to_bits());
    let t = g.advance(796);
    assert_eq!(t, Tick { index: 801, fired: None });
    g.set_freq(165.0f32.to_bits());
    assert_eq!(f32::from_bits(g.freq), 165.0);
}

#[test]
fn advance_wraps_phase_offset() {
    let mut g = Generator {
        waveform: Waveform::Saw,
        freq: 1.0f32.to_bits(),
        phase_steps: usize::MAX,
        stepper: Stepper::default(),
    };
    assert_eq!(g.advance(3).index, 2);
    assert_eq!(g.advance(0).index, usize::MAX);
}

use fm_synth::envelope::EnvelopeState;
use fm_synth::params::FMParams;
use fm_synth::synth::FMSynth;

/// The sine of a phase given in ticks, in millionths.
fn sine(ticks: u64, cycle: u64) -> i32 {
    let angle = 2.0 * std::f64::consts::PI * (ticks as f64) / (cycle as f64);
    (angle.sin() * 1_000_000.0).round() as i32
}

/// One sample, with both waveforms read where the oscillator stands.
fn step(synth: &mut FMSynth) -> i64 {
    let cycle = synth.oscillator().cycle();
    let carrier = sine(synth.oscillator().carrier_phase(), cycle);
    let modulator = sine(synth.oscillator().modulator_phase(), cycle);
    synth.next_sample(carrier, modulator)
}

#[test]
fn new_voice_is_at_rest() {
    let synth = FMSynth::new(48_000, FMParams::default());
    assert_eq!(synth.envelope().state(), EnvelopeState::Idle);
    assert_eq!(synth.envelope().level(), 0);
    assert_eq!(synth.oscillator().carrier_phase(), 0);
    assert_eq!(synth.oscillator().modulator_phase(), 0);
    assert_eq!(synth.oscillator().sample_rate(), 48_000);
    assert_eq!(synth.oscillator().params(), FMParams::default());
}

#[test]
fn voice_is_silent_until_a_note_starts() {
    let mut synth = FMSynth::new(48_000, FMParams::default());
    for _ in 0..100 {
        assert_eq!(synth.next_sample(1_000_000, 0), 0);
    }
    // The oscillator runs on all the same.
    assert_eq!(synth.oscillator().carrier_phase(), 100 * 440_000);
    assert_eq!(synth.envelope().elapsed(), 100);
}

#[test]
fn sample_is_the_product_of_the_same_step() {
    let mut synth = FMSynth::new(48_000, FMParams::default());
    synth.note_on();
    // 0.3 * (1/480) = 0.000624..., 0.3 * (2/480) = 0.001249..., 0.3 * (3/480) = 0.001875
    assert_eq!(synth.next_sample(1_000_000, 0), 624);
    assert_eq!(synth.next_sample(1_000_000, 0), 1249);
    assert_eq!(synth.next_sample(-1_000_000, 0), -1875);
    assert_eq!(synth.envelope().elapsed(), 3);
    assert_eq!(synth.oscillator().carrier_phase(), 3 * 440_000);
}

#[test]
fn sustained_sample_is_scaled_by_the_sustain_level() {
    let mut synth = FMSynth::new(48_000, FMParams::default());
    synth.note_on();
    for _ in 0..(480 + 4800) {
        synth.next_sample(0, 0);
    }
    assert_eq!(synth.envelope().state(), EnvelopeState::Sustain);
    assert_eq!(synth.next_sample(1_000_000, 0), 210_000);
    assert_eq!(synth.next_sample(-1_000_000, 0), -210_000);
    assert_eq!(synth.next_sample(500_000, 0), 105_000);
}

#[test]
fn note_on_triggers_the_envelope_only() {
    let mut synth = FMSynth::new(48_000, FMParams::default());
    synth.next_sample(0, 0);
    synth.note_on();
    assert_eq!(synth.envelope().state(), EnvelopeState::Attack);
    assert_eq!(synth.envelope().elapsed(), 0);
    assert_eq!(synth.oscillator().carrier_phase(), 440_000);
    assert_eq!(synth.oscillator().params(), FMParams::default());
}

#[test]
fn note_off_releases_the_envelope_only() {
    let mut synth = FMSynth::new(48_000, FMParams::default());
    synth.note_on();
    synth.next_sample(0, 0);
    synth.note_off();
    assert_eq!(synth.envelope().state(), EnvelopeState::Release);
    assert_eq!(synth.envelope().elapsed(), 0);
    assert_eq!(synth.oscillator().carrier_phase(), 440_000);
}

#[test]
fn note_off_on_a_silent_voice_changes_nothing() {
    let mut synth = FMSynth::new(48_000, FMParams::default());
    synth.next_sample(0, 0);
    synth.note_off();
    assert_eq!(synth.envelope().state(), EnvelopeState::Idle);
    assert_eq!(synth.envelope().level(), 0);
    assert_eq!(synth.envelope().elapsed(), 1);
    assert_eq!(synth.next_sample(1_000_000, 0), 0);
}

#[test]
fn set_params_changes_the_tone_and_not_the_envelope() {
    let mut synth = FMSynth::new(48_000, FMParams::default());
    synth.note_on();
    for _ in 0..240 {
        synth.next_sample(0, 0);
    }
    let bass = FMParams {
        carrier_freq: 110_000,
        modulator_freq: 110_000,
        modulation_index: 1_500_000,
        amplitude: 500_000,
    };
    synth.set_params(bass);
    assert_eq!(synth.oscillator().params(), bass);
    assert_eq!(synth.oscillator().carrier_phase(), 240 * 440_000 % 48_000_000);
    assert_eq!(synth.envelope().state(), EnvelopeState::Attack);
    assert_eq!(synth.envelope().elapsed(), 240);
    assert_eq!(synth.envelope().level(), 500_000);
    // 0.5 * (241/480) = 0.25104...
    assert_eq!(synth.next_sample(1_000_000, 0), 251_041);
}

#[test]
fn whole_note_stays_within_the_amplitude_and_ends_in_silence() {
    let params = FMParams {
        carrier_freq: 440_000,
        modulator_freq: 880_000,
        modulation_index: 5_000_000,
        amplitude: 300_000,
    };
    let mut synth = FMSynth::new(48_000, params);
    synth.note_on();
    let mut loudest = 0;
    for _ in 0..38_400 {
        let sample = step(&mut synth);
        assert!((-300_000..=300_000).contains(&sample));
        loudest = loudest.max(sample.abs());
    }
    assert!(loudest > 200_000);
    synth.note_off();
    for _ in 0..24_000 {
        let sample = step(&mut synth);
        assert!((-210_000..=210_000).contains(&sample));
    }
    assert_eq!(synth.envelope().state(), EnvelopeState::Idle);
    for _ in 0..1000 {
        assert_eq!(step(&mut synth), 0);
    }
}

#[test]
fn retriggered_note_starts_its_attack_again() {
    let mut synth = FMSynth::new(48_000, FMParams::default());
    synth.note_on();
    for _ in 0..(480 + 4800 + 10) {
        synth.next_sample(1_000_000, 0);
    }
    assert_eq!(synth.next_sample(1_000_000, 0), 210_000);
    synth.note_on();
    assert_eq!(synth.next_sample(1_000_000, 0), 624);
}

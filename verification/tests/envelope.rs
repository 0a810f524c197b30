use fm_synth::envelope::{Envelope, EnvelopeState};

const UNIT: i64 = 1_000_000;

fn run(env: &mut Envelope, samples: u32) -> i64 {
    let mut last = env.level();
    for _ in 0..samples {
        last = env.process();
    }
    last
}

#[test]
fn new_envelope_is_idle_and_silent() {
    let mut env = Envelope::new(48_000);
    assert_eq!(env.state(), EnvelopeState::Idle);
    assert_eq!(env.level(), 0);
    assert_eq!(env.elapsed(), 0);
    for _ in 0..1000 {
        assert_eq!(env.process(), 0);
        assert_eq!(env.state(), EnvelopeState::Idle);
    }
    assert_eq!(env.elapsed(), 1000);
}

#[test]
fn release_while_idle_changes_nothing() {
    let mut env = Envelope::new(48_000);
    run(&mut env, 7);
    env.release();
    assert_eq!(env.state(), EnvelopeState::Idle);
    assert_eq!(env.level(), 0);
    assert_eq!(env.elapsed(), 7);
    assert_eq!(env.process(), 0);
    assert_eq!(env.state(), EnvelopeState::Idle);
    assert_eq!(env.elapsed(), 8);
}

#[test]
fn release_after_a_finished_note_changes_nothing() {
    let mut env = Envelope::new(48_000);
    env.trigger();
    run(&mut env, 480 + 4800);
    env.release();
    run(&mut env, 24_000);
    assert_eq!(env.state(), EnvelopeState::Idle);
    run(&mut env, 5);
    env.release();
    assert_eq!(env.state(), EnvelopeState::Idle);
    assert_eq!(env.level(), 0);
    assert_eq!(env.elapsed(), 5);
}

#[test]
fn trigger_enters_attack_and_resets_the_clock() {
    let mut env = Envelope::new(48_000);
    run(&mut env, 10);
    env.trigger();
    assert_eq!(env.state(), EnvelopeState::Attack);
    assert_eq!(env.elapsed(), 0);
    assert_eq!(env.level(), 0);
}

#[test]
fn full_cycle_timing_at_48_khz() {
    let mut env = Envelope::new(48_000);
    env.trigger();
    run(&mut env, 479);
    assert_eq!(env.state(), EnvelopeState::Attack);
    assert_eq!(env.elapsed(), 479);
    assert_eq!(env.process(), UNIT);
    assert_eq!(env.state(), EnvelopeState::Decay);
    assert_eq!(env.elapsed(), 0);

    run(&mut env, 4799);
    assert_eq!(env.state(), EnvelopeState::Decay);
    assert_eq!(env.process(), 700_000);
    assert_eq!(env.state(), EnvelopeState::Sustain);
    assert_eq!(env.level(), 700_000);

    env.release();
    assert_eq!(env.state(), EnvelopeState::Release);
    run(&mut env, 23_999);
    assert_eq!(env.state(), EnvelopeState::Release);
    assert_eq!(env.level(), 29);
    assert_eq!(env.process(), 0);
    assert_eq!(env.state(), EnvelopeState::Idle);
    assert_eq!(env.level(), 0);
    assert_eq!(env.elapsed(), 0);
}

#[test]
fn full_cycle_in_whole_blocks_at_48_khz() {
    let mut env = Envelope::new(48_000);
    env.trigger();
    run(&mut env, 480);
    assert_eq!(env.state(), EnvelopeState::Decay);
    run(&mut env, 4800);
    assert_eq!(env.state(), EnvelopeState::Sustain);
    assert_eq!(env.level(), 700_000);
    env.release();
    run(&mut env, 24_000);
    assert_eq!(env.state(), EnvelopeState::Idle);
    assert_eq!(env.level(), 0);
}

#[test]
fn ramps_reach_their_targets_at_44_1_khz() {
    let mut env = Envelope::new(44_100);
    env.trigger();
    let mut previous = 0;
    for step in 1..=441 {
        assert_eq!(env.state(), EnvelopeState::Attack);
        let level = env.process();
        assert!(level >= previous, "attack fell at step {}", step);
        previous = level;
    }
    assert_eq!(previous, UNIT);
    assert_eq!(env.state(), EnvelopeState::Decay);
    for step in 1..=4410 {
        assert_eq!(env.state(), EnvelopeState::Decay);
        let level = env.process();
        assert!(level <= previous, "decay rose at step {}", step);
        assert!(level >= 700_000);
        previous = level;
    }
    assert_eq!(previous, 700_000);
    assert_eq!(env.state(), EnvelopeState::Sustain);
}

#[test]
fn ramps_of_fractional_length_overshoot_by_less_than_a_step() {
    // 1234 us at 44.1 kHz is 54.4194 samples; 3333 us is 146.9853 samples.
    let mut env = Envelope::with_adsr(44_100, 1234, 3333, 250_000, 500_000);
    env.trigger();
    run(&mut env, 54);
    assert_eq!(env.state(), EnvelopeState::Attack);
    assert_eq!(env.level(), 992_293);
    assert_eq!(env.process(), 1_010_668);
    assert_eq!(env.state(), EnvelopeState::Decay);
    // One sample's rise is 1 / 54.4194 of full scale.
    assert!(env.level() - UNIT <= UNIT * 1_000_000 / (1234 * 44_100));
    assert_eq!(env.process(), 994_897);
    run(&mut env, 145);
    assert_eq!(env.state(), EnvelopeState::Decay);
    assert_eq!(env.level(), 255_027);
    assert_eq!(env.process(), 249_924);
    assert_eq!(env.state(), EnvelopeState::Sustain);
    // One sample's fall is 0.75 / 146.9853 of full scale.
    assert!(250_000 - env.level() <= 750_000 * 1_000_000 / (3333 * 44_100) + 1);
    assert_eq!(env.process(), 250_000);
}

#[test]
fn attack_level_is_the_linear_ramp_rounded_down() {
    let mut env = Envelope::new(48_000);
    env.trigger();
    assert_eq!(env.process(), 2083);
    run(&mut env, 238);
    assert_eq!(env.process(), 500_000);
    run(&mut env, 238);
    assert_eq!(env.process(), 997_916);
}

#[test]
fn decay_level_is_the_linear_ramp_rounded_down() {
    let mut env = Envelope::new(48_000);
    env.trigger();
    run(&mut env, 480);
    assert_eq!(env.process(), 999_937);
    run(&mut env, 2398);
    assert_eq!(env.process(), 850_000);
    run(&mut env, 2398);
    assert_eq!(env.process(), 700_062);
}

#[test]
fn release_level_is_the_linear_ramp_rounded_down() {
    let mut env = Envelope::new(48_000);
    env.trigger();
    run(&mut env, 480 + 4800);
    env.release();
    assert_eq!(env.process(), 699_970);
    run(&mut env, 11_998);
    assert_eq!(env.process(), 350_000);
}

#[test]
fn sustain_holds_until_released() {
    let mut env = Envelope::new(48_000);
    env.trigger();
    run(&mut env, 480 + 4800);
    for _ in 0..100_000 {
        assert_eq!(env.process(), 700_000);
        assert_eq!(env.state(), EnvelopeState::Sustain);
    }
    assert_eq!(env.elapsed(), 100_000);
}

#[test]
fn retrigger_during_sustain_restarts_the_attack_from_zero() {
    let mut env = Envelope::new(48_000);
    env.trigger();
    run(&mut env, 480 + 4800 + 100);
    assert_eq!(env.state(), EnvelopeState::Sustain);
    assert_eq!(env.level(), 700_000);
    env.trigger();
    assert_eq!(env.state(), EnvelopeState::Attack);
    assert_eq!(env.level(), 700_000);
    // 1 / (0.01 s * 48000 Hz) = 1/480
    assert_eq!(env.process(), 2083);
    assert_eq!(env.process(), 4166);
    assert_eq!(env.state(), EnvelopeState::Attack);
}

#[test]
fn retrigger_during_release_restarts_the_attack_from_zero() {
    let mut env = Envelope::new(48_000);
    env.trigger();
    run(&mut env, 480 + 4800);
    env.release();
    run(&mut env, 12_000);
    assert_eq!(env.level(), 350_000);
    env.trigger();
    assert_eq!(env.process(), 2083);
    assert_eq!(env.state(), EnvelopeState::Attack);
}

#[test]
fn retrigger_during_attack_restarts_the_attack() {
    let mut env = Envelope::new(48_000);
    env.trigger();
    run(&mut env, 240);
    assert_eq!(env.level(), 500_000);
    env.trigger();
    assert_eq!(env.elapsed(), 0);
    assert_eq!(env.process(), 2083);
}

#[test]
fn release_during_attack_jumps_to_the_release_ramp() {
    let mut env = Envelope::new(48_000);
    env.trigger();
    run(&mut env, 100);
    env.release();
    assert_eq!(env.state(), EnvelopeState::Release);
    assert_eq!(env.elapsed(), 0);
    assert_eq!(env.process(), 699_970);
}

#[test]
fn release_during_decay_jumps_to_the_release_ramp() {
    let mut env = Envelope::new(48_000);
    env.trigger();
    run(&mut env, 480 + 10);
    env.release();
    assert_eq!(env.state(), EnvelopeState::Release);
    assert_eq!(env.process(), 699_970);
    run(&mut env, 23_999);
    assert_eq!(env.state(), EnvelopeState::Idle);
    assert_eq!(env.level(), 0);
}

#[test]
fn attack_shorter_than_a_sample_ends_on_its_first_sample() {
    // 10 us at 48 kHz is 0.48 samples: the first sample is 1/0.48 of the way.
    let mut env = Envelope::with_adsr(48_000, 10, 100_000, 700_000, 500_000);
    env.trigger();
    assert_eq!(env.process(), 2_083_333);
    assert_eq!(env.state(), EnvelopeState::Decay);
}

#[test]
fn decay_to_zero_of_fractional_length_ends_below_zero() {
    // 7 us at 48 kHz is 0.336 samples.
    let mut env = Envelope::with_adsr(48_000, 10_000, 7, 0, 500_000);
    env.trigger();
    run(&mut env, 480);
    assert_eq!(env.state(), EnvelopeState::Decay);
    assert_eq!(env.process(), -1_976_191);
    assert_eq!(env.state(), EnvelopeState::Sustain);
    assert_eq!(env.process(), 0);
}

#[test]
fn sustain_at_full_scale_makes_the_decay_flat() {
    let mut env = Envelope::with_adsr(48_000, 10_000, 100_000, 1_000_000, 500_000);
    env.trigger();
    run(&mut env, 480);
    for _ in 0..4800 {
        assert_eq!(env.process(), UNIT);
    }
    assert_eq!(env.state(), EnvelopeState::Sustain);
    assert_eq!(env.process(), UNIT);
}

#[test]
fn levels_stay_within_full_scale_over_a_whole_note() {
    let mut env = Envelope::new(48_000);
    env.trigger();
    for _ in 0..10_000 {
        let level = env.process();
        assert!((0..=UNIT).contains(&level));
    }
    env.release();
    for _ in 0..30_000 {
        let level = env.process();
        assert!((0..=UNIT).contains(&level));
    }
    assert_eq!(env.state(), EnvelopeState::Idle);
}

#[test]
fn shortest_shape_at_the_lowest_rate() {
    let mut env = Envelope::with_adsr(1, 1, 1, 500_000, 1);
    env.trigger();
    // One microsecond at 1 Hz is a millionth of a sample.
    assert_eq!(env.process(), 1_000_000_000_000);
    assert_eq!(env.state(), EnvelopeState::Decay);
    assert_eq!(env.process(), 1_000_000 - 500_000_000_000);
    assert_eq!(env.state(), EnvelopeState::Sustain);
    env.release();
    assert_eq!(env.process(), 0);
    assert_eq!(env.state(), EnvelopeState::Idle);
}

#[test]
fn longest_shape_at_the_highest_rate() {
    let mut env = Envelope::with_adsr(u32::MAX, u32::MAX, u32::MAX, 700_000, u32::MAX);
    env.trigger();
    // span = (2^32 - 1)^2 millionths of a sample
    let span: i128 = (u32::MAX as i128) * (u32::MAX as i128);
    assert_eq!(env.process() as i128, (1_000_000i128 * 1_000_000) / span);
    run(&mut env, 999_999);
    assert_eq!(env.level() as i128, (1_000_000i128 * 1_000_000 * 1_000_000) / span);
    assert_eq!(env.state(), EnvelopeState::Attack);
}

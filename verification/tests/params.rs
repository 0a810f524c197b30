use fm_synth::fixed::UNIT;
use fm_synth::params::{example_presets, FMParams};

#[test]
fn default_tone() {
    let params = FMParams::default();
    assert_eq!(params.carrier_freq, 440_000);
    assert_eq!(params.modulator_freq, 220_000);
    assert_eq!(params.modulation_index, 2_000_000);
    assert_eq!(params.amplitude, 300_000);
}

#[test]
fn full_scale_is_a_million() {
    assert_eq!(UNIT, 1_000_000);
}

#[test]
fn presets_are_the_four_named_timbres() {
    let presets = example_presets();
    assert_eq!(presets.len(), 4);
    assert_eq!(
        presets[0],
        (
            "Bell",
            FMParams {
                carrier_freq: 440_000,
                modulator_freq: 440_000,
                modulation_index: 7_000_000,
                amplitude: 300_000,
            }
        )
    );
    assert_eq!(
        presets[1],
        (
            "Bass",
            FMParams {
                carrier_freq: 110_000,
                modulator_freq: 110_000,
                modulation_index: 1_500_000,
                amplitude: 500_000,
            }
        )
    );
    assert_eq!(
        presets[2],
        (
            "Electric Piano",
            FMParams {
                carrier_freq: 440_000,
                modulator_freq: 880_000,
                modulation_index: 3_000_000,
                amplitude: 400_000,
            }
        )
    );
    assert_eq!(
        presets[3],
        (
            "Brass",
            FMParams {
                carrier_freq: 440_000,
                modulator_freq: 440_000,
                modulation_index: 2_500_000,
                amplitude: 400_000,
            }
        )
    );
}

#[test]
fn presets_keep_their_amplitude_within_full_scale() {
    for (_, params) in example_presets() {
        assert!(params.amplitude as i64 <= UNIT);
        assert!(params.carrier_freq > 0);
    }
}

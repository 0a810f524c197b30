//! Tone parameters of the FM oscillator, and a few ready-made timbres.

use vstd::prelude::*;

verus! {

/// The parameters of one FM tone. A value is replaced as a whole, never in
/// part.
///
/// Frequencies are in millihertz; the modulation index and the amplitude are
/// in millionths, so `1_000_000` is an index of 1.0 or full-scale amplitude.
/// No combination of values faults: an amplitude above full scale or an extreme
/// index only alters the waveform.
#[derive(Clone, Copy, Debug, PartialEq, Eq, Structural)]
pub struct FMParams {
    /// Carrier frequency, in millihertz.
    pub carrier_freq: u32,
    /// Modulator frequency, in millihertz.
    pub modulator_freq: u32,
    /// Modulation depth, in millionths.
    pub modulation_index: u32,
    /// Output amplitude, in millionths of full scale.
    pub amplitude: u32,
}

impl FMParams {
    /// The default tone: carrier 440 Hz, modulator 220 Hz, index 2.0,
    /// amplitude 0.3.
    pub open spec fn default_tone() -> FMParams {
        FMParams {
            carrier_freq: 440_000,
            modulator_freq: 220_000,
            modulation_index: 2_000_000,
            amplitude: 300_000,
        }
    }
}

impl Default for FMParams {
    fn default() -> (p: Self)
        ensures
            p == FMParams::default_tone(),
    {
        FMParams {
            carrier_freq: 440_000,
            modulator_freq: 220_000,
            modulation_index: 2_000_000,
            amplitude: 300_000,
        }
    }
}

/// The timbres that [`example_presets`] returns, in order.
pub open spec fn preset_tones() -> Seq<FMParams> {
    seq![
        FMParams {
            carrier_freq: 440_000,
            modulator_freq: 440_000,
            modulation_index: 7_000_000,
            amplitude: 300_000,
        },
        FMParams {
            carrier_freq: 110_000,
            modulator_freq: 110_000,
            modulation_index: 1_500_000,
            amplitude: 500_000,
        },
        FMParams {
            carrier_freq: 440_000,
            modulator_freq: 880_000,
            modulation_index: 3_000_000,
            amplitude: 400_000,
        },
        FMParams {
            carrier_freq: 440_000,
            modulator_freq: 440_000,
            modulation_index: 2_500_000,
            amplitude: 400_000,
        },
    ]
}

/// The names of the timbres that [`example_presets`] returns, in order.
pub open spec fn preset_names() -> Seq<Seq<char>> {
    seq!["Bell"@, "Bass"@, "Electric Piano"@, "Brass"@]
}

/// Four named timbres: a bell, a bass, an electric piano and a brass.
pub fn example_presets() -> (presets: Vec<(&'static str, FMParams)>)
    ensures
        presets@.len() == 4,
        forall|i: int| 0 <= i < 4 ==> (#[trigger] presets@[i]).0@ == preset_names()[i],
        forall|i: int| 0 <= i < 4 ==> (#[trigger] presets@[i]).1 == preset_tones()[i],
{
    let mut presets: Vec<(&'static str, FMParams)> = Vec::new();
    presets.push(
        (
            "Bell",
            FMParams {
                carrier_freq: 440_000,
                modulator_freq: 440_000,
                modulation_index: 7_000_000,
                amplitude: 300_000,
            },
        ),
    );
    presets.push(
        (
            "Bass",
            FMParams {
                carrier_freq: 110_000,
                modulator_freq: 110_000,
                modulation_index: 1_500_000,
                amplitude: 500_000,
            },
        ),
    );
    presets.push(
        (
            "Electric Piano",
            FMParams {
                carrier_freq: 440_000,
                modulator_freq: 880_000,
                modulation_index: 3_000_000,
                amplitude: 400_000,
            },
        ),
    );
    presets.push(
        (
            "Brass",
            FMParams {
                carrier_freq: 440_000,
                modulator_freq: 440_000,
                modulation_index: 2_500_000,
                amplitude: 400_000,
            },
        ),
    );
    presets
}

} // verus!

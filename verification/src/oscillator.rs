//! Two-operator FM oscillator: a pair of phase accumulators.
//!
//! A phase is a whole number of ticks, of which `1000 * sample_rate` make one
//! cycle, so a frequency in millihertz is exactly the number of ticks by which
//! the phase moves per sample. The library does no trigonometry. The caller
//! evaluates the sine of each phase and hands the two values in, in
//! millionths; the oscillator scales the carrier's and bends the carrier's
//! frequency by the modulator's.

use vstd::prelude::*;
use crate::fixed::{
    lemma_scaled_bounded, lemma_scaled_limited, magnitude, scale, scaled, trunc_div, wrap, UNIT,
};
use crate::params::FMParams;

verus! {

/// Millihertz in a hertz: a cycle has this many phase ticks per hertz of
/// sample rate.
pub const MILLIHERTZ_PER_HERTZ: u64 = 1000;

/// The carrier's frequency in millihertz while the modulator's waveform reads
/// `wave` millionths: `carrier * (1 + index * wave)`, the deflection rounded
/// toward zero. It is negative when the deflection exceeds the carrier.
pub open spec fn instantaneous_freq(params: FMParams, wave: int) -> int {
    params.carrier_freq + trunc_div(
        params.carrier_freq * params.modulation_index * wave,
        UNIT * UNIT,
    )
}

/// The mathematical state of an [`FMOscillator`].
pub struct OscillatorModel {
    /// Sample rate in hertz.
    pub sample_rate: nat,
    /// Carrier phase in ticks.
    pub carrier_phase: nat,
    /// Modulator phase in ticks.
    pub modulator_phase: nat,
    /// Current tone.
    pub params: FMParams,
}

impl OscillatorModel {
    /// Ticks in one cycle.
    pub open spec fn cycle(self) -> int {
        MILLIHERTZ_PER_HERTZ * self.sample_rate
    }

    /// The sample rate is positive and representable, and both phases lie
    /// within one cycle.
    pub open spec fn wf(self) -> bool {
        &&& 0 < self.sample_rate <= u32::MAX
        &&& self.carrier_phase < self.cycle()
        &&& self.modulator_phase < self.cycle()
    }

    /// A fresh oscillator: both phases at zero.
    pub open spec fn start(sample_rate: nat, params: FMParams) -> Self {
        OscillatorModel { sample_rate, carrier_phase: 0, modulator_phase: 0, params }
    }

    /// The same oscillator with another tone; the phases carry on.
    pub open spec fn set_params(self, params: FMParams) -> Self {
        OscillatorModel { params, ..self }
    }

    /// The sample heard when the carrier's waveform reads `carrier_wave`.
    pub open spec fn output(self, carrier_wave: int) -> int {
        scaled(carrier_wave, self.params.amplitude as int)
    }

    /// One sample later: each phase moved by its frequency and reduced into
    /// the cycle.
    pub open spec fn advance(self, modulator_wave: int) -> Self {
        OscillatorModel {
            carrier_phase: ((self.carrier_phase + instantaneous_freq(self.params, modulator_wave))
                % self.cycle()) as nat,
            modulator_phase: ((self.modulator_phase + self.params.modulator_freq)
                % self.cycle()) as nat,
            ..self
        }
    }
}

/// An FM oscillator.
#[derive(Debug)]
pub struct FMOscillator {
    sample_rate: u32,
    carrier_phase: u64,
    modulator_phase: u64,
    params: FMParams,
}

impl View for FMOscillator {
    type V = OscillatorModel;

    closed spec fn view(&self) -> OscillatorModel {
        OscillatorModel {
            sample_rate: self.sample_rate as nat,
            carrier_phase: self.carrier_phase as nat,
            modulator_phase: self.modulator_phase as nat,
            params: self.params,
        }
    }
}

/// Computes [`instantaneous_freq`] on machine integers.
fn instantaneous(params: FMParams, wave: i32) -> (freq: i64)
    ensures
        freq == instantaneous_freq(params, wave as int),
        -0x200_0000_0000_0000 <= freq <= 0x200_0000_0000_0000,
{
    assert(params.carrier_freq * params.modulation_index <= 0x1_0000_0000_0000_0000)
        by (nonlinear_arith);
    let depth: u128 = params.carrier_freq as u128 * params.modulation_index as u128;
    let size: u128 = magnitude(wave as i64);
    assert(depth * size <= 0x1_0000_0000_0000_0000 * 0x8000_0000) by (nonlinear_arith)
        requires
            depth <= 0x1_0000_0000_0000_0000,
            size <= 0x8000_0000,
    ;
    let swing: u128 = depth * size;
    let deflection: u128 = swing / 1_000_000_000_000;
    proof {
        let product = params.carrier_freq * params.modulation_index * wave;
        assert(product == if wave >= 0 { swing as int } else { -(swing as int) })
            by (nonlinear_arith)
            requires
                product == params.carrier_freq * params.modulation_index * wave,
                swing == depth * size,
                depth == params.carrier_freq * params.modulation_index,
                size == if wave >= 0 { wave as int } else { -(wave as int) },
        ;
    }
    if wave >= 0 {
        params.carrier_freq as i64 + deflection as i64
    } else {
        params.carrier_freq as i64 - deflection as i64
    }
}

impl FMOscillator {
    /// Every oscillator is well formed at all times.
    #[verifier::type_invariant]
    pub open spec fn inv(&self) -> bool {
        self@.wf()
    }

    /// An oscillator at rest: both phases at zero.
    pub fn new(sample_rate: u32, params: FMParams) -> (osc: Self)
        requires
            sample_rate > 0,
        ensures
            osc@ == OscillatorModel::start(sample_rate as nat, params),
            osc@.wf(),
    {
        FMOscillator { sample_rate, carrier_phase: 0, modulator_phase: 0, params }
    }

    /// The sample rate, in hertz.
    pub fn sample_rate(&self) -> (rate: u32)
        ensures
            rate == self@.sample_rate,
    {
        self.sample_rate
    }

    /// The current tone.
    pub fn params(&self) -> (params: FMParams)
        ensures
            params == self@.params,
    {
        self.params
    }

    /// The number of phase ticks in one cycle: `1000 * sample_rate`.
    pub fn cycle(&self) -> (ticks: u64)
        ensures
            ticks == self@.cycle(),
            ticks > 0,
    {
        proof {
            use_type_invariant(self);
        }
        MILLIHERTZ_PER_HERTZ * self.sample_rate as u64
    }

    /// The carrier's phase, in ticks: the fraction `carrier_phase / cycle` of
    /// a cycle.
    pub fn carrier_phase(&self) -> (ticks: u64)
        ensures
            ticks == self@.carrier_phase,
            ticks < self@.cycle(),
    {
        proof {
            use_type_invariant(self);
        }
        self.carrier_phase
    }

    /// The modulator's phase, in ticks: the fraction `modulator_phase / cycle`
    /// of a cycle.
    pub fn modulator_phase(&self) -> (ticks: u64)
        ensures
            ticks == self@.modulator_phase,
            ticks < self@.cycle(),
    {
        proof {
            use_type_invariant(self);
        }
        self.modulator_phase
    }

    /// Replaces the tone as a whole. The phases carry on, so the waveform
    /// stays continuous.
    pub fn set_params(&mut self, params: FMParams)
        ensures
            final(self)@ == old(self)@.set_params(params),
            final(self)@.wf(),
    {
        proof {
            use_type_invariant(&*self);
        }
        self.params = params;
    }

    /// Produces one sample and moves both phases on by one sample period.
    ///
    /// `carrier_wave` and `modulator_wave` are the readings, in millionths, of
    /// the carrier's and the modulator's waveform at the phases that stand
    /// before the call: for a sine, `sin(2 * pi * phase / cycle)`. The sample
    /// is the carrier's reading scaled by the amplitude, so while that reading
    /// is a sine's, within full scale, the sample never exceeds the amplitude
    /// in magnitude. No reading faults: one beyond full scale only alters the
    /// waveform.
    pub fn next_sample(&mut self, carrier_wave: i32, modulator_wave: i32) -> (sample: i64)
        ensures
            sample == old(self)@.output(carrier_wave as int),
            -UNIT <= carrier_wave <= UNIT ==> -old(self)@.params.amplitude <= sample <= old(
                self,
            )@.params.amplitude,
            final(self)@ == old(self)@.advance(modulator_wave as int),
            final(self)@.wf(),
    {
        proof {
            use_type_invariant(&*self);
            if -UNIT <= carrier_wave <= UNIT {
                lemma_scaled_bounded(carrier_wave as int, self.params.amplitude as int);
            }
            lemma_scaled_limited(
                carrier_wave as int,
                self.params.amplitude as int,
                0x8000_0000,
                0x1_0000_0000,
            );
        }
        let sample: i64 = scale(carrier_wave as i64, self.params.amplitude as i64) as i64;
        let freq: i64 = instantaneous(self.params, modulator_wave);
        let cycle: u64 = MILLIHERTZ_PER_HERTZ * self.sample_rate as u64;
        let carrier: u64 = wrap(self.carrier_phase as i128 + freq as i128, cycle);
        let modulator: u64 = wrap(
            self.modulator_phase as i128 + self.params.modulator_freq as i128,
            cycle,
        );
        self.carrier_phase = carrier;
        self.modulator_phase = modulator;
        sample
    }
}

} // verus!

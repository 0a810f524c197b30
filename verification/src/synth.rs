//! A voice: one oscillator shaped by one envelope.

use vstd::prelude::*;
use crate::envelope::{
    lemma_level_within_unit, Envelope, EnvelopeModel, EnvelopeState, DEFAULT_ATTACK,
    DEFAULT_DECAY, DEFAULT_RELEASE, DEFAULT_SUSTAIN, LEVEL_LIMIT,
};
use crate::fixed::{lemma_scaled_bounded, lemma_scaled_limited, scale, scaled, UNIT};
use crate::oscillator::{FMOscillator, OscillatorModel};
use crate::params::FMParams;

verus! {

/// The mathematical state of an [`FMSynth`].
pub struct SynthModel {
    /// The oscillator's state.
    pub oscillator: OscillatorModel,
    /// The envelope's state.
    pub envelope: EnvelopeModel,
}

impl SynthModel {
    /// Both components are well formed.
    pub open spec fn wf(self) -> bool {
        self.oscillator.wf() && self.envelope.wf()
    }

    /// A fresh voice: oscillator at rest, envelope idle with the default
    /// shape.
    pub open spec fn start(sample_rate: nat, params: FMParams) -> Self {
        SynthModel {
            oscillator: OscillatorModel::start(sample_rate, params),
            envelope: EnvelopeModel::idle(
                DEFAULT_ATTACK as nat,
                DEFAULT_DECAY as nat,
                DEFAULT_SUSTAIN as nat,
                DEFAULT_RELEASE as nat,
                sample_rate,
            ),
        }
    }

    /// Note on: the envelope is triggered, the oscillator is untouched.
    pub open spec fn note_on(self) -> Self {
        SynthModel { envelope: self.envelope.trigger(), ..self }
    }

    /// Note off: the envelope is released, the oscillator is untouched.
    pub open spec fn note_off(self) -> Self {
        SynthModel { envelope: self.envelope.release(), ..self }
    }

    /// Another tone: the oscillator's parameters change, the envelope is
    /// untouched.
    pub open spec fn set_params(self, params: FMParams) -> Self {
        SynthModel { oscillator: self.oscillator.set_params(params), ..self }
    }

    /// One sample later: each component has taken exactly one step.
    pub open spec fn advance(self, modulator_wave: int) -> Self {
        SynthModel {
            oscillator: self.oscillator.advance(modulator_wave),
            envelope: self.envelope.process(),
        }
    }

    /// The sample of this step: the oscillator's output times the envelope's
    /// level of the same step.
    pub open spec fn output(self, carrier_wave: int) -> int {
        scaled(self.oscillator.output(carrier_wave), self.envelope.process().level)
    }
}

/// A voice is silent while its envelope is idle, and no louder than its
/// oscillator while the envelope reads within full scale.
pub proof fn lemma_voice_bounded(m: SynthModel, carrier_wave: int)
    requires
        m.wf(),
        -UNIT <= carrier_wave <= UNIT,
    ensures
        m.envelope.stage == EnvelopeState::Idle ==> m.output(carrier_wave) == 0,
        !m.envelope.overshoots() ==> -m.oscillator.params.amplitude <= m.output(carrier_wave)
            <= m.oscillator.params.amplitude,
{
    let amplitude = m.oscillator.params.amplitude as int;
    let osc_out = m.oscillator.output(carrier_wave);
    let level = m.envelope.process().level;
    lemma_scaled_bounded(carrier_wave, amplitude);
    if !m.envelope.overshoots() {
        lemma_level_within_unit(m.envelope);
        lemma_scaled_bounded(level, osc_out);
    }
}

/// An FM voice with an amplitude envelope.
#[derive(Debug)]
pub struct FMSynth {
    oscillator: FMOscillator,
    envelope: Envelope,
}

impl View for FMSynth {
    type V = SynthModel;

    closed spec fn view(&self) -> SynthModel {
        SynthModel { oscillator: self.oscillator@, envelope: self.envelope@ }
    }
}

impl FMSynth {
    /// A silent voice at the given sample rate, in hertz, which stays fixed
    /// for the life of the voice.
    pub fn new(sample_rate: u32, params: FMParams) -> (synth: Self)
        requires
            sample_rate > 0,
        ensures
            synth@ == SynthModel::start(sample_rate as nat, params),
            synth@.wf(),
    {
        FMSynth {
            oscillator: FMOscillator::new(sample_rate, params),
            envelope: Envelope::new(sample_rate),
        }
    }

    /// The oscillator, whose phases tell where to read the two waveforms for
    /// the next sample.
    pub fn oscillator(&self) -> (oscillator: &FMOscillator)
        ensures
            oscillator@ == self@.oscillator,
    {
        &self.oscillator
    }

    /// The envelope.
    pub fn envelope(&self) -> (envelope: &Envelope)
        ensures
            envelope@ == self@.envelope,
    {
        &self.envelope
    }

    /// Produces one sample: steps the oscillator and the envelope once each
    /// and multiplies what the two return.
    ///
    /// `carrier_wave` and `modulator_wave` are the readings, in millionths, of
    /// the oscillator's two waveforms at the phases that stand before the
    /// call. The carrier's reading has to lie within full scale, as a sine's
    /// does, for the product to fit the sample.
    pub fn next_sample(&mut self, carrier_wave: i32, modulator_wave: i32) -> (sample: i64)
        requires
            -UNIT <= carrier_wave <= UNIT,
        ensures
            sample == old(self)@.output(carrier_wave as int),
            final(self)@ == old(self)@.advance(modulator_wave as int),
            final(self)@.wf(),
            old(self)@.envelope.stage == EnvelopeState::Idle ==> sample == 0,
            !old(self)@.envelope.overshoots() ==> -old(self)@.oscillator.params.amplitude
                <= sample <= old(self)@.oscillator.params.amplitude,
    {
        proof {
            use_type_invariant(&self.oscillator);
            use_type_invariant(&self.envelope);
            lemma_voice_bounded(self@, carrier_wave as int);
        }
        let osc_out: i64 = self.oscillator.next_sample(carrier_wave, modulator_wave);
        let env_out: i64 = self.envelope.process();
        proof {
            lemma_scaled_limited(
                osc_out as int,
                env_out as int,
                0x1_0000_0000,
                LEVEL_LIMIT as int,
            );
        }
        scale(osc_out, env_out) as i64
    }

    /// Starts a note: triggers the envelope.
    pub fn note_on(&mut self)
        ensures
            final(self)@ == old(self)@.note_on(),
            final(self)@.wf(),
    {
        proof {
            use_type_invariant(&self.oscillator);
        }
        self.envelope.trigger();
    }

    /// Ends a note: releases the envelope.
    pub fn note_off(&mut self)
        ensures
            final(self)@ == old(self)@.note_off(),
            final(self)@.wf(),
    {
        proof {
            use_type_invariant(&self.oscillator);
        }
        self.envelope.release();
    }

    /// Replaces the tone. The envelope's shape is no part of the tone and
    /// stays as it is.
    pub fn set_params(&mut self, params: FMParams)
        ensures
            final(self)@ == old(self)@.set_params(params),
            final(self)@.wf(),
    {
        proof {
            use_type_invariant(&self.envelope);
        }
        self.oscillator.set_params(params);
    }
}

} // verus!

//! How an oscillator's phases move over many samples.

use vstd::prelude::*;
use vstd::arithmetic::div_mod::{
    lemma_add_mod_noop_right, lemma_mod_add_multiples_vanish, lemma_small_mod,
};
use crate::oscillator::{instantaneous_freq, OscillatorModel};

verus! {

impl OscillatorModel {
    /// The oscillator after one sample for each element of `waves`: the
    /// readings of the modulator's waveform, sample by sample.
    pub open spec fn run(self, waves: Seq<int>) -> Self
        decreases waves.len(),
    {
        if waves.len() == 0 {
            self
        } else {
            self.run(waves.drop_last()).advance(waves.last())
        }
    }
}

/// One sample leaves both phases within the cycle, whatever the tone and
/// whatever the modulator reads, and changes neither the sample rate nor the
/// tone.
pub proof fn lemma_advance_wf(m: OscillatorModel, wave: int)
    requires
        m.wf(),
    ensures
        m.advance(wave).wf(),
        0 <= m.advance(wave).carrier_phase < m.cycle(),
        0 <= m.advance(wave).modulator_phase < m.cycle(),
        m.advance(wave).sample_rate == m.sample_rate,
        m.advance(wave).params == m.params,
{
}

/// Both phases stay within the cycle for any number of samples in a row: they
/// neither grow without bound nor go negative.
pub proof fn lemma_phases_stay_wrapped(m: OscillatorModel, waves: Seq<int>)
    requires
        m.wf(),
    ensures
        m.run(waves).wf(),
        0 <= m.run(waves).carrier_phase < m.cycle(),
        0 <= m.run(waves).modulator_phase < m.cycle(),
        m.run(waves).sample_rate == m.sample_rate,
        m.run(waves).params == m.params,
    decreases waves.len(),
{
    if waves.len() > 0 {
        lemma_phases_stay_wrapped(m, waves.drop_last());
    }
}

/// While a phase moves forward by less than a cycle per sample, as it does at
/// audio rates, reducing it into the cycle is at most one subtraction of a
/// whole cycle.
pub proof fn lemma_single_wrap(m: OscillatorModel, wave: int)
    requires
        m.wf(),
    ensures
        ({
            let carrier = m.carrier_phase + instantaneous_freq(m.params, wave);
            let modulator = m.modulator_phase + m.params.modulator_freq;
            &&& 0 <= instantaneous_freq(m.params, wave) < m.cycle() ==> m.advance(
                wave,
            ).carrier_phase == if carrier >= m.cycle() {
                carrier - m.cycle()
            } else {
                carrier
            }
            &&& m.params.modulator_freq < m.cycle() ==> m.advance(wave).modulator_phase
                == if modulator >= m.cycle() {
                modulator - m.cycle()
            } else {
                modulator
            }
        }),
{
    let c = m.cycle();
    let f = instantaneous_freq(m.params, wave);
    if 0 <= f < c {
        lemma_wrap_once(m.carrier_phase + f, c);
    }
    if m.params.modulator_freq < c {
        lemma_wrap_once(m.modulator_phase + m.params.modulator_freq, c);
    }
}

/// The remainder of a value below two cycles.
proof fn lemma_wrap_once(x: int, c: int)
    requires
        0 <= x < 2 * c,
    ensures
        x % c == if x >= c {
            x - c
        } else {
            x
        },
{
    if x >= c {
        lemma_small_mod((x - c) as nat, c as nat);
        lemma_mod_add_multiples_vanish(x - c, c);
    } else {
        lemma_small_mod(x as nat, c as nat);
    }
}

/// The modulator runs at its own frequency whatever else happens: after `n`
/// samples its phase is its starting phase plus `n` times its frequency,
/// reduced into the cycle.
pub proof fn lemma_modulator_phase(m: OscillatorModel, waves: Seq<int>)
    requires
        m.wf(),
    ensures
        m.run(waves).modulator_phase == (m.modulator_phase + waves.len()
            * m.params.modulator_freq) % m.cycle(),
    decreases waves.len(),
{
    let c = m.cycle();
    let f = m.params.modulator_freq as int;
    if waves.len() == 0 {
        lemma_small_mod(m.modulator_phase, c as nat);
    } else {
        let before = waves.drop_last();
        lemma_modulator_phase(m, before);
        lemma_phases_stay_wrapped(m, before);
        let x = m.modulator_phase + before.len() * f;
        lemma_add_mod_noop_right(f, x, c);
        assert(x + f == m.modulator_phase + waves.len() * f) by (nonlinear_arith)
            requires
                x == m.modulator_phase + before.len() * f,
                waves.len() == before.len() + 1,
        ;
    }
}

/// With a modulation index of zero the oscillator is a plain tone at the
/// carrier frequency: the modulator's readings have no effect, and after `n`
/// samples the carrier's phase is its starting phase plus `n` times the
/// carrier frequency, reduced into the cycle. The `n`-th sample of a fresh
/// oscillator, counted from zero, is therefore the carrier's waveform at
/// `n * carrier_freq` ticks, scaled by the amplitude.
pub proof fn lemma_pure_tone(m: OscillatorModel, waves: Seq<int>)
    requires
        m.wf(),
        m.params.modulation_index == 0,
    ensures
        forall|wave: int| instantaneous_freq(m.params, wave) == m.params.carrier_freq,
        m.run(waves).carrier_phase == (m.carrier_phase + waves.len() * m.params.carrier_freq)
            % m.cycle(),
    decreases waves.len(),
{
    let c = m.cycle();
    let f = m.params.carrier_freq as int;
    assert forall|wave: int| instantaneous_freq(m.params, wave) == m.params.carrier_freq by {
        assert(m.params.carrier_freq * m.params.modulation_index * wave == 0)
            by (nonlinear_arith)
            requires
                m.params.modulation_index == 0,
        ;
    }
    if waves.len() == 0 {
        lemma_small_mod(m.carrier_phase, c as nat);
    } else {
        let before = waves.drop_last();
        lemma_pure_tone(m, before);
        lemma_phases_stay_wrapped(m, before);
        let x = m.carrier_phase + before.len() * f;
        lemma_add_mod_noop_right(f, x, c);
        assert(x + f == m.carrier_phase + waves.len() * f) by (nonlinear_arith)
            requires
                x == m.carrier_phase + before.len() * f,
                waves.len() == before.len() + 1,
        ;
    }
}

} // verus!

//! ADSR envelope: a five-stage state machine driven by a sample clock.
//!
//! Durations are whole microseconds, the sample rate is whole hertz, and the
//! clock counts samples, so "the elapsed time has reached the stage's duration"
//! is the exact integer comparison `elapsed * 1_000_000 >= duration * rate`.
//! Levels are in millionths of full scale and are the exact linear ramp of the
//! stage, rounded down.

use vstd::prelude::*;
use vstd::arithmetic::div_mod::{
    lemma_div_is_ordered, lemma_div_multiples_vanish, lemma_fundamental_div_mod,
    lemma_fundamental_div_mod_converse,
};
use crate::fixed::{lemma_ramp_between, ramp, UNIT};

verus! {

/// Microseconds in a second: one sample advances the clock by this many
/// millionths of a sample.
pub const MICROS_PER_SECOND: u64 = 1_000_000;

/// No level that the envelope computes exceeds this magnitude.
pub const LEVEL_LIMIT: i64 = 2_000_000_000_000;

/// Default attack time, in microseconds (0.01 s).
pub const DEFAULT_ATTACK: u32 = 10_000;

/// Default decay time, in microseconds (0.1 s).
pub const DEFAULT_DECAY: u32 = 100_000;

/// Default sustain level, in millionths of full scale (0.7).
pub const DEFAULT_SUSTAIN: u32 = 700_000;

/// Default release time, in microseconds (0.5 s).
pub const DEFAULT_RELEASE: u32 = 500_000;

/// The stage of an envelope.
#[derive(Clone, Copy, Debug, PartialEq, Eq, Structural)]
pub enum EnvelopeState {
    Idle,
    Attack,
    Decay,
    Sustain,
    Release,
}

/// The length of a stage of `duration` microseconds at `sample_rate` hertz,
/// in millionths of a sample.
pub open spec fn span(duration: nat, sample_rate: nat) -> int {
    (duration * sample_rate) as int
}

/// The time that `elapsed` samples take, in millionths of a sample.
pub open spec fn clock(elapsed: nat) -> int {
    elapsed * MICROS_PER_SECOND
}

/// The sample clock one sample later. It saturates at the largest 64-bit
/// count instead of wrapping.
pub open spec fn tick(elapsed: nat) -> nat {
    if elapsed < u64::MAX {
        elapsed + 1
    } else {
        elapsed
    }
}

/// The mathematical state of an [`Envelope`].
pub struct EnvelopeModel {
    /// Attack time in microseconds.
    pub attack: nat,
    /// Decay time in microseconds.
    pub decay: nat,
    /// Sustain level in millionths of full scale.
    pub sustain: nat,
    /// Release time in microseconds.
    pub release: nat,
    /// Sample rate in hertz.
    pub sample_rate: nat,
    /// Current stage.
    pub stage: EnvelopeState,
    /// Samples processed since the current stage was entered.
    pub elapsed: nat,
    /// The level last computed, in millionths of full scale.
    pub level: int,
}

impl EnvelopeModel {
    /// The shape is valid (positive times and rate, sustain at most full
    /// scale, all representable), and a timed stage has not yet run its course.
    pub open spec fn wf(self) -> bool {
        &&& 0 < self.attack <= u32::MAX
        &&& 0 < self.decay <= u32::MAX
        &&& 0 < self.release <= u32::MAX
        &&& self.sustain <= UNIT
        &&& 0 < self.sample_rate <= u32::MAX
        &&& self.elapsed <= u64::MAX
        &&& -LEVEL_LIMIT <= self.level <= LEVEL_LIMIT
        &&& self.stage == EnvelopeState::Attack ==> clock(self.elapsed) < span(
            self.attack,
            self.sample_rate,
        )
        &&& self.stage == EnvelopeState::Decay ==> clock(self.elapsed) < span(
            self.decay,
            self.sample_rate,
        )
        &&& self.stage == EnvelopeState::Release ==> clock(self.elapsed) < span(
            self.release,
            self.sample_rate,
        )
    }

    /// The current stage ends by itself after a fixed time.
    pub open spec fn timed(self) -> bool {
        self.stage == EnvelopeState::Attack || self.stage == EnvelopeState::Decay || self.stage
            == EnvelopeState::Release
    }

    /// The length of the current stage in millionths of a sample; zero for a
    /// stage that is not timed.
    pub open spec fn stage_span(self) -> int {
        match self.stage {
            EnvelopeState::Attack => span(self.attack, self.sample_rate),
            EnvelopeState::Decay => span(self.decay, self.sample_rate),
            EnvelopeState::Release => span(self.release, self.sample_rate),
            _ => 0,
        }
    }

    /// The next sample runs past the end of an attack or a decay. Only such a
    /// sample reads its ramp beyond the target; it happens at most once per
    /// stage, and never when the stage is a whole number of samples long.
    pub open spec fn overshoots(self) -> bool {
        &&& self.stage == EnvelopeState::Attack || self.stage == EnvelopeState::Decay
        &&& clock(tick(self.elapsed)) > self.stage_span()
    }

    /// A fresh envelope of the given shape: idle, silent, clock at zero.
    pub open spec fn idle(attack: nat, decay: nat, sustain: nat, release: nat, sample_rate: nat)
        -> Self {
        EnvelopeModel {
            attack,
            decay,
            sustain,
            release,
            sample_rate,
            stage: EnvelopeState::Idle,
            elapsed: 0,
            level: 0,
        }
    }

    /// Note on: enter Attack from any stage and restart the clock. The level
    /// is left as it was; the next sample reads the attack ramp from its start.
    pub open spec fn trigger(self) -> Self {
        EnvelopeModel { stage: EnvelopeState::Attack, elapsed: 0, ..self }
    }

    /// Note off: enter Release and restart the clock, unless idle.
    pub open spec fn release(self) -> Self {
        if self.stage == EnvelopeState::Idle {
            self
        } else {
            EnvelopeModel { stage: EnvelopeState::Release, elapsed: 0, ..self }
        }
    }

    /// One sample: advance the clock, read the level of the current stage at
    /// the new time, and leave the stage once its duration has been reached.
    pub open spec fn process(self) -> Self {
        let n = tick(self.elapsed);
        match self.stage {
            EnvelopeState::Idle => EnvelopeModel { elapsed: n, level: 0, ..self },
            EnvelopeState::Attack => {
                let s = span(self.attack, self.sample_rate);
                let level = ramp(0, UNIT as int, clock(n), s);
                if clock(n) >= s {
                    EnvelopeModel { stage: EnvelopeState::Decay, elapsed: 0, level, ..self }
                } else {
                    EnvelopeModel { elapsed: n, level, ..self }
                }
            },
            EnvelopeState::Decay => {
                let s = span(self.decay, self.sample_rate);
                let level = ramp(UNIT as int, self.sustain as int, clock(n), s);
                if clock(n) >= s {
                    EnvelopeModel { stage: EnvelopeState::Sustain, elapsed: 0, level, ..self }
                } else {
                    EnvelopeModel { elapsed: n, level, ..self }
                }
            },
            EnvelopeState::Sustain => EnvelopeModel {
                elapsed: n,
                level: self.sustain as int,
                ..self
            },
            EnvelopeState::Release => {
                let s = span(self.release, self.sample_rate);
                if clock(n) >= s {
                    EnvelopeModel { stage: EnvelopeState::Idle, elapsed: 0, level: 0, ..self }
                } else {
                    EnvelopeModel {
                        elapsed: n,
                        level: ramp(self.sustain as int, 0, clock(n), s),
                        ..self
                    }
                }
            },
        }
    }
}

/// A ramp between two levels within full scale, read at most one sample past
/// the end of its span, stays within [`LEVEL_LIMIT`].
pub proof fn lemma_ramp_limited(from: int, to: int, clock: int, span: int)
    requires
        0 <= from <= UNIT,
        0 <= to <= UNIT,
        span > 0,
        0 <= clock < span + MICROS_PER_SECOND,
    ensures
        -LEVEL_LIMIT <= ramp(from, to, clock, span) <= LEVEL_LIMIT,
{
    let d = to - from;
    let bound = (UNIT as int) * (MICROS_PER_SECOND as int + 1);
    assert(-(bound * span) <= d * clock <= bound * span) by (nonlinear_arith)
        requires
            -1_000_000 <= d <= 1_000_000,
            span >= 1,
            0 <= clock < span + 1_000_000,
            bound == 1_000_000 * 1_000_001,
    ;
    lemma_div_is_ordered(-(bound * span), d * clock, span);
    lemma_div_is_ordered(d * clock, bound * span, span);
    lemma_div_multiples_vanish(bound, span);
    lemma_div_multiples_vanish(-bound, span);
}

/// A sample that does not overshoot reads a level within `[0, UNIT]`.
pub proof fn lemma_level_within_unit(m: EnvelopeModel)
    requires
        m.wf(),
    ensures
        !m.overshoots() ==> 0 <= m.process().level <= UNIT,
{
    let c = clock(tick(m.elapsed));
    if !m.overshoots() {
        match m.stage {
            EnvelopeState::Attack => {
                lemma_ramp_between(0, UNIT as int, c, span(m.attack, m.sample_rate));
            },
            EnvelopeState::Decay => {
                lemma_ramp_between(
                    UNIT as int,
                    m.sustain as int,
                    c,
                    span(m.decay, m.sample_rate),
                );
            },
            EnvelopeState::Release => {
                if c < span(m.release, m.sample_rate) {
                    lemma_ramp_between(m.sustain as int, 0, c, span(m.release, m.sample_rate));
                }
            },
            _ => {},
        }
    }
}

/// Computes [`ramp`] on machine integers.
fn ramp_at(from: i64, to: i64, clock: u128, span: u64) -> (r: i64)
    requires
        0 <= from <= UNIT,
        0 <= to <= UNIT,
        span > 0,
        clock < span + MICROS_PER_SECOND,
    ensures
        r == ramp(from as int, to as int, clock as int, span as int),
        -LEVEL_LIMIT <= r <= LEVEL_LIMIT,
{
    proof {
        lemma_ramp_limited(from as int, to as int, clock as int, span as int);
    }
    if to >= from {
        let rise: u128 = (to - from) as u128;
        assert(rise * clock <= 1_000_000 * 0x1_0000_0000_0010_0000) by (nonlinear_arith)
            requires
                rise <= 1_000_000,
                clock <= 0x1_0000_0000_0010_0000,
        ;
        let quotient: u128 = (rise * clock) / (span as u128);
        (from as i128 + quotient as i128) as i64
    } else {
        let fall: u128 = (from - to) as u128;
        assert(fall * clock <= 1_000_000 * 0x1_0000_0000_0010_0000) by (nonlinear_arith)
            requires
                fall <= 1_000_000,
                clock <= 0x1_0000_0000_0010_0000,
        ;
        let padded: u128 = fall * clock + (span as u128 - 1);
        let quotient: u128 = padded / (span as u128);
        proof {
            let s = span as int;
            let num = (fall * clock) as int;
            lemma_fundamental_div_mod(padded as int, s);
            let rest = (padded as int) % s;
            assert(-num == quotient * (-s) + (s - 1 - rest)) by (nonlinear_arith)
                requires
                    padded == num + s - 1,
                    padded == s * quotient + rest,
            ;
            assert(-num == (-(quotient as int)) * s + (s - 1 - rest)) by (nonlinear_arith)
                requires
                    -num == quotient * (-s) + (s - 1 - rest),
            ;
            lemma_fundamental_div_mod_converse(-num, s, -(quotient as int), s - 1 - rest);
            assert((to - from) * clock == -num) by (nonlinear_arith)
                requires
                    fall == from - to,
                    num == fall * clock,
            ;
        }
        (from as i128 - quotient as i128) as i64
    }
}

/// An ADSR envelope generator.
///
/// Call [`Envelope::process`] exactly once per rendered sample: the sample
/// clock is the only time base.
#[derive(Debug)]
pub struct Envelope {
    attack: u32,
    decay: u32,
    sustain: u32,
    release: u32,
    sample_rate: u32,
    state: EnvelopeState,
    level: i64,
    time: u64,
}

impl View for Envelope {
    type V = EnvelopeModel;

    closed spec fn view(&self) -> EnvelopeModel {
        EnvelopeModel {
            attack: self.attack as nat,
            decay: self.decay as nat,
            sustain: self.sustain as nat,
            release: self.release as nat,
            sample_rate: self.sample_rate as nat,
            stage: self.state,
            elapsed: self.time as nat,
            level: self.level as int,
        }
    }
}

impl Envelope {
    /// Every envelope is well formed at all times.
    #[verifier::type_invariant]
    pub open spec fn inv(&self) -> bool {
        self@.wf()
    }

    /// An idle envelope with the default shape: attack 0.01 s, decay 0.1 s,
    /// sustain 0.7, release 0.5 s.
    pub fn new(sample_rate: u32) -> (e: Self)
        requires
            sample_rate > 0,
        ensures
            e@ == EnvelopeModel::idle(
                DEFAULT_ATTACK as nat,
                DEFAULT_DECAY as nat,
                DEFAULT_SUSTAIN as nat,
                DEFAULT_RELEASE as nat,
                sample_rate as nat,
            ),
            e@.wf(),
    {
        Envelope::with_adsr(
            sample_rate,
            DEFAULT_ATTACK,
            DEFAULT_DECAY,
            DEFAULT_SUSTAIN,
            DEFAULT_RELEASE,
        )
    }

    /// An idle envelope with the given shape: times in microseconds, the
    /// sustain level in millionths of full scale.
    pub fn with_adsr(sample_rate: u32, attack: u32, decay: u32, sustain: u32, release: u32) -> (e:
        Self)
        requires
            sample_rate > 0,
            attack > 0,
            decay > 0,
            release > 0,
            sustain <= UNIT,
        ensures
            e@ == EnvelopeModel::idle(
                attack as nat,
                decay as nat,
                sustain as nat,
                release as nat,
                sample_rate as nat,
            ),
            e@.wf(),
    {
        Envelope {
            attack,
            decay,
            sustain,
            release,
            sample_rate,
            state: EnvelopeState::Idle,
            level: 0,
            time: 0,
        }
    }

    /// The current stage.
    pub fn state(&self) -> (stage: EnvelopeState)
        ensures
            stage == self@.stage,
    {
        self.state
    }

    /// The level that the last sample read, in millionths of full scale.
    pub fn level(&self) -> (level: i64)
        ensures
            level == self@.level,
    {
        self.level
    }

    /// The number of samples processed since the current stage was entered.
    pub fn elapsed(&self) -> (samples: u64)
        ensures
            samples == self@.elapsed,
    {
        self.time
    }

    /// Note on. Restarts the attack from any stage, Release included; the
    /// level that was reached plays no part in the new ramp.
    pub fn trigger(&mut self)
        ensures
            final(self)@ == old(self)@.trigger(),
            final(self)@.wf(),
    {
        proof {
            use_type_invariant(&*self);
            lemma_span_positive(self@.attack, self@.sample_rate);
        }
        self.time = 0;
        self.state = EnvelopeState::Attack;
    }

    /// Note off. Starts the release unless the envelope is idle, in which
    /// case nothing changes.
    pub fn release(&mut self)
        ensures
            final(self)@ == old(self)@.release(),
            old(self)@.stage == EnvelopeState::Idle ==> final(self)@ == old(self)@,
            final(self)@.wf(),
    {
        proof {
            use_type_invariant(&*self);
            lemma_span_positive(self@.release, self@.sample_rate);
        }
        if self.state != EnvelopeState::Idle {
            self.time = 0;
            self.state = EnvelopeState::Release;
        }
    }

    /// Advances the clock by one sample and returns the level at the new time.
    pub fn process(&mut self) -> (level: i64)
        ensures
            final(self)@ == old(self)@.process(),
            final(self)@.wf(),
            level == final(self)@.level,
            !old(self)@.overshoots() ==> 0 <= level <= UNIT,
    {
        proof {
            use_type_invariant(&*self);
            lemma_level_within_unit(self@);
        }
        let n: u64 = self.time.saturating_add(1);
        let c: u128 = n as u128 * MICROS_PER_SECOND as u128;
        match self.state {
            EnvelopeState::Idle => {
                self.level = 0;
                self.time = n;
            },
            EnvelopeState::Attack => {
                let s: u64 = stage_span(self.attack, self.sample_rate);
                self.level = ramp_at(0, UNIT, c, s);
                if c >= s as u128 {
                    proof {
                        lemma_span_positive(self@.decay, self@.sample_rate);
                    }
                    self.time = 0;
                    self.state = EnvelopeState::Decay;
                } else {
                    self.time = n;
                }
            },
            EnvelopeState::Decay => {
                let s: u64 = stage_span(self.decay, self.sample_rate);
                self.level = ramp_at(UNIT, self.sustain as i64, c, s);
                if c >= s as u128 {
                    self.time = 0;
                    self.state = EnvelopeState::Sustain;
                } else {
                    self.time = n;
                }
            },
            EnvelopeState::Sustain => {
                self.level = self.sustain as i64;
                self.time = n;
            },
            EnvelopeState::Release => {
                let s: u64 = stage_span(self.release, self.sample_rate);
                if c >= s as u128 {
                    self.level = 0;
                    self.time = 0;
                    self.state = EnvelopeState::Idle;
                } else {
                    self.level = ramp_at(self.sustain as i64, 0, c, s);
                    self.time = n;
                }
            },
        }
        self.level
    }
}

/// A stage of positive duration at a positive rate has a positive length.
pub proof fn lemma_span_positive(duration: nat, sample_rate: nat)
    requires
        0 < duration <= u32::MAX,
        0 < sample_rate <= u32::MAX,
    ensures
        0 < span(duration, sample_rate) <= u64::MAX,
{
    assert(0 < duration * sample_rate <= 0xffff_ffff_ffff_ffff) by (nonlinear_arith)
        requires
            0 < duration <= 0xffff_ffff,
            0 < sample_rate <= 0xffff_ffff,
    ;
}

/// Computes [`span`] on machine integers.
fn stage_span(duration: u32, sample_rate: u32) -> (s: u64)
    requires
        duration > 0,
        sample_rate > 0,
    ensures
        s == span(duration as nat, sample_rate as nat),
        s > 0,
{
    proof {
        lemma_span_positive(duration as nat, sample_rate as nat);
    }
    duration as u64 * sample_rate as u64
}

} // verus!

//! How an envelope moves through its stages over many samples: how long each
//! stage lasts, what it reads on the way and where it ends.

use vstd::prelude::*;
use vstd::arithmetic::div_mod::{lemma_fundamental_div_mod, lemma_hoist_over_denominator};
use crate::envelope::{
    clock, lemma_ramp_limited, lemma_span_positive, span, tick, EnvelopeModel, EnvelopeState,
    MICROS_PER_SECOND,
};
use crate::fixed::{lemma_ramp_between, lemma_ramp_ends, lemma_ramp_monotonic, ramp, UNIT};

verus! {

/// The number of samples that a stage of `duration` microseconds lasts at
/// `sample_rate` hertz: the duration in samples, rounded up.
pub open spec fn stage_samples(duration: nat, sample_rate: nat) -> nat {
    ((span(duration, sample_rate) + MICROS_PER_SECOND - 1) / (MICROS_PER_SECOND as int)) as nat
}

/// The stage that follows `stage` once its time is up. Idle and Sustain last
/// until a note starts or ends.
pub open spec fn successor(stage: EnvelopeState) -> EnvelopeState {
    match stage {
        EnvelopeState::Idle => EnvelopeState::Idle,
        EnvelopeState::Attack => EnvelopeState::Decay,
        EnvelopeState::Decay => EnvelopeState::Sustain,
        EnvelopeState::Sustain => EnvelopeState::Sustain,
        EnvelopeState::Release => EnvelopeState::Idle,
    }
}

impl EnvelopeModel {
    /// The envelope after `n` samples in a row.
    pub open spec fn run(self, n: nat) -> Self
        decreases n,
    {
        if n == 0 {
            self
        } else {
            self.run((n - 1) as nat).process()
        }
    }

    /// Both envelopes have the same times, sustain level and sample rate.
    pub open spec fn same_shape(self, other: Self) -> bool {
        &&& self.attack == other.attack
        &&& self.decay == other.decay
        &&& self.sustain == other.sustain
        &&& self.release == other.release
        &&& self.sample_rate == other.sample_rate
    }

    /// The number of samples that the current stage lasts; zero for a stage
    /// that is not timed.
    pub open spec fn stage_length(self) -> nat {
        match self.stage {
            EnvelopeState::Attack => stage_samples(self.attack, self.sample_rate),
            EnvelopeState::Decay => stage_samples(self.decay, self.sample_rate),
            EnvelopeState::Release => stage_samples(self.release, self.sample_rate),
            _ => 0,
        }
    }

    /// The level that the current stage reads `k` samples after its start.
    pub open spec fn stage_level(self, k: nat) -> int {
        match self.stage {
            EnvelopeState::Idle => 0,
            EnvelopeState::Attack => ramp(
                0,
                UNIT as int,
                clock(k),
                span(self.attack, self.sample_rate),
            ),
            EnvelopeState::Decay => ramp(
                UNIT as int,
                self.sustain as int,
                clock(k),
                span(self.decay, self.sample_rate),
            ),
            EnvelopeState::Sustain => self.sustain as int,
            EnvelopeState::Release => if clock(k) >= span(self.release, self.sample_rate) {
                0
            } else {
                ramp(self.sustain as int, 0, clock(k), span(self.release, self.sample_rate))
            },
        }
    }
}

/// A stage's time is up at exactly `stage_samples` samples: not before, and
/// from then on.
pub proof fn lemma_stage_samples(duration: nat, sample_rate: nat, k: nat)
    requires
        0 < duration <= u32::MAX,
        0 < sample_rate <= u32::MAX,
    ensures
        stage_samples(duration, sample_rate) >= 1,
        clock(stage_samples(duration, sample_rate)) < span(duration, sample_rate)
            + MICROS_PER_SECOND,
        clock(k) >= span(duration, sample_rate) <==> k >= stage_samples(duration, sample_rate),
        span(duration, sample_rate) % (MICROS_PER_SECOND as int) == 0 ==> clock(
            stage_samples(duration, sample_rate),
        ) == span(duration, sample_rate),
{
    lemma_span_positive(duration, sample_rate);
}

/// A single sample keeps a well-formed envelope well formed and leaves its
/// shape alone. The stage stays or moves to its successor, and the clock
/// restarts at every move.
pub proof fn lemma_process_step(m: EnvelopeModel)
    requires
        m.wf(),
    ensures
        m.process().wf(),
        m.process().same_shape(m),
        m.process().stage == m.stage || m.process().stage == successor(m.stage),
        m.process().stage != m.stage ==> m.process().elapsed == 0,
        m.process().stage == m.stage ==> m.process().elapsed == tick(m.elapsed),
{
    let n = tick(m.elapsed);
    lemma_span_positive(m.decay, m.sample_rate);
    match m.stage {
        EnvelopeState::Attack => {
            lemma_ramp_limited(0, UNIT as int, clock(n), span(m.attack, m.sample_rate));
        },
        EnvelopeState::Decay => {
            lemma_ramp_limited(
                UNIT as int,
                m.sustain as int,
                clock(n),
                span(m.decay, m.sample_rate),
            );
        },
        EnvelopeState::Release => {
            lemma_ramp_limited(m.sustain as int, 0, clock(n), span(m.release, m.sample_rate));
        },
        _ => {},
    }
}

/// Any number of samples keeps a well-formed envelope well formed and leaves
/// its shape alone.
pub proof fn lemma_run_wf(m: EnvelopeModel, n: nat)
    requires
        m.wf(),
    ensures
        m.run(n).wf(),
        m.run(n).same_shape(m),
    decreases n,
{
    if n > 0 {
        lemma_run_wf(m, (n - 1) as nat);
        lemma_process_step(m.run((n - 1) as nat));
    }
}

/// Running `a` samples and then `b` more is running `a + b` samples.
pub proof fn lemma_run_add(m: EnvelopeModel, a: nat, b: nat)
    ensures
        m.run(a).run(b) == m.run(a + b),
    decreases b,
{
    if b > 0 {
        lemma_run_add(m, a, (b - 1) as nat);
    }
}

/// An attack or a decay that is a whole number of samples long never
/// overshoots: its last sample falls exactly on its end.
pub proof fn lemma_whole_stage_never_overshoots(m: EnvelopeModel)
    requires
        m.wf(),
        m.stage_span() % (MICROS_PER_SECOND as int) == 0,
    ensures
        !m.overshoots(),
{
}

/// A sample that overshoots passes the ramp's target by less than one
/// sample's worth of the ramp: an attack ends at full scale or above it by at
/// most `UNIT * 1_000_000 / (attack * sample_rate)`, a decay at the sustain
/// level or below it by at most one more than
/// `(UNIT - sustain) * 1_000_000 / (decay * sample_rate)`.
pub proof fn lemma_overshoot_within_a_step(m: EnvelopeModel)
    requires
        m.wf(),
        m.overshoots(),
    ensures
        m.stage == EnvelopeState::Attack ==> UNIT <= m.process().level <= UNIT + (UNIT
            * MICROS_PER_SECOND) / span(m.attack, m.sample_rate),
        m.stage == EnvelopeState::Decay ==> m.sustain - ((UNIT - m.sustain) * MICROS_PER_SECOND)
            / span(m.decay, m.sample_rate) - 1 <= m.process().level <= m.sustain,
{
    let c = clock(tick(m.elapsed));
    let u = UNIT as int;
    let step = MICROS_PER_SECOND as int;
    if m.stage == EnvelopeState::Attack {
        let s = span(m.attack, m.sample_rate);
        lemma_ramp_ends(0, u, s);
        lemma_ramp_monotonic(0, u, s, c, s);
        lemma_ramp_monotonic(0, u, c, s + step, s);
        lemma_hoist_over_denominator(u * step, u, s as nat);
    } else {
        let s = span(m.decay, m.sample_rate);
        let fall = u - m.sustain;
        lemma_ramp_ends(u, m.sustain as int, s);
        lemma_ramp_monotonic(u, m.sustain as int, s, c, s);
        lemma_ramp_monotonic(u, m.sustain as int, c, s + step, s);
        assert((m.sustain - u) * (s + step) == (-fall) * s + -(fall * step)) by (nonlinear_arith)
            requires
                fall == u - m.sustain,
        ;
        lemma_hoist_over_denominator(-(fall * step), -fall, s as nat);
        lemma_fundamental_div_mod(fall * step, s);
        lemma_fundamental_div_mod(-(fall * step), s);
        assert(-(fall * step) / s >= -((fall * step) / s) - 1) by (nonlinear_arith)
            requires
                s > 0,
                fall * step == s * ((fall * step) / s) + (fall * step) % s,
                -(fall * step) == s * (-(fall * step) / s) + (-(fall * step)) % s,
                0 <= (fall * step) % s < s,
                0 <= (-(fall * step)) % s < s,
        ;
    }
}

/// The course of a timed stage, entered with the clock at zero: for
/// `stage_length` samples less one the stage stays and the clock counts up;
/// the sample after that moves on to the successor with the clock back at
/// zero. Every sample on the way reads the stage's ramp at its own time.
pub proof fn lemma_stage_course(m: EnvelopeModel, k: nat)
    requires
        m.wf(),
        m.timed(),
        m.elapsed == 0,
        k <= m.stage_length(),
    ensures
        m.run(k).wf(),
        m.run(k).same_shape(m),
        k < m.stage_length() ==> m.run(k).stage == m.stage && m.run(k).elapsed == k,
        k == m.stage_length() ==> m.run(k).stage == successor(m.stage) && m.run(k).elapsed == 0,
        k >= 1 ==> m.run(k).level == m.stage_level(k),
    decreases k,
{
    lemma_run_wf(m, k);
    let d = match m.stage {
        EnvelopeState::Attack => m.attack,
        EnvelopeState::Decay => m.decay,
        _ => m.release,
    };
    if k > 0 {
        let j = (k - 1) as nat;
        lemma_stage_course(m, j);
        lemma_span_positive(d, m.sample_rate);
    }
}

/// Idle and Sustain hold: however many samples pass, the stage stays, and
/// every sample reads silence when idle and the sustain level when
/// sustaining.
pub proof fn lemma_hold(m: EnvelopeModel, k: nat)
    requires
        m.wf(),
        !m.timed(),
    ensures
        m.run(k).wf(),
        m.run(k).same_shape(m),
        m.run(k).stage == m.stage,
        k >= 1 ==> m.run(k).level == m.stage_level(k),
    decreases k,
{
    if k > 0 {
        lemma_hold(m, (k - 1) as nat);
    }
}

/// Both ramps of a note reach their targets. After a trigger in any stage the
/// attack lasts `stage_samples(attack)` samples, and the sample that ends it
/// reads full scale or, by less than one sample's rise, above. The decay that
/// follows lasts `stage_samples(decay)` samples, never rises from one sample
/// to the next, and its last sample enters Sustain reading the sustain level
/// or, by less than one sample's fall, below: exactly the sustain level when
/// the decay is a whole number of samples long.
pub proof fn lemma_ramps_reach_targets(m: EnvelopeModel, k: nat)
    requires
        m.wf(),
    ensures
        ({
            let note = m.trigger();
            let attack = stage_samples(m.attack, m.sample_rate);
            let decay = stage_samples(m.decay, m.sample_rate);
            let attack_span = span(m.attack, m.sample_rate);
            let decay_span = span(m.decay, m.sample_rate);
            let sustain = m.sustain as int;
            &&& k < attack ==> note.run(k).stage == EnvelopeState::Attack
            &&& 1 <= k <= attack ==> note.run(k).level == ramp(
                0,
                UNIT as int,
                clock(k),
                attack_span,
            )
            &&& note.run(attack).stage == EnvelopeState::Decay
            &&& UNIT <= note.run(attack).level <= ramp(
                0,
                UNIT as int,
                attack_span + MICROS_PER_SECOND,
                attack_span,
            )
            &&& k < decay ==> note.run(attack + k).stage == EnvelopeState::Decay
            &&& 1 <= k <= decay ==> note.run(attack + k).level == ramp(
                UNIT as int,
                sustain,
                clock(k),
                decay_span,
            )
            &&& 1 <= k <= decay ==> note.run(attack + k).level <= note.run(
                (attack + k - 1) as nat,
            ).level
            &&& note.run(attack + decay).stage == EnvelopeState::Sustain
            &&& ramp(UNIT as int, sustain, decay_span + MICROS_PER_SECOND, decay_span)
                <= note.run(attack + decay).level <= sustain
            &&& decay_span % (MICROS_PER_SECOND as int) == 0 ==> note.run(attack + decay).level
                == sustain
        }),
{
    let note = m.trigger();
    let attack = stage_samples(m.attack, m.sample_rate);
    let decay = stage_samples(m.decay, m.sample_rate);
    let attack_span = span(m.attack, m.sample_rate);
    let decay_span = span(m.decay, m.sample_rate);
    let sustain = m.sustain as int;
    lemma_stage_samples(m.attack, m.sample_rate, attack);
    // The attack.
    if k <= attack {
        lemma_stage_course(note, k);
    }
    lemma_stage_course(note, attack);
    lemma_ramp_ends(0, UNIT as int, attack_span);
    lemma_ramp_monotonic(0, UNIT as int, attack_span, clock(attack), attack_span);
    lemma_ramp_monotonic(
        0,
        UNIT as int,
        clock(attack),
        attack_span + MICROS_PER_SECOND,
        attack_span,
    );
    // The decay.
    let top = note.run(attack);
    lemma_stage_course(top, decay);
    lemma_run_add(note, attack, decay);
    lemma_ramp_ends(UNIT as int, sustain, decay_span);
    lemma_ramp_monotonic(UNIT as int, sustain, decay_span, clock(decay), decay_span);
    lemma_ramp_monotonic(
        UNIT as int,
        sustain,
        clock(decay),
        decay_span + MICROS_PER_SECOND,
        decay_span,
    );
    if k <= decay {
        lemma_stage_course(top, k);
        if k >= 1 {
            let j = (k - 1) as nat;
            lemma_run_add(note, attack, j);
            if j >= 1 {
                lemma_ramp_monotonic(UNIT as int, sustain, clock(j), clock(k), decay_span);
            } else {
                lemma_ramp_monotonic(UNIT as int, sustain, 0, clock(k), decay_span);
            }
        }
    }
}

/// The timing of a whole note. From any stage, a trigger followed by
/// `stage_samples(attack)` samples stands in Decay; `stage_samples(decay)`
/// samples more stand in Sustain, which holds at the sustain level for as
/// long as the note is held; and a release followed by
/// `stage_samples(release)` samples stands in Idle at level zero.
pub proof fn lemma_note_cycle(m: EnvelopeModel, held: nat)
    requires
        m.wf(),
    ensures
        ({
            let attack = stage_samples(m.attack, m.sample_rate);
            let decay = stage_samples(m.decay, m.sample_rate);
            let release = stage_samples(m.release, m.sample_rate);
            let decaying = m.trigger().run(attack);
            let sustaining = m.trigger().run(attack + decay);
            let holding = sustaining.run(held);
            let ended = holding.release().run(release);
            &&& decaying.stage == EnvelopeState::Decay
            &&& sustaining.stage == EnvelopeState::Sustain
            &&& span(m.decay, m.sample_rate) % (MICROS_PER_SECOND as int) == 0
                ==> sustaining.level == m.sustain
            &&& holding.stage == EnvelopeState::Sustain
            &&& held >= 1 ==> holding.level == m.sustain
            &&& ended.stage == EnvelopeState::Idle
            &&& ended.level == 0
            &&& ended.elapsed == 0
        }),
{
    let attack = stage_samples(m.attack, m.sample_rate);
    let decay = stage_samples(m.decay, m.sample_rate);
    let release = stage_samples(m.release, m.sample_rate);
    lemma_ramps_reach_targets(m, 0);
    let sustaining = m.trigger().run(attack + decay);
    lemma_run_wf(m.trigger(), attack + decay);
    lemma_hold(sustaining, held);
    lemma_span_positive(m.release, m.sample_rate);
    lemma_stage_course(sustaining.run(held).release(), release);
}

/// A release runs the same course whatever stage it interrupts: from Attack,
/// Decay or Sustain the envelope stays in Release for
/// `stage_samples(release)` samples less one, reading the ramp from the
/// sustain level to zero, and the sample after that is idle and silent.
pub proof fn lemma_release_course(m: EnvelopeModel, k: nat)
    requires
        m.wf(),
        m.stage != EnvelopeState::Idle,
        k <= stage_samples(m.release, m.sample_rate),
    ensures
        ({
            let released = m.release();
            let length = stage_samples(m.release, m.sample_rate);
            let release_span = span(m.release, m.sample_rate);
            &&& k < length ==> released.run(k).stage == EnvelopeState::Release
            &&& 1 <= k < length ==> released.run(k).level == ramp(
                m.sustain as int,
                0,
                clock(k),
                release_span,
            )
            &&& 1 <= k < length ==> 0 <= released.run(k).level <= m.sustain
            &&& k == length ==> released.run(k).stage == EnvelopeState::Idle && released.run(
                k,
            ).level == 0
        }),
{
    let released = m.release();
    lemma_span_positive(m.release, m.sample_rate);
    lemma_stage_course(released, k);
    if 1 <= k < stage_samples(m.release, m.sample_rate) {
        lemma_ramp_between(m.sustain as int, 0, clock(k), span(m.release, m.sample_rate));
    }
}

/// A trigger restarts the attack from nothing, whatever came before. The
/// first sample after it reads one sample's worth of the attack ramp,
/// `UNIT * 1_000_000 / (attack * sample_rate)`, and neither the stage nor the
/// level that the trigger interrupted has any part in it.
pub proof fn lemma_retrigger_restarts(m: EnvelopeModel)
    requires
        m.wf(),
    ensures
        m.trigger().process().level == (UNIT * MICROS_PER_SECOND) / span(
            m.attack,
            m.sample_rate,
        ),
        m.trigger().process().level == ramp(
            0,
            UNIT as int,
            MICROS_PER_SECOND as int,
            span(m.attack, m.sample_rate),
        ),
{
}

} // verus!

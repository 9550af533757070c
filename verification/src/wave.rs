//! Memory waves and the grid that holds them.
//!
//! A wave is a damped oscillation: amplitude, frequency, phase, an emotional
//! colouring and a decay time constant. The grid is a fixed block of
//! `width * height * depth` slots, each empty or holding one shared wave.
//! Direct access wraps coordinates around the grid's extent; the
//! neighbourhood used for interference clamps them to the extent instead,
//! so that no wave is felt across an edge.

use vstd::prelude::*;
use std::sync::Arc;
use crate::arithmetic::Formula;
use crate::arithmetic::Operation;
use crate::arithmetic::Term;
use crate::arithmetic::Unary;
use crate::arithmetic::constant;
use crate::arithmetic::difference;
use crate::arithmetic::evaluates;
use crate::arithmetic::exp;
use crate::arithmetic::integer;
use crate::arithmetic::negated;
use crate::arithmetic::operand;
use crate::arithmetic::product;
use crate::arithmetic::quotient;
use crate::arithmetic::seconds;
use crate::arithmetic::sine;
use crate::arithmetic::square_root;
use crate::arithmetic::sum;
use crate::arithmetic::total;
use crate::arithmetic::value;
use crate::scalar::ONE;
use crate::scalar::Scalar;
use crate::scalar::ZERO;
use crate::timespan::TimeSpan;

verus! {

/// Slots along the grid's first axis.
pub const GRID_WIDTH: usize = 64;

/// Slots along the grid's second axis.
pub const GRID_HEIGHT: usize = 64;

/// Layers along the grid's third axis.
pub const GRID_DEPTH: usize = 256;

/// Bit pattern of `0.1`, the noise floor of a new grid.
pub const NOISE_FLOOR_DEFAULT: u32 = 0x3dcc_cccd;

/// Bit pattern of `0.01`, the lowest noise floor.
pub const NOISE_FLOOR_MIN: u32 = 0x3c23_d70a;

/// Bit pattern of `0.5`, the highest noise floor.
pub const NOISE_FLOOR_MAX: u32 = 0x3f00_0000;

/// Bit pattern of `0.01`: a wave counts as active while the fraction of it
/// that decay has left is above this.
pub const ACTIVE_DECAY: u32 = 0x3c23_d70a;

/// Cells in the neighbourhood of a point: three along each axis.
pub const NEIGHBORHOOD: usize = 27;

/// Bit pattern of `1000.0`, the highest frequency a wave can carry.
pub const FREQUENCY_MAX: u32 = 0x447a_0000;

/// Seconds after which a wave made by [`MemoryWave::new`] has decayed to `1/e`.
pub const DEFAULT_DECAY_SECS: u64 = 5;

/// Bit pattern of `0.3`, the influence of valence on a wave's value.
pub const VALENCE_INFLUENCE: u32 = 0x3e99_999a;

/// Bit pattern of `0.5`, the influence of arousal on a wave's value.
pub const AROUSAL_INFLUENCE: u32 = 0x3f00_0000;

/// Bit pattern of twice pi.
pub const TWO_PI: u32 = 0x40c9_0fdb;

/// Bit pattern of `0.9`, the share of the old noise floor in the new one.
pub const NOISE_MEMORY: u32 = 0x3f66_6666;

/// Bit pattern of `0.1`, the share of the surroundings in the new noise
/// floor.
pub const NOISE_INFLUENCE: u32 = 0x3dcc_cccd;

/// Bit pattern of `0.5`, the lowest relevance factor.
pub const RELEVANCE_MIN: u32 = 0x3f00_0000;

/// Bit pattern of `2.0`, the highest relevance factor.
pub const RELEVANCE_MAX: u32 = 0x4000_0000;

/// Bit pattern of `0.8`, the lowest familiarity factor.
pub const FAMILIARITY_MIN: u32 = 0x3f4c_cccd;

/// Bit pattern of `1.5`, the highest familiarity factor.
pub const FAMILIARITY_MAX: u32 = 0x3fc0_0000;

/// Bit pattern of `0.3`, the lowest threat factor.
pub const THREAT_MIN: u32 = 0x3e99_999a;

/// Bit pattern of `1.0`, the highest threat factor.
pub const THREAT_MAX: u32 = 0x3f80_0000;

/// Frequency bands for different kinds of content.
#[derive(Clone, Copy, Debug, PartialEq, Eq, Structural)]
pub enum FrequencyBand {
    /// 0 to 200 Hz.
    DeepStructural,
    /// 200 to 400 Hz.
    Conversational,
    /// 400 to 600 Hz.
    Technical,
    /// 600 to 800 Hz.
    Implementation,
    /// 800 to 1000 Hz.
    Abstract,
    /// 13 to 30 Hz.
    Beta,
    /// 30 to 100 Hz.
    Gamma,
}

impl FrequencyBand {
    /// Bit patterns of the band's lowest and highest frequency.
    pub open spec fn spec_range(self) -> (u32, u32) {
        match self {
            FrequencyBand::DeepStructural => (0x0000_0000, 0x4348_0000),
            FrequencyBand::Conversational => (0x4348_0000, 0x43c8_0000),
            FrequencyBand::Technical => (0x43c8_0000, 0x4416_0000),
            FrequencyBand::Implementation => (0x4416_0000, 0x4448_0000),
            FrequencyBand::Abstract => (0x4448_0000, 0x447a_0000),
            FrequencyBand::Beta => (0x4150_0000, 0x41f0_0000),
            FrequencyBand::Gamma => (0x41f0_0000, 0x42c8_0000),
        }
    }

    /// Bit pattern of the frequency halfway between the band's two ends:
    /// 100, 300, 500, 700, 900, 21.5 and 65 Hz.
    pub open spec fn spec_center(self) -> u32 {
        match self {
            FrequencyBand::DeepStructural => 0x42c8_0000,
            FrequencyBand::Conversational => 0x4396_0000,
            FrequencyBand::Technical => 0x43fa_0000,
            FrequencyBand::Implementation => 0x442f_0000,
            FrequencyBand::Abstract => 0x4461_0000,
            FrequencyBand::Beta => 0x41ac_0000,
            FrequencyBand::Gamma => 0x4282_0000,
        }
    }

    /// The band a frequency falls in: the first of the five content bands
    /// whose upper end lies above it, and the last band for every other
    /// frequency, a NaN included.
    pub open spec fn spec_from_frequency(freq: Scalar) -> FrequencyBand {
        if freq.spec_lt(Scalar::from_bits(0x4348_0000)) {
            FrequencyBand::DeepStructural
        } else if freq.spec_lt(Scalar::from_bits(0x43c8_0000)) {
            FrequencyBand::Conversational
        } else if freq.spec_lt(Scalar::from_bits(0x4416_0000)) {
            FrequencyBand::Technical
        } else if freq.spec_lt(Scalar::from_bits(0x4448_0000)) {
            FrequencyBand::Implementation
        } else {
            FrequencyBand::Abstract
        }
    }

    /// The lowest and highest frequency of the band.
    pub fn range(&self) -> (ends: (Scalar, Scalar))
        ensures
            ends.0.bits == self.spec_range().0,
            ends.1.bits == self.spec_range().1,
            ends.0.spec_lt(ends.1),
    {
        let (low, high): (u32, u32) = match self {
            FrequencyBand::DeepStructural => (0x0000_0000, 0x4348_0000),
            FrequencyBand::Conversational => (0x4348_0000, 0x43c8_0000),
            FrequencyBand::Technical => (0x43c8_0000, 0x4416_0000),
            FrequencyBand::Implementation => (0x4416_0000, 0x4448_0000),
            FrequencyBand::Abstract => (0x4448_0000, 0x447a_0000),
            FrequencyBand::Beta => (0x4150_0000, 0x41f0_0000),
            FrequencyBand::Gamma => (0x41f0_0000, 0x42c8_0000),
        };
        (Scalar::from_bits(low), Scalar::from_bits(high))
    }

    /// The frequency halfway between the band's two ends.
    pub fn center_frequency(&self) -> (center: Scalar)
        ensures
            center.bits == self.spec_center(),
            Scalar::from_bits(self.spec_range().0).spec_lt(center),
            center.spec_lt(Scalar::from_bits(self.spec_range().1)),
    {
        let bits: u32 = match self {
            FrequencyBand::DeepStructural => 0x42c8_0000,
            FrequencyBand::Conversational => 0x4396_0000,
            FrequencyBand::Technical => 0x43fa_0000,
            FrequencyBand::Implementation => 0x442f_0000,
            FrequencyBand::Abstract => 0x4461_0000,
            FrequencyBand::Beta => 0x41ac_0000,
            FrequencyBand::Gamma => 0x4282_0000,
        };
        Scalar::from_bits(bits)
    }

    /// The frequency at a position within the band, from 0 at its lower
    /// end to 1 at its upper end: `min + (max - min) * position`, with the
    /// position limited to `[0, 1]`.
    pub open spec fn frequency_formula(self, position: Scalar) -> Formula {
        let low = Scalar::from_bits(self.spec_range().0);
        let high = Scalar::from_bits(self.spec_range().1);
        sum(
            value(low),
            product(
                difference(value(high), value(low)),
                value(position.spec_clamp(Scalar::from_bits(ZERO), Scalar::from_bits(ONE))),
            ),
        )
    }

    /// A frequency within the band, by its position between the band's
    /// lower and upper end.
    pub fn frequency<A: Fn(Operation) -> Scalar>(&self, position: Scalar, arithmetic: &A) -> (frequency:
        Scalar)
        requires
            total(*arithmetic),
        ensures
            evaluates(*arithmetic, self.frequency_formula(position), frequency),
    {
        let (low, high): (Scalar, Scalar) = self.range();
        let place: Scalar = position.clamp(Scalar::from_bits(ZERO), Scalar::from_bits(ONE));
        let width: Term = Term::of(high).minus(&Term::of(low), arithmetic);
        Term::of(low).plus(&width.times(&Term::of(place), arithmetic), arithmetic).value
    }

    /// The band a frequency falls in.
    pub fn from_frequency(freq: Scalar) -> (band: FrequencyBand)
        ensures
            band == FrequencyBand::spec_from_frequency(freq),
    {
        if freq.lt(Scalar::from_bits(0x4348_0000)) {
            FrequencyBand::DeepStructural
        } else if freq.lt(Scalar::from_bits(0x43c8_0000)) {
            FrequencyBand::Conversational
        } else if freq.lt(Scalar::from_bits(0x4416_0000)) {
            FrequencyBand::Technical
        } else if freq.lt(Scalar::from_bits(0x4448_0000)) {
            FrequencyBand::Implementation
        } else {
            FrequencyBand::Abstract
        }
    }
}

/// Every frequency at or above a content band's lower end and below its
/// upper end is classified into that band.
pub proof fn lemma_band_contains_its_range(band: FrequencyBand, freq: Scalar)
    requires
        band != FrequencyBand::Beta,
        band != FrequencyBand::Gamma,
        Scalar::from_bits(band.spec_range().0).spec_le(freq),
        freq.spec_lt(Scalar::from_bits(band.spec_range().1)),
    ensures
        FrequencyBand::spec_from_frequency(freq) == band,
{
}

/// A memory wave: one stored item of content.
#[derive(Clone, Copy, Debug)]
pub struct MemoryWave {
    /// Amplitude, modulated by emotion and time.
    pub amplitude: Scalar,
    /// Frequency in Hz, which encodes the kind of content.
    pub frequency: Scalar,
    /// Phase, which encodes temporal relationships.
    pub phase: Scalar,
    /// Emotional valence, from -1 to 1.
    pub valence: Scalar,
    /// Emotional arousal, from 0 to 1.
    pub arousal: Scalar,
    /// Reading of the caller's clock when the wave was made.
    pub created_at: TimeSpan,
    /// Decay time constant; `None` for a wave that never decays.
    pub decay_tau: Option<TimeSpan>,
}

/// Whether `span` is a time span that `span_of` makes of a number of
/// seconds that the arithmetic gives to the formula.
pub open spec fn converts<A: Fn(Operation) -> Scalar, S: Fn(Scalar) -> TimeSpan>(
    arithmetic: A,
    span_of: S,
    formula: Formula,
    span: TimeSpan,
) -> bool {
    exists|secs: Scalar|
        #![trigger operand(secs)]
        operand(secs) && evaluates(arithmetic, formula, secs) && call_ensures(
            span_of,
            (secs,),
            span,
        )
}

/// Whether `span_of` converts every number of seconds.
pub open spec fn converts_all<S: Fn(Scalar) -> TimeSpan>(span_of: S) -> bool {
    forall|secs: Scalar| call_requires(span_of, (secs,))
}

impl MemoryWave {
    /// A wave's frequency is never outside `[0, 1000]`: it is a NaN or lies
    /// in that range.
    pub open spec fn wf(self) -> bool {
        self.frequency.spec_is_nan() || self.frequency.within(
            Scalar::from_bits(ZERO),
            Scalar::from_bits(FREQUENCY_MAX),
        )
    }

    /// The time the wave has existed at clock reading `now`; empty when
    /// `now` is before the wave was made.
    pub open spec fn age(self, now: TimeSpan) -> TimeSpan {
        TimeSpan {
            nanos: if now.nanos >= self.created_at.nanos {
                (now.nanos - self.created_at.nanos) as u128
            } else {
                0
            },
        }
    }

    /// The fraction of the wave that decay has left at `now`: one for a
    /// wave without a decay constant and for a wave that has existed for
    /// no time, whatever its decay constant; otherwise `exp(-age / tau)`.
    pub open spec fn decay_formula(self, now: TimeSpan) -> Formula {
        match self.decay_tau {
            Some(tau) => if self.age(now).nanos == 0 {
                constant(ONE)
            } else {
                exp(quotient(negated(seconds(self.age(now))), seconds(tau)))
            },
            None => constant(ONE),
        }
    }

    /// The emotional modulation `(1 + 0.3 valence) (1 + 0.5 arousal)`.
    pub open spec fn modulation_formula(self) -> Formula {
        product(
            sum(constant(ONE), product(constant(VALENCE_INFLUENCE), value(self.valence))),
            sum(constant(ONE), product(constant(AROUSAL_INFLUENCE), value(self.arousal))),
        )
    }

    /// The value of the wave at time `t`:
    /// `amplitude * decay * modulation * sin(2 pi frequency t + phase)`.
    pub open spec fn value_formula(self, t: Scalar, now: TimeSpan) -> Formula {
        product(
            product(product(value(self.amplitude), self.decay_formula(now)), self.modulation_formula()),
            sine(
                sum(
                    product(product(constant(TWO_PI), value(self.frequency)), value(t)),
                    value(self.phase),
                ),
            ),
        )
    }

    /// The three factors by which context stretches or shrinks a decay
    /// constant: relevance limited to `[0.5, 2.0]`, familiarity to
    /// `[0.8, 1.5]` and threat to `[0.3, 1.0]`.
    pub open spec fn spec_context_factors(relevance: Scalar, familiarity: Scalar, threat: Scalar) -> (
        Scalar,
        Scalar,
        Scalar,
    ) {
        (
            relevance.spec_clamp(Scalar::from_bits(RELEVANCE_MIN), Scalar::from_bits(RELEVANCE_MAX)),
            familiarity.spec_clamp(
                Scalar::from_bits(FAMILIARITY_MIN),
                Scalar::from_bits(FAMILIARITY_MAX),
            ),
            threat.spec_clamp(Scalar::from_bits(THREAT_MIN), Scalar::from_bits(THREAT_MAX)),
        )
    }

    /// The decay constant `tau` scaled by the three context factors, in
    /// seconds: `tau * relevance * familiarity * threat`.
    pub open spec fn adjusted_tau_formula(
        tau: TimeSpan,
        relevance: Scalar,
        familiarity: Scalar,
        threat: Scalar,
    ) -> Formula {
        let factors = MemoryWave::spec_context_factors(relevance, familiarity, threat);
        product(
            product(product(seconds(tau), value(factors.0)), value(factors.1)),
            value(factors.2),
        )
    }

    /// A wave of the given frequency, limited to `[0, 1000]`, and amplitude,
    /// with no phase and no emotional colouring, made at `created_at` and
    /// decaying with a time constant of five seconds.
    pub fn new(frequency: Scalar, amplitude: Scalar, created_at: TimeSpan) -> (wave: MemoryWave)
        ensures
            wave.amplitude == amplitude,
            wave.frequency == frequency.spec_clamp(
                Scalar::from_bits(ZERO),
                Scalar::from_bits(FREQUENCY_MAX),
            ),
            wave.phase.bits == ZERO,
            wave.valence.bits == ZERO,
            wave.arousal.bits == ZERO,
            wave.created_at == created_at,
            wave.decay_tau == Some(TimeSpan { nanos: 5_000_000_000 }),
            wave.wf(),
    {
        MemoryWave {
            amplitude,
            frequency: frequency.clamp(Scalar::from_bits(ZERO), Scalar::from_bits(FREQUENCY_MAX)),
            phase: Scalar::from_bits(ZERO),
            valence: Scalar::from_bits(ZERO),
            arousal: Scalar::from_bits(ZERO),
            created_at,
            decay_tau: Some(TimeSpan::from_secs(DEFAULT_DECAY_SECS)),
        }
    }

    /// A wave at the centre of a frequency band, made at `created_at`. The
    /// wave decays only when `decay_rate` is above zero; its time constant
    /// is then the reciprocal of the rate, which `span_of` turns from
    /// seconds into a time span.
    pub fn new_with_band<A: Fn(Operation) -> Scalar, S: Fn(Scalar) -> TimeSpan>(
        band: FrequencyBand,
        amplitude: Scalar,
        phase: Scalar,
        decay_rate: Scalar,
        created_at: TimeSpan,
        arithmetic: &A,
        span_of: &S,
    ) -> (wave: MemoryWave)
        requires
            total(*arithmetic),
            converts_all(*span_of),
        ensures
            wave.amplitude == amplitude,
            wave.frequency.bits == band.spec_center(),
            wave.phase == phase,
            wave.valence.bits == ZERO,
            wave.arousal.bits == ZERO,
            wave.created_at == created_at,
            match wave.decay_tau {
                Some(tau) => decay_rate.spec_gt(Scalar::from_bits(ZERO)) && converts(
                    *arithmetic,
                    *span_of,
                    quotient(constant(ONE), value(decay_rate)),
                    tau,
                ),
                None => !decay_rate.spec_gt(Scalar::from_bits(ZERO)),
            },
            wave.wf(),
    {
        let center: Scalar = band.center_frequency();
        let decay_tau: Option<TimeSpan> = if decay_rate.gt(Scalar::from_bits(ZERO)) {
            let period: Term = Term::constant(ONE).over(&Term::of(decay_rate), arithmetic);
            proof {
                assert(operand(period.value));
            }
            Some(span_of(period.value))
        } else {
            None
        };
        MemoryWave {
            amplitude,
            frequency: center.clamp(Scalar::from_bits(ZERO), Scalar::from_bits(FREQUENCY_MAX)),
            phase,
            valence: Scalar::from_bits(ZERO),
            arousal: Scalar::from_bits(ZERO),
            created_at,
            decay_tau,
        }
    }

    /// The time the wave has existed at clock reading `now`; empty when
    /// `now` is before the wave was made.
    pub fn elapsed(&self, now: TimeSpan) -> (age: TimeSpan)
        ensures
            age == self.age(now),
    {
        now.saturating_since(self.created_at)
    }

    /// The value of the wave at time `t`, with the decay it has undergone
    /// at clock reading `now` and its emotional modulation.
    pub fn calculate<A: Fn(Operation) -> Scalar>(&self, t: Scalar, now: TimeSpan, arithmetic: &A) -> (value:
        Scalar)
        requires
            total(*arithmetic),
        ensures
            evaluates(*arithmetic, self.value_formula(t, now), value),
    {
        self.value_term(t, now, arithmetic).value
    }

    /// The fraction of the wave that decay has left at clock reading
    /// `now`. A wave without a decay constant is left whole, and so is
    /// any wave at the moment it is made.
    pub fn calculate_decay<A: Fn(Operation) -> Scalar>(&self, now: TimeSpan, arithmetic: &A) -> (decay:
        Scalar)
        requires
            total(*arithmetic),
        ensures
            evaluates(*arithmetic, self.decay_formula(now), decay),
            self.decay_tau is None ==> decay.bits == ONE,
            self.age(now).nanos == 0 ==> decay.bits == ONE,
    {
        self.decay_term(now, arithmetic).value
    }

    /// The factor by which valence and arousal modulate the wave.
    pub fn calculate_emotional_modulation<A: Fn(Operation) -> Scalar>(&self, arithmetic: &A) -> (modulation:
        Scalar)
        requires
            total(*arithmetic),
        ensures
            evaluates(*arithmetic, self.modulation_formula(), modulation),
    {
        self.modulation_term(arithmetic).value
    }

    /// The factors by which relevance, familiarity and threat scale a decay
    /// constant, each limited to its range.
    pub fn context_factors(relevance: Scalar, familiarity: Scalar, threat: Scalar) -> (factors: (
        Scalar,
        Scalar,
        Scalar,
    ))
        ensures
            factors == MemoryWave::spec_context_factors(relevance, familiarity, threat),
    {
        (
            relevance.clamp(Scalar::from_bits(RELEVANCE_MIN), Scalar::from_bits(RELEVANCE_MAX)),
            familiarity.clamp(
                Scalar::from_bits(FAMILIARITY_MIN),
                Scalar::from_bits(FAMILIARITY_MAX),
            ),
            threat.clamp(Scalar::from_bits(THREAT_MIN), Scalar::from_bits(THREAT_MAX)),
        )
    }

    /// Scales the decay constant of a decaying wave by relevance,
    /// familiarity and threat, each limited to its range; `span_of` turns
    /// the scaled constant from seconds into a time span. A wave that
    /// never decays is left as it is.
    pub fn apply_context_decay<A: Fn(Operation) -> Scalar, S: Fn(Scalar) -> TimeSpan>(
        &mut self,
        relevance: Scalar,
        familiarity: Scalar,
        threat: Scalar,
        arithmetic: &A,
        span_of: &S,
    )
        requires
            total(*arithmetic),
            converts_all(*span_of),
        ensures
            match old(self).decay_tau {
                Some(tau) => final(self).decay_tau matches Some(adjusted) && converts(
                    *arithmetic,
                    *span_of,
                    MemoryWave::adjusted_tau_formula(tau, relevance, familiarity, threat),
                    adjusted,
                ),
                None => final(self).decay_tau is None,
            },
            final(self).amplitude == old(self).amplitude,
            final(self).frequency == old(self).frequency,
            final(self).phase == old(self).phase,
            final(self).valence == old(self).valence,
            final(self).arousal == old(self).arousal,
            final(self).created_at == old(self).created_at,
    {
        match self.decay_tau {
            Some(tau) => {
                let factors: (Scalar, Scalar, Scalar) = MemoryWave::context_factors(
                    relevance,
                    familiarity,
                    threat,
                );
                let adjusted: Term = Term::seconds(tau, arithmetic).times(
                    &Term::of(factors.0),
                    arithmetic,
                ).times(&Term::of(factors.1), arithmetic).times(&Term::of(factors.2), arithmetic);
                proof {
                    assert(operand(adjusted.value));
                }
                self.decay_tau = Some(span_of(adjusted.value));
            },
            None => {},
        }
    }

    /// The decay with the formula it is a value of.
    pub(crate) fn decay_term<A: Fn(Operation) -> Scalar>(&self, now: TimeSpan, arithmetic: &A) -> (term:
        Term)
        requires
            total(*arithmetic),
        ensures
            term.holds(*arithmetic),
            term.formula@ == self.decay_formula(now),
            self.decay_tau is None ==> term.value.bits == ONE,
            self.age(now).nanos == 0 ==> term.value.bits == ONE,
    {
        match self.decay_tau {
            Some(tau) => {
                let elapsed: TimeSpan = self.elapsed(now);
                if elapsed.nanos == 0 {
                    Term::constant(ONE)
                } else {
                    let age: Term = Term::seconds(elapsed, arithmetic);
                    let span: Term = Term::seconds(tau, arithmetic);
                    age.negated(arithmetic).over(&span, arithmetic).unary(Unary::Exp, arithmetic)
                }
            },
            None => Term::constant(ONE),
        }
    }

    /// The modulation with the formula it is a value of.
    pub(crate) fn modulation_term<A: Fn(Operation) -> Scalar>(&self, arithmetic: &A) -> (term: Term)
        requires
            total(*arithmetic),
        ensures
            term.holds(*arithmetic),
            term.formula@ == self.modulation_formula(),
    {
        let one: Term = Term::constant(ONE);
        let by_valence: Term = one.plus(
            &Term::constant(VALENCE_INFLUENCE).times(&Term::of(self.valence), arithmetic),
            arithmetic,
        );
        let by_arousal: Term = one.plus(
            &Term::constant(AROUSAL_INFLUENCE).times(&Term::of(self.arousal), arithmetic),
            arithmetic,
        );
        by_valence.times(&by_arousal, arithmetic)
    }

    /// The value with the formula it is a value of.
    pub(crate) fn value_term<A: Fn(Operation) -> Scalar>(
        &self,
        t: Scalar,
        now: TimeSpan,
        arithmetic: &A,
    ) -> (term: Term)
        requires
            total(*arithmetic),
        ensures
            term.holds(*arithmetic),
            term.formula@ == self.value_formula(t, now),
    {
        let decay: Term = self.decay_term(now, arithmetic);
        let modulation: Term = self.modulation_term(arithmetic);
        let angle: Term = Term::constant(TWO_PI).times(&Term::of(self.frequency), arithmetic).times(
            &Term::of(t),
            arithmetic,
        ).plus(&Term::of(self.phase), arithmetic);
        Term::of(self.amplitude).times(&decay, arithmetic).times(&modulation, arithmetic).times(
            &angle.unary(Unary::Sine, arithmetic),
            arithmetic,
        )
    }
}

/// A wave without a decay constant never decays: the fraction left of it is
/// one at any time and under any arithmetic.
pub proof fn lemma_permanent_wave_is_whole<A: Fn(Operation) -> Scalar>(
    arithmetic: A,
    wave: MemoryWave,
    now: TimeSpan,
    decay: Scalar,
)
    requires
        wave.decay_tau is None,
        evaluates(arithmetic, wave.decay_formula(now), decay),
    ensures
        decay.bits == ONE,
{
}

/// At the moment a wave is made nothing of it has decayed: the fraction
/// left of it is one, whatever its decay constant and under any
/// arithmetic.
pub proof fn lemma_fresh_wave_is_whole<A: Fn(Operation) -> Scalar>(
    arithmetic: A,
    wave: MemoryWave,
    now: TimeSpan,
    decay: Scalar,
)
    requires
        now.nanos <= wave.created_at.nanos,
        evaluates(arithmetic, wave.decay_formula(now), decay),
    ensures
        decay.bits == ONE,
{
}

/// What a slot holds, apart from the sharing.
pub open spec fn occupant(slot: Option<Arc<MemoryWave>>) -> Option<MemoryWave> {
    match slot {
        Some(handle) => Some(*handle),
        None => None,
    }
}

/// A coordinate limited to `[0, max]`.
pub open spec fn clamp_coordinate(coordinate: int, max: int) -> int {
    if coordinate < 0 {
        0
    } else if coordinate > max {
        max
    } else {
        coordinate
    }
}

/// The offset of the `k`-th cell of a neighbourhood from its centre, each
/// part -1, 0 or 1; the third axis runs fastest.
pub open spec fn neighbor_offset(k: int) -> (int, int, int) {
    (k / 9 - 1, (k / 3) % 3 - 1, k % 3 - 1)
}

/// The squared distance of the `k`-th cell of a neighbourhood from its
/// centre, in grid cells.
pub open spec fn neighbor_distance_squared(k: int) -> int {
    let (dx, dy, dz) = neighbor_offset(k);
    dx * dx + dy * dy + dz * dz
}

/// The weight of a neighbour at a squared distance: `1 / (1 + d)`, where
/// `d` is the distance itself.
pub open spec fn neighbor_weight_formula(distance_squared: int) -> Formula {
    quotient(constant(ONE), sum(constant(ONE), square_root(integer(distance_squared as u64))))
}

/// The interference of the first `count` of a sequence of neighbours at
/// time `t`: the sum, from zero on, of each neighbour's value times its
/// weight.
pub open spec fn interference_formula(
    neighbors: Seq<(MemoryWave, int)>,
    t: Scalar,
    now: TimeSpan,
    count: nat,
) -> Formula
    decreases count,
{
    if count == 0 {
        constant(ZERO)
    } else {
        let (wave, distance_squared) = neighbors[count - 1];
        sum(
            interference_formula(neighbors, t, now, (count - 1) as nat),
            product(wave.value_formula(t, now), neighbor_weight_formula(distance_squared)),
        )
    }
}

/// The noise floor smoothed towards the noise of the surroundings:
/// `0.9 floor + 0.1 noise`.
pub open spec fn smoothing_formula(floor: Scalar, noise: Scalar) -> Formula {
    sum(
        product(value(floor), constant(NOISE_MEMORY)),
        product(value(noise), constant(NOISE_INFLUENCE)),
    )
}

/// Whether `decays` holds, for each of the waves, a value that the
/// arithmetic gives to the fraction that decay has left of it at `now`.
pub open spec fn decays_of<A: Fn(Operation) -> Scalar>(
    arithmetic: A,
    waves: Seq<MemoryWave>,
    now: TimeSpan,
    decays: Seq<Scalar>,
) -> bool {
    &&& decays.len() == waves.len()
    &&& forall|i: int|
        0 <= i < waves.len() ==> evaluates(
            arithmetic,
            (#[trigger] waves[i]).decay_formula(now),
            decays[i],
        )
}

/// How many of the decay fractions are above the activity threshold.
pub open spec fn active_count(decays: Seq<Scalar>) -> nat {
    decays.filter(|decay: Scalar| decay.spec_gt(Scalar::from_bits(ACTIVE_DECAY))).len()
}

/// The grid as a mathematical value.
pub struct GridView {
    pub width: nat,
    pub height: nat,
    pub depth: nat,
    pub slots: Seq<Option<MemoryWave>>,
    pub noise_floor: Scalar,
}

impl GridView {
    /// The extents are positive and within the coordinate range, there is
    /// one slot per cell, and the noise floor is a NaN or in `[0.01, 0.5]`.
    pub open spec fn wf(self) -> bool {
        &&& 0 < self.width <= 256
        &&& 0 < self.height <= 256
        &&& 0 < self.depth <= 65536
        &&& self.slots.len() == self.width * self.height * self.depth
        &&& (self.noise_floor.spec_is_nan() || self.noise_floor.within(
            Scalar::from_bits(NOISE_FLOOR_MIN),
            Scalar::from_bits(NOISE_FLOOR_MAX),
        ))
    }

    /// The slot of a cell: coordinates wrap around the grid's extent, and
    /// the slots are laid out layer by layer, row by row.
    pub open spec fn index(self, x: int, y: int, z: int) -> int {
        (z % (self.depth as int)) * self.width * self.height + (y % (self.height as int))
            * self.width + (x % (self.width as int))
    }

    /// What the cell holds.
    pub open spec fn get(self, x: int, y: int, z: int) -> Option<MemoryWave> {
        self.slots[self.index(x, y, z)]
    }

    /// Whether the grid takes the wave: its amplitude is above the noise
    /// floor.
    pub open spec fn admits(self, wave: MemoryWave) -> bool {
        wave.amplitude.spec_gt(self.noise_floor)
    }

    /// The grid after the wave was offered to a cell: an admitted wave
    /// replaces what the cell held, any other wave changes nothing.
    pub open spec fn store(self, x: int, y: int, z: int, wave: MemoryWave) -> GridView {
        if self.admits(wave) {
            GridView { slots: self.slots.update(self.index(x, y, z), Some(wave)), ..self }
        } else {
            self
        }
    }

    /// The cell that is the `k`-th of the neighbourhood of a point. The
    /// neighbour's coordinates are limited to the grid's extent, not
    /// wrapped: a neighbour beyond an edge is the cell at that edge. A
    /// point that lies beyond the extent itself has the cells at the edge
    /// for neighbours.
    pub open spec fn neighbor_cell(self, x: int, y: int, z: int, k: int) -> (int, int, int) {
        let (dx, dy, dz) = neighbor_offset(k);
        (
            clamp_coordinate(x + dx, self.width - 1),
            clamp_coordinate(y + dy, self.height - 1),
            clamp_coordinate(z + dz, self.depth - 1),
        )
    }

    /// What the `k`-th cell of the neighbourhood of a point holds.
    pub open spec fn neighbor_at(self, x: int, y: int, z: int, k: int) -> Option<MemoryWave> {
        let (nx, ny, nz) = self.neighbor_cell(x, y, z, k);
        self.get(nx, ny, nz)
    }

    /// The waves in the first `count` cells of the neighbourhood of a
    /// point, in order, each with its squared distance from the point.
    pub open spec fn neighbors(self, x: int, y: int, z: int, count: nat) -> Seq<(MemoryWave, int)>
        decreases count,
    {
        if count == 0 {
            Seq::empty()
        } else {
            let before = self.neighbors(x, y, z, (count - 1) as nat);
            match self.neighbor_at(x, y, z, count - 1) {
                Some(wave) => before.push((wave, neighbor_distance_squared(count - 1))),
                None => before,
            }
        }
    }

    /// The waves the grid holds, in slot order.
    pub open spec fn occupants(self) -> Seq<MemoryWave> {
        self.slots.filter_map(|slot: Option<MemoryWave>| slot)
    }
}

/// A wave found in the neighbourhood of a point.
pub struct Neighbor {
    /// The wave.
    pub wave: Arc<MemoryWave>,
    /// Its squared distance from the point, in grid cells: 0 to 3.
    pub distance_squared: u8,
}

impl Neighbor {
    /// The wave and its squared distance.
    pub open spec fn view(self) -> (MemoryWave, int) {
        (*self.wave, self.distance_squared as int)
    }
}

/// What a sequence of neighbours shows: each wave with its squared distance.
pub open spec fn neighbor_views(found: Seq<Neighbor>) -> Seq<(MemoryWave, int)> {
    found.map_values(|neighbor: Neighbor| neighbor.view())
}

/// The waves behind a sequence of handles.
pub open spec fn waves_of(handles: Seq<Arc<MemoryWave>>) -> Seq<MemoryWave> {
    handles.map_values(|handle: Arc<MemoryWave>| *handle)
}

/// `Arc::clone`: a second handle to the allocation that `handle` points to,
/// so that both show the same wave.
#[verifier::external_body]
pub(crate) fn share(handle: &Arc<MemoryWave>) -> (shared: Arc<MemoryWave>)
    ensures
        *shared == **handle,
{
    Arc::clone(handle)
}

/// A three-dimensional grid of wave slots.
pub struct WaveGrid {
    width: usize,
    height: usize,
    depth: usize,
    grid: Vec<Option<Arc<MemoryWave>>>,
    noise_floor: Scalar,
}

impl View for WaveGrid {
    type V = GridView;

    closed spec fn view(&self) -> GridView {
        GridView {
            width: self.width as nat,
            height: self.height as nat,
            depth: self.depth as nat,
            slots: self.grid@.map_values(|slot: Option<Arc<MemoryWave>>| occupant(slot)),
            noise_floor: self.noise_floor,
        }
    }
}

impl WaveGrid {
    #[verifier::type_invariant]
    spec fn inv(&self) -> bool {
        self@.wf()
    }

    /// An empty grid of 64 by 64 by 256 cells with a noise floor of 0.1.
    pub fn new() -> (grid: WaveGrid)
        ensures
            grid@.width == GRID_WIDTH,
            grid@.height == GRID_HEIGHT,
            grid@.depth == GRID_DEPTH,
            grid@.slots.len() == GRID_WIDTH * GRID_HEIGHT * GRID_DEPTH,
            forall|i: int| 0 <= i < grid@.slots.len() ==> #[trigger] grid@.slots[i] is None,
            grid@.noise_floor.bits == NOISE_FLOOR_DEFAULT,
            grid@.wf(),
    {
        let total: usize = GRID_WIDTH * GRID_HEIGHT * GRID_DEPTH;
        let mut slots: Vec<Option<Arc<MemoryWave>>> = Vec::new();
        let mut filled: usize = 0;
        while filled < total
            invariant
                filled <= total,
                slots.len() == filled,
                forall|i: int| 0 <= i < filled ==> #[trigger] slots[i] is None,
            decreases total - filled,
        {
            slots.push(None);
            filled = filled + 1;
        }
        WaveGrid {
            width: GRID_WIDTH,
            height: GRID_HEIGHT,
            depth: GRID_DEPTH,
            grid: slots,
            noise_floor: Scalar::from_bits(NOISE_FLOOR_DEFAULT),
        }
    }

    /// Number of slots along the first axis.
    pub fn width(&self) -> (width: usize)
        ensures
            width == self@.width,
            0 < width <= 256,
    {
        proof {
            use_type_invariant(self);
        }
        self.width
    }

    /// Number of slots along the second axis.
    pub fn height(&self) -> (height: usize)
        ensures
            height == self@.height,
            0 < height <= 256,
    {
        proof {
            use_type_invariant(self);
        }
        self.height
    }

    /// Number of layers along the third axis.
    pub fn depth(&self) -> (depth: usize)
        ensures
            depth == self@.depth,
            0 < depth <= 65536,
    {
        proof {
            use_type_invariant(self);
        }
        self.depth
    }

    /// The amplitude a wave has to exceed to be stored.
    pub fn noise_floor(&self) -> (floor: Scalar)
        ensures
            floor == self@.noise_floor,
            self@.wf(),
    {
        proof {
            use_type_invariant(self);
        }
        self.noise_floor
    }

    /// The slot of the cell with the given coordinates, wrapped around the
    /// grid's extent.
    fn get_index(&self, x: u8, y: u8, z: u16) -> (idx: usize)
        ensures
            idx == self@.index(x as int, y as int, z as int),
            idx < self.grid.len(),
            self@.wf(),
    {
        proof {
            use_type_invariant(self);
        }
        let column: usize = x as usize % self.width;
        let row: usize = y as usize % self.height;
        let layer: usize = z as usize % self.depth;
        proof {
            lemma_index_in_bounds(
                column as int,
                row as int,
                layer as int,
                self.width as int,
                self.height as int,
                self.depth as int,
            );
            assert(self@.slots.len() == self.grid.len());
        }
        layer * self.width * self.height + row * self.width + column
    }

    /// Offers a wave to a cell. A wave whose amplitude is above the noise
    /// floor replaces what the cell held; any other wave is dropped.
    pub fn store(&mut self, x: u8, y: u8, z: u16, wave: MemoryWave)
        ensures
            final(self)@ == old(self)@.store(x as int, y as int, z as int, wave),
            final(self)@.wf(),
    {
        let idx: usize = self.get_index(x, y, z);
        if wave.amplitude.gt(self.noise_floor) {
            self.grid[idx] = Some(Arc::new(wave));
            assert(self@.slots =~= old(self)@.slots.update(idx as int, Some(wave)));
        }
    }

    /// The wave a cell holds, if any.
    pub fn get(&self, x: u8, y: u8, z: u16) -> (found: Option<&Arc<MemoryWave>>)
        ensures
            match found {
                Some(handle) => self@.get(x as int, y as int, z as int) == Some(**handle),
                None => self@.get(x as int, y as int, z as int) is None,
            },
    {
        let idx: usize = self.get_index(x, y, z);
        self.grid[idx].as_ref()
    }

    /// The waves in the 27 cells around a point, the point's own cell
    /// included, in order, each with its squared distance from the point.
    /// The interference at the point is the sum of their values, each
    /// weighted by its distance. Neighbours beyond the grid's extent are
    /// pulled back to its edge, so a cell at the edge is met more than
    /// once, and no cell is reached by wrapping around.
    pub fn interference_neighbors(&self, x: u8, y: u8, z: u16) -> (found: Vec<Neighbor>)
        ensures
            neighbor_views(found@) == self@.neighbors(
                x as int,
                y as int,
                z as int,
                NEIGHBORHOOD as nat,
            ),
    {
        let last_x: i32 = self.width() as i32 - 1;
        let last_y: i32 = self.height() as i32 - 1;
        let last_z: i32 = self.depth() as i32 - 1;
        let mut found: Vec<Neighbor> = Vec::new();
        let mut k: usize = 0;
        while k < NEIGHBORHOOD
            invariant
                k <= NEIGHBORHOOD,
                last_x == self@.width - 1,
                last_y == self@.height - 1,
                last_z == self@.depth - 1,
                0 <= last_x <= 255,
                0 <= last_y <= 255,
                0 <= last_z <= 65535,
                neighbor_views(found@) == self@.neighbors(x as int, y as int, z as int, k as nat),
            decreases NEIGHBORHOOD - k,
        {
            let dx: i32 = (k / 9) as i32 - 1;
            let dy: i32 = ((k / 3) % 3) as i32 - 1;
            let dz: i32 = (k % 3) as i32 - 1;
            let nx: u8 = clamp_to_range(x as i32 + dx, last_x) as u8;
            let ny: u8 = clamp_to_range(y as i32 + dy, last_y) as u8;
            let nz: u16 = clamp_to_range(z as i32 + dz, last_z) as u16;
            let ghost before = found@;
            match self.get(nx, ny, nz) {
                Some(handle) => {
                    let distance_squared: u8 = step_squared(dx) + step_squared(dy) + step_squared(
                        dz,
                    );
                    found.push(Neighbor { wave: share(handle), distance_squared });
                    assert(neighbor_views(found@) =~= neighbor_views(before).push(
                        (**handle, neighbor_distance_squared(k as int)),
                    ));
                },
                None => {},
            }
            k = k + 1;
        }
        found
    }

    /// The interference at a point at time `t`: the sum of the values of
    /// the waves in the 27 cells around it, each weighted by `1 / (1 + d)`
    /// for its distance `d` from the point.
    pub fn calculate_interference<A: Fn(Operation) -> Scalar>(
        &self,
        x: u8,
        y: u8,
        z: u16,
        t: Scalar,
        now: TimeSpan,
        arithmetic: &A,
    ) -> (interference: Scalar)
        requires
            total(*arithmetic),
        ensures
            evaluates(
                *arithmetic,
                interference_formula(
                    self@.neighbors(x as int, y as int, z as int, NEIGHBORHOOD as nat),
                    t,
                    now,
                    self@.neighbors(x as int, y as int, z as int, NEIGHBORHOOD as nat).len(),
                ),
                interference,
            ),
    {
        let found: Vec<Neighbor> = self.interference_neighbors(x, y, z);
        let ghost neighbors = self@.neighbors(x as int, y as int, z as int, NEIGHBORHOOD as nat);
        let mut sum_so_far: Term = Term::constant(ZERO);
        let mut i: usize = 0;
        while i < found.len()
            invariant
                i <= found@.len(),
                total(*arithmetic),
                neighbor_views(found@) == neighbors,
                sum_so_far.holds(*arithmetic),
                sum_so_far.formula@ == interference_formula(neighbors, t, now, i as nat),
            decreases found@.len() - i,
        {
            let neighbor: &Neighbor = &found[i];
            assert(neighbors[i as int] == neighbor.view());
            let distance: Term = Term::integer(neighbor.distance_squared as u64, arithmetic).unary(
                Unary::SquareRoot,
                arithmetic,
            );
            let one: Term = Term::constant(ONE);
            let weight: Term = one.over(&one.plus(&distance, arithmetic), arithmetic);
            let wave_value: Term = neighbor.wave.value_term(t, now, arithmetic);
            sum_so_far = sum_so_far.plus(&wave_value.times(&weight, arithmetic), arithmetic);
            i = i + 1;
        }
        sum_so_far.value
    }

    /// Moves the noise floor towards the noise of the surroundings: the
    /// new floor is `0.9 floor + 0.1 noise`, limited to `[0.01, 0.5]`.
    pub fn adjust_noise_floor<A: Fn(Operation) -> Scalar>(
        &mut self,
        environmental_noise: Scalar,
        arithmetic: &A,
    )
        requires
            total(*arithmetic),
        ensures
            exists|smoothed: Scalar|
                #![trigger operand(smoothed)]
                operand(smoothed) && evaluates(
                    *arithmetic,
                    smoothing_formula(old(self)@.noise_floor, environmental_noise),
                    smoothed,
                ) && final(self)@.noise_floor == smoothed.spec_clamp(
                    Scalar::from_bits(NOISE_FLOOR_MIN),
                    Scalar::from_bits(NOISE_FLOOR_MAX),
                ),
            final(self)@.width == old(self)@.width,
            final(self)@.height == old(self)@.height,
            final(self)@.depth == old(self)@.depth,
            final(self)@.slots == old(self)@.slots,
            final(self)@.wf(),
    {
        proof {
            use_type_invariant(&*self);
        }
        let smoothed: Term = Term::of(self.noise_floor).times(
            &Term::constant(NOISE_MEMORY),
            arithmetic,
        ).plus(
            &Term::of(environmental_noise).times(&Term::constant(NOISE_INFLUENCE), arithmetic),
            arithmetic,
        );
        proof {
            assert(operand(smoothed.value));
        }
        self.noise_floor =
        smoothed.value.clamp(
            Scalar::from_bits(NOISE_FLOOR_MIN),
            Scalar::from_bits(NOISE_FLOOR_MAX),
        );
    }

    /// Handles to the waves the grid holds, in slot order.
    pub fn occupants(&self) -> (handles: Vec<Arc<MemoryWave>>)
        ensures
            waves_of(handles@) == self@.occupants(),
    {
        let mut handles: Vec<Arc<MemoryWave>> = Vec::new();
        let mut i: usize = 0;
        while i < self.grid.len()
            invariant
                i <= self.grid.len(),
                self@.slots.len() == self.grid.len(),
                waves_of(handles@) == self@.slots.take(i as int).filter_map(
                    |slot: Option<MemoryWave>| slot,
                ),
            decreases self.grid.len() - i,
        {
            let ghost before = handles@;
            proof {
                let upto = self@.slots.take(i as int + 1);
                assert(upto.drop_last() =~= self@.slots.take(i as int));
                assert(upto.last() == self@.slots[i as int]);
            }
            match &self.grid[i] {
                Some(handle) => {
                    handles.push(share(handle));
                    assert(waves_of(handles@) =~= waves_of(before) + seq![**handle]);
                },
                None => {},
            }
            i = i + 1;
        }
        assert(self@.slots.take(i as int) =~= self@.slots);
        handles
    }

    /// The number of active waves in the grid at clock reading `now`:
    /// those of which decay has left more than a hundredth.
    pub fn active_memory_count<A: Fn(Operation) -> Scalar>(&self, now: TimeSpan, arithmetic: &A) -> (count:
        usize)
        requires
            total(*arithmetic),
        ensures
            exists|decays: Seq<Scalar>|
                #![trigger decays_of(*arithmetic, self@.occupants(), now, decays)]
                decays_of(*arithmetic, self@.occupants(), now, decays) && count == active_count(
                    decays,
                ),
    {
        let handles: Vec<Arc<MemoryWave>> = self.occupants();
        let decays: Vec<Scalar> = decays_at(&handles, now, arithmetic);
        WaveGrid::count_active(&decays)
    }

    /// How many of the decay fractions are above a hundredth.
    pub fn count_active(decays: &Vec<Scalar>) -> (count: usize)
        ensures
            count == active_count(decays@),
    {
        let threshold: Scalar = Scalar::from_bits(ACTIVE_DECAY);
        let mut count: usize = 0;
        let mut i: usize = 0;
        while i < decays.len()
            invariant
                i <= decays.len(),
                count <= i,
                threshold == Scalar::from_bits(ACTIVE_DECAY),
                count == active_count(decays@.take(i as int)),
            decreases decays.len() - i,
        {
            proof {
                reveal(Seq::filter);
                let upto = decays@.take(i as int + 1);
                assert(upto.drop_last() =~= decays@.take(i as int));
                assert(upto.last() == decays@[i as int]);
            }
            if decays[i].gt(threshold) {
                count = count + 1;
            }
            i = i + 1;
        }
        assert(decays@.take(i as int) =~= decays@);
        count
    }
}

/// The fraction that decay has left of each of the waves at clock reading
/// `now`.
pub fn decays_at<A: Fn(Operation) -> Scalar>(
    handles: &Vec<Arc<MemoryWave>>,
    now: TimeSpan,
    arithmetic: &A,
) -> (decays: Vec<Scalar>)
    requires
        total(*arithmetic),
    ensures
        decays_of(*arithmetic, waves_of(handles@), now, decays@),
{
    let mut decays: Vec<Scalar> = Vec::with_capacity(handles.len());
    let mut i: usize = 0;
    while i < handles.len()
        invariant
            i <= handles@.len(),
            total(*arithmetic),
            decays@.len() == i,
            forall|j: int|
                0 <= j < i ==> evaluates(
                    *arithmetic,
                    (#[trigger] waves_of(handles@)[j]).decay_formula(now),
                    decays@[j],
                ),
        decreases handles@.len() - i,
    {
        let decay: Scalar = handles[i].calculate_decay(now, arithmetic);
        decays.push(decay);
        i = i + 1;
    }
    decays
}

/// The square of a step of -1, 0 or 1.
fn step_squared(step: i32) -> (square: u8)
    requires
        -1 <= step <= 1,
    ensures
        square == step * step,
        square <= 1,
{
    assert(step * step == if step == 0 { 0int } else { 1int }) by (nonlinear_arith)
        requires
            -1 <= step <= 1,
    ;
    if step == 0 {
        0
    } else {
        1
    }
}

/// A coordinate limited to `[0, max]`.
fn clamp_to_range(coordinate: i32, max: i32) -> (clamped: i32)
    requires
        0 <= max,
    ensures
        clamped == clamp_coordinate(coordinate as int, max as int),
        0 <= clamped <= max,
{
    if coordinate < 0 {
        0
    } else if coordinate > max {
        max
    } else {
        coordinate
    }
}

/// A cell inside the grid has a slot inside the block of slots, and the
/// products on the way to it stay below the number of slots.
proof fn lemma_index_in_bounds(x: int, y: int, z: int, width: int, height: int, depth: int)
    requires
        0 <= x < width,
        0 <= y < height,
        0 <= z < depth,
    ensures
        0 <= z * width <= z * width * height,
        0 <= z * width * height + y * width + x < width * height * depth,
        z * width * height + y * width <= z * width * height + y * width + x,
        0 <= y * width,
{
    assert(0 <= z * width) by (nonlinear_arith)
        requires
            0 <= z,
            0 < width,
    ;
    assert(z * width <= z * width * height) by (nonlinear_arith)
        requires
            0 <= z,
            0 < width,
            0 < height,
    ;
    assert(0 <= y * width && y * width + x < height * width) by (nonlinear_arith)
        requires
            0 <= x < width,
            0 <= y < height,
    ;
    assert(z * width * height + height * width <= width * height * depth) by (nonlinear_arith)
        requires
            0 <= z < depth,
            0 < width,
            0 < height,
    ;
}

/// Every cell has a slot of its own inside the block of slots.
pub proof fn lemma_cell_has_slot(grid: GridView, x: int, y: int, z: int)
    requires
        grid.wf(),
    ensures
        0 <= grid.index(x, y, z) < grid.slots.len(),
{
    let width = grid.width as int;
    let height = grid.height as int;
    let depth = grid.depth as int;
    lemma_index_in_bounds(x % width, y % height, z % depth, width, height, depth);
}

/// A wave stored in a cell is what the cell then holds, when the wave's
/// amplitude is above the noise floor; otherwise the cell holds what it held
/// before. Every other cell keeps what it held.
pub proof fn lemma_store_then_get(
    grid: GridView,
    x: int,
    y: int,
    z: int,
    wave: MemoryWave,
    other_x: int,
    other_y: int,
    other_z: int,
)
    requires
        grid.wf(),
    ensures
        grid.store(x, y, z, wave).wf(),
        grid.admits(wave) ==> grid.store(x, y, z, wave).get(x, y, z) == Some(wave),
        !grid.admits(wave) ==> grid.store(x, y, z, wave) == grid,
        grid.index(other_x, other_y, other_z) != grid.index(x, y, z) ==> grid.store(
            x,
            y,
            z,
            wave,
        ).get(other_x, other_y, other_z) == grid.get(other_x, other_y, other_z),
{
    lemma_cell_has_slot(grid, x, y, z);
    lemma_cell_has_slot(grid, other_x, other_y, other_z);
}

/// The neighbourhood is clamped, not wrapped: every neighbour of a point
/// lies inside the grid, at most one cell away from the point limited to
/// the grid's extent, and its slot is found without wrapping. A point
/// beyond the extent along an axis has only the cell at the far edge of
/// that axis for neighbours.
pub proof fn lemma_neighbors_are_clamped(grid: GridView, x: int, y: int, z: int, k: int)
    requires
        grid.wf(),
        0 <= x,
        0 <= y,
        0 <= z,
        0 <= k < NEIGHBORHOOD,
    ensures
        ({
            let (nx, ny, nz) = grid.neighbor_cell(x, y, z, k);
            &&& 0 <= nx < grid.width
            &&& 0 <= ny < grid.height
            &&& 0 <= nz < grid.depth
            &&& grid.index(nx, ny, nz) == nz * grid.width * grid.height + ny * grid.width + nx
            &&& -1 <= nx - clamp_coordinate(x, grid.width - 1) <= 1
            &&& -1 <= ny - clamp_coordinate(y, grid.height - 1) <= 1
            &&& -1 <= nz - clamp_coordinate(z, grid.depth - 1) <= 1
            &&& x >= grid.width ==> nx == grid.width - 1
            &&& y >= grid.height ==> ny == grid.height - 1
            &&& z >= grid.depth ==> nz == grid.depth - 1
        }),
{
    let (nx, ny, nz) = grid.neighbor_cell(x, y, z, k);
    assert(nx % (grid.width as int) == nx) by (nonlinear_arith)
        requires
            0 <= nx < grid.width,
    ;
    assert(ny % (grid.height as int) == ny) by (nonlinear_arith)
        requires
            0 <= ny < grid.height,
    ;
    assert(nz % (grid.depth as int) == nz) by (nonlinear_arith)
        requires
            0 <= nz < grid.depth,
    ;
}

/// Coordinates wrap: a cell is found again at every coordinate that differs
/// from its own by the grid's extent along that axis, so a wave stored at
/// `(x, y, z)` is read back at `(x + width, y, z)`, at `(x, y + height, z)`
/// and at `(x, y, z + depth)`.
pub proof fn lemma_coordinates_wrap(grid: GridView, x: int, y: int, z: int, wave: MemoryWave)
    requires
        grid.wf(),
    ensures
        grid.index(x + grid.width, y, z) == grid.index(x, y, z),
        grid.index(x, y + grid.height, z) == grid.index(x, y, z),
        grid.index(x, y, z + grid.depth) == grid.index(x, y, z),
        grid.store(x, y, z, wave).get(x + grid.width, y, z) == grid.store(x, y, z, wave).get(
            x,
            y,
            z,
        ),
{
    let width = grid.width as int;
    let height = grid.height as int;
    let depth = grid.depth as int;
    assert((x + width) % width == x % width) by (nonlinear_arith)
        requires
            0 < width,
    ;
    assert((y + height) % height == y % height) by (nonlinear_arith)
        requires
            0 < height,
    ;
    assert((z + depth) % depth == z % depth) by (nonlinear_arith)
        requires
            0 < depth,
    ;
}

} // verus!

//! A real sinusoid type and phasor-based addition of two sinusoids of
//! equal frequency.

use crate::complex::Complex;
use crate::num_traits::{obeys_arith_laws, ArithmeticOps, FractionOps, Pow, Trig};
use core::cmp::Ordering;
use vstd::prelude::*;
use vstd::std_specs::cmp::{PartialEqSpec, PartialOrdSpec};
use vstd::std_specs::convert::FromSpec;

verus! {

/// A sinusoid `A cos(2 pi f t + theta)`: an amplitude, a frequency and a
/// phase over a caller-supplied scalar type.
///
/// The scalar type is generic, but realistically it's only useful for
/// floating-point representations.
#[derive(Debug, Clone, PartialEq)]
pub struct Sinusoid<T> {
    amplitude: T,
    frequency: T,
    phase: T,
}

/// The one failure of `Sinusoid::add`: the operands' frequencies are not
/// equal under the scalar's equality.
#[derive(Debug, PartialEq)]
pub enum AddSinusoidError {
    DifferentFrequency,
}

/// The sampling time `start + i / sample_rate`.
pub open spec fn sample_time<T: ArithmeticOps + From<u16>>(start: T, sample_rate: T, i: u16) -> T {
    start.add_spec(T::from_spec(i).div_spec(sample_rate))
}

/// Both scalar operations in the sampling time are defined.
pub open spec fn sample_time_req<T: ArithmeticOps + From<u16>>(
    start: T,
    sample_rate: T,
    i: u16,
) -> bool {
    &&& T::from_spec(i).div_req(sample_rate)
    &&& start.add_req(T::from_spec(i).div_spec(sample_rate))
}

/// The sampling time of index `i` has reached `end` in the scalar's
/// order, so sampling stops before it.
pub open spec fn sample_done<T: ArithmeticOps + From<u16> + PartialOrd>(
    start: T,
    end: T,
    sample_rate: T,
    i: u16,
) -> bool {
    sample_time(start, sample_rate, i).partial_cmp_spec(&end) matches Some(
        Ordering::Greater
        | Ordering::Equal,
    )
}

impl<T> Sinusoid<T> {
    /// The peak value of the sinusoid.
    pub closed spec fn amplitude_spec(self) -> T {
        self.amplitude
    }

    /// Repetitions per unit of time.
    pub closed spec fn frequency_spec(self) -> T {
        self.frequency
    }

    /// The phase offset in radians.
    pub closed spec fn phase_spec(self) -> T {
        self.phase
    }

    /// Builds the sinusoid `amplitude * cos(2 pi frequency t + phase)`.
    pub fn new(amplitude: T, frequency: T, phase: T) -> (r: Sinusoid<T>)
        ensures
            r.amplitude_spec() == amplitude,
            r.frequency_spec() == frequency,
            r.phase_spec() == phase,
    {
        Sinusoid { amplitude, frequency, phase }
    }
}

impl<T: FractionOps + Copy> Sinusoid<T> {
    /// The time taken for each repetition: the reciprocal of the
    /// frequency.  A zero frequency is not guarded: the result is
    /// whatever the scalar's reciprocal makes of it.
    pub open spec fn period_spec(self) -> T {
        self.frequency_spec().recip_spec()
    }

    /// The period of the sinusoid.
    pub fn period(&self) -> (r: T)
        ensures
            r == self.period_spec(),
    {
        self.frequency.recip()
    }
}

impl<T: Trig + Pow + ArithmeticOps + Copy> Sinusoid<T> {
    /// Both products of the polar decomposition of the phasor are defined.
    pub open spec fn to_phasor_req(self) -> bool {
        Complex::<T>::from_polar_req(self.amplitude_spec(), self.phase_spec())
    }

    /// The phasor: the complex number with the sinusoid's amplitude as
    /// magnitude and its phase as angle.
    pub open spec fn to_phasor_spec(self) -> Complex<T> {
        Complex::<T>::from_polar_spec(self.amplitude_spec(), self.phase_spec())
    }

    /// Converts the sinusoid to phasor form.
    ///
    /// This discards the frequency.  Take care to only combine phasors
    /// that had the same frequency before their conversion.
    pub fn to_phasor(self) -> (r: Complex<T>)
        requires
            self.to_phasor_req(),
        ensures
            r == self.to_phasor_spec(),
    {
        Complex::from_polar(self.amplitude, self.phase)
    }

    /// The complex sum of the two operands' phasors.
    pub open spec fn combined_phasor_spec(self, other: Sinusoid<T>) -> Complex<T> {
        self.to_phasor_spec().add_spec(other.to_phasor_spec())
    }

    /// Every scalar operation on the equal-frequency path of `add` is
    /// defined: both phasors, their sum, and the magnitude of the sum.
    pub open spec fn add_combine_req(self, other: Sinusoid<T>) -> bool {
        &&& self.to_phasor_req()
        &&& other.to_phasor_req()
        &&& self.to_phasor_spec().add_req(other.to_phasor_spec())
        &&& self.combined_phasor_spec(other).magnitude_req()
    }
}

impl<T: Trig + Pow + ArithmeticOps + PartialEq + Copy> Sinusoid<T> {
    /// Adds two sinusoids of equal frequency by vector addition of their
    /// phasors: each operand becomes a complex exponential, the two are
    /// summed in the complex plane, and the sum's polar form gives the
    /// amplitude and phase of the resulting sinusoid.
    ///
    /// # Errors
    ///
    /// Fails with `DifferentFrequency` exactly when the two frequencies
    /// are not equal under the scalar's equality (compared exactly, which
    /// is fragile for floating-point scalars whose equal frequencies were
    /// computed along different paths).
    pub fn add(self, other: Sinusoid<T>) -> (r: Result<Sinusoid<T>, AddSinusoidError>)
        requires
            T::obeys_eq_spec(),
            self.frequency_spec().eq_spec(&other.frequency_spec()) ==> self.add_combine_req(
                other,
            ),
        ensures
            self.frequency_spec().eq_spec(&other.frequency_spec()) ==> (r matches Ok(s)
                && s.amplitude_spec() == self.combined_phasor_spec(other).magnitude_spec()
                && s.frequency_spec() == self.frequency_spec() && s.phase_spec()
                == self.combined_phasor_spec(other).angle_spec()),
            !self.frequency_spec().eq_spec(&other.frequency_spec()) ==> r matches Err(
                AddSinusoidError::DifferentFrequency,
            ),
    {
        if self.frequency != other.frequency {
            Err(AddSinusoidError::DifferentFrequency)
        } else {
            let frequency = self.frequency;
            let self_phasor = self.to_phasor();
            let other_phasor = other.to_phasor();
            let combined = self_phasor.add(other_phasor);
            let (amplitude, phase) = combined.to_polar();
            Ok(Sinusoid::new(amplitude, frequency, phase))
        }
    }
}

impl<T: FractionOps + ArithmeticOps + Trig + Copy> Sinusoid<T> {
    /// The frequency in radians per unit of time: `2 pi` times the
    /// frequency.
    pub open spec fn radial_frequency_spec(self) -> T {
        T::two_pi_spec().mul_spec(self.frequency_spec())
    }

    /// The product of `2 pi` and the frequency is defined.
    pub open spec fn radial_frequency_req(self) -> bool {
        T::two_pi_spec().mul_req(self.frequency_spec())
    }

    /// The radial (angular) frequency.
    pub fn radial_frequency(&self) -> (r: T)
        requires
            self.radial_frequency_req(),
        ensures
            r == self.radial_frequency_spec(),
    {
        T::two_pi().mul(self.frequency)
    }

    /// The sample value at time `t`: the time is first wrapped into one
    /// period, which keeps the cosine argument bounded without changing
    /// the mathematical result.
    pub open spec fn sample_spec(self, t: T) -> T {
        self.radial_frequency_spec().mul_spec(t.rem_spec(self.period_spec())).add_spec(
            self.phase_spec(),
        ).cos_spec().mul_spec(self.amplitude_spec())
    }

    /// Every scalar operation in the sample formula is defined.  A zero
    /// frequency is not guarded: the period's reciprocal-of-zero result
    /// flows into the remainder, whose definedness this predicate
    /// constrains.
    pub open spec fn sample_req(self, t: T) -> bool {
        &&& self.radial_frequency_req()
        &&& t.rem_req(self.period_spec())
        &&& self.radial_frequency_spec().mul_req(t.rem_spec(self.period_spec()))
        &&& self.radial_frequency_spec().mul_spec(t.rem_spec(self.period_spec())).add_req(
            self.phase_spec(),
        )
        &&& self.radial_frequency_spec().mul_spec(t.rem_spec(self.period_spec())).add_spec(
            self.phase_spec(),
        ).cos_spec().mul_req(self.amplitude_spec())
    }

    /// The value of the sinusoid at time `t`.
    pub fn sample(&self, t: T) -> (r: T)
        requires
            self.sample_req(t),
        ensures
            r == self.sample_spec(t),
    {
        self.radial_frequency().mul(t.rem(self.period())).add(self.phase).cos().mul(
            self.amplitude,
        )
    }
}

impl<T: FractionOps + ArithmeticOps + From<u16> + Trig + Copy + PartialOrd> Sinusoid<T> {
    /// The scalar operations at sampling index `i` are defined: the
    /// sampling time and the sample at it.
    pub open spec fn sample_range_step_req(self, start: T, sample_rate: T, i: u16) -> bool {
        &&& sample_time_req(start, sample_rate, i)
        &&& self.sample_req(sample_time(start, sample_rate, i))
    }

    /// `sample_range` is defined: the scalar's order and conversion from
    /// indices obey their specifications, some index within the sampling
    /// counter's width reaches `end` (a non-positive sample rate or a
    /// reversed range can fail this), and every step before the first
    /// such index is defined.
    pub open spec fn sample_range_req(self, start: T, end: T, sample_rate: T) -> bool {
        &&& T::obeys_partial_cmp_spec()
        &&& <T as FromSpec<u16>>::obeys_from_spec()
        &&& exists|n: u16| sample_done(start, end, sample_rate, n)
        &&& forall|i: u16|
            (forall|j: u16| j < i ==> !sample_done(start, end, sample_rate, j))
                ==> #[trigger] self.sample_range_step_req(start, sample_rate, i)
    }

    /// Samples the sinusoid at `start + i / sample_rate` for
    /// `i = 0, 1, 2, ...`, inclusive of `start` and exclusive of `end`:
    /// sampling stops at the first index whose time has reached `end`.
    pub fn sample_range(&self, start: T, end: T, sample_rate: T) -> (samples: Vec<T>)
        requires
            self.sample_range_req(start, end, sample_rate),
        ensures
            samples@.len() <= u16::MAX as int,
            forall|j: u16| j < samples@.len() ==> !sample_done(start, end, sample_rate, j),
            sample_done(start, end, sample_rate, samples@.len() as u16),
            forall|j: u16|
                j < samples@.len() ==> samples@[j as int] == self.sample_spec(
                    sample_time(start, sample_rate, j),
                ),
    {
        let mut samples: Vec<T> = Vec::new();
        let mut i: u16 = 0;
        loop
            invariant
                self.sample_range_req(start, end, sample_rate),
                samples@.len() == i as int,
                forall|j: u16| j < i ==> !sample_done(start, end, sample_rate, j),
                forall|j: u16|
                    j < i ==> samples@[j as int] == self.sample_spec(
                        sample_time(start, sample_rate, j),
                    ),
            ensures
                samples@.len() == i as int,
                sample_done(start, end, sample_rate, i),
                forall|j: u16| j < i ==> !sample_done(start, end, sample_rate, j),
                forall|j: u16|
                    j < i ==> samples@[j as int] == self.sample_spec(
                        sample_time(start, sample_rate, j),
                    )
            decreases u16::MAX as int - i as int,
        {
            proof {
                assert(self.sample_range_step_req(start, sample_rate, i));
            }
            let t = start.add(T::from(i).div(sample_rate));
            if t >= end {
                break;
            }
            samples.push(self.sample(t));
            proof {
                let n = choose|n: u16| sample_done(start, end, sample_rate, n);
                assert(i < n);
            }
            i = i + 1;
        }
        samples
    }
}

/// Adding a sinusoid of zero amplitude and equal frequency contributes
/// nothing in the complex plane: the phasor sum is exactly the first
/// operand's phasor, so the sum's amplitude and phase are the polar form
/// of that phasor alone.
pub proof fn lemma_add_zero_amplitude<T: Trig + Pow + ArithmeticOps + Copy>(
    s: Sinusoid<T>,
    z: Sinusoid<T>,
)
    requires
        obeys_arith_laws::<T>(),
        z.amplitude_spec() == T::additive_identity(),
        z.frequency_spec() == s.frequency_spec(),
    ensures
        s.combined_phasor_spec(z) == s.to_phasor_spec(),
        s.combined_phasor_spec(z).magnitude_spec() == s.to_phasor_spec().magnitude_spec(),
        s.combined_phasor_spec(z).angle_spec() == s.to_phasor_spec().angle_spec(),
{
    assert(T::additive_identity().mul_spec(z.phase_spec().cos_spec()) == T::additive_identity());
    assert(T::additive_identity().mul_spec(z.phase_spec().sin_spec()) == T::additive_identity());
    assert(s.to_phasor_spec().real.add_spec(T::additive_identity()) == s.to_phasor_spec().real);
    assert(s.to_phasor_spec().imag.add_spec(T::additive_identity()) == s.to_phasor_spec().imag);
}

} // verus!

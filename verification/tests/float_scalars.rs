use std::f32::consts::FRAC_PI_2;
use std::f64::consts::PI;
use worthe_signals::complex::Complex;
use worthe_signals::num_traits::{ArithmeticOps, FractionOps, Pow, SignedArithmeticOps, Trig};
use worthe_signals::sinusoid::{AddSinusoidError, Sinusoid};

#[derive(Clone, Copy, Debug, PartialEq, PartialOrd)]
struct F32(f32);

impl Trig for F32 {
    fn sin(self) -> Self {
        F32(self.0.sin())
    }
    fn cos(self) -> Self {
        F32(self.0.cos())
    }
    fn tan(self) -> Self {
        F32(self.0.tan())
    }
    fn asin(self) -> Self {
        F32(self.0.asin())
    }
    fn acos(self) -> Self {
        F32(self.0.acos())
    }
    fn atan2(self, other: Self) -> Self {
        F32(self.0.atan2(other.0))
    }
}

impl Pow for F32 {
    fn pow(self, n: i32) -> Self {
        F32(self.0.powi(n))
    }
    fn sqrt(self) -> Self {
        F32(self.0.sqrt())
    }
}

impl ArithmeticOps for F32 {
    fn add(self, other: Self) -> Self {
        F32(self.0 + other.0)
    }
    fn sub(self, other: Self) -> Self {
        F32(self.0 - other.0)
    }
    fn mul(self, other: Self) -> Self {
        F32(self.0 * other.0)
    }
    fn div(self, other: Self) -> Self {
        F32(self.0 / other.0)
    }
    fn rem(self, other: Self) -> Self {
        F32(self.0 % other.0)
    }
}

impl SignedArithmeticOps for F32 {
    fn neg(self) -> Self {
        F32(-self.0)
    }
}

impl FractionOps for F32 {
    fn recip(self) -> Self {
        F32(self.0.recip())
    }
    fn pi() -> Self {
        F32(std::f32::consts::PI)
    }
    fn two_pi() -> Self {
        F32(2.0 * std::f32::consts::PI)
    }
    fn half_pi() -> Self {
        F32(std::f32::consts::PI / 2.0)
    }
    fn zero() -> Self {
        F32(0.0)
    }
}

impl From<u16> for F32 {
    fn from(v: u16) -> Self {
        F32(v as f32)
    }
}

#[derive(Clone, Copy, Debug, PartialEq, PartialOrd)]
struct F64(f64);

impl Trig for F64 {
    fn sin(self) -> Self {
        F64(self.0.sin())
    }
    fn cos(self) -> Self {
        F64(self.0.cos())
    }
    fn tan(self) -> Self {
        F64(self.0.tan())
    }
    fn asin(self) -> Self {
        F64(self.0.asin())
    }
    fn acos(self) -> Self {
        F64(self.0.acos())
    }
    fn atan2(self, other: Self) -> Self {
        F64(self.0.atan2(other.0))
    }
}

impl Pow for F64 {
    fn pow(self, n: i32) -> Self {
        F64(self.0.powi(n))
    }
    fn sqrt(self) -> Self {
        F64(self.0.sqrt())
    }
}

impl ArithmeticOps for F64 {
    fn add(self, other: Self) -> Self {
        F64(self.0 + other.0)
    }
    fn sub(self, other: Self) -> Self {
        F64(self.0 - other.0)
    }
    fn mul(self, other: Self) -> Self {
        F64(self.0 * other.0)
    }
    fn div(self, other: Self) -> Self {
        F64(self.0 / other.0)
    }
    fn rem(self, other: Self) -> Self {
        F64(self.0 % other.0)
    }
}

impl SignedArithmeticOps for F64 {
    fn neg(self) -> Self {
        F64(-self.0)
    }
}

impl FractionOps for F64 {
    fn recip(self) -> Self {
        F64(self.0.recip())
    }
    fn pi() -> Self {
        F64(PI)
    }
    fn two_pi() -> Self {
        F64(2.0 * PI)
    }
    fn half_pi() -> Self {
        F64(PI / 2.0)
    }
    fn zero() -> Self {
        F64(0.0)
    }
}

impl From<u16> for F64 {
    fn from(v: u16) -> Self {
        F64(v as f64)
    }
}

#[test]
fn from_polar_cardinal_directions() {
    let right = Complex::from_polar(F32(1.0), F32(0.0));
    assert!((right.real.0 - 1.0).abs() < f32::EPSILON);
    assert!((right.imag.0 - 0.0).abs() < f32::EPSILON);

    let up = Complex::from_polar(F32(1.0), F32(std::f32::consts::PI / 2.0));
    assert!((up.real.0 - 0.0).abs() < f32::EPSILON / 2.0);
    assert!((up.imag.0 - 1.0).abs() < f32::EPSILON / 2.0);

    let left = Complex::from_polar(F32(1.0), F32(std::f32::consts::PI));
    assert!((left.real.0 + 1.0).abs() < f32::EPSILON);
    assert!((left.imag.0 - 0.0).abs() < f32::EPSILON);

    let down = Complex::from_polar(F32(1.0), F32(std::f32::consts::PI * 3.0 / 2.0));
    assert!((down.real.0 - 0.0).abs() < f32::EPSILON);
    assert!((down.imag.0 + 1.0).abs() < f32::EPSILON);

    let rev = Complex::from_polar(F32(1.0), F32(std::f32::consts::PI * 2.0));
    assert!((rev.real.0 - 1.0).abs() < f32::EPSILON * 2.0);
    assert!((rev.imag.0 - 0.0).abs() < f32::EPSILON * 2.0);
}

#[test]
fn polar_round_trip() {
    // to_polar(from_polar(r, theta)) recovers (r, theta) within the
    // scalar's rounding error, for r >= 0 and theta inside (-pi, pi].
    let cases = [
        (1.0f64, 0.5f64),
        (2.5, -2.0),
        (0.5, 3.0),
        (10.0, -0.1),
        (0.0001, 1.0),
        (7.25, -3.1),
    ];
    for &(r, theta) in &cases {
        let (mag, ang) = Complex::from_polar(F64(r), F64(theta)).to_polar();
        assert!((mag.0 - r).abs() < 1e-9, "magnitude for ({r}, {theta}) was {}", mag.0);
        assert!((ang.0 - theta).abs() < 1e-9, "angle for ({r}, {theta}) was {}", ang.0);
    }
}

#[test]
fn complex_div_on_floats() {
    let a = Complex::new(F64(6.0), F64(8.0));
    let b = Complex::new(F64(3.0), F64(4.0));
    assert_eq!(a.div(b), Complex::new(F64(2.0), F64(0.0)));
}

#[test]
fn complex_magnitude_on_floats() {
    let m = Complex::new(F64(3.0), F64(4.0)).magnitude();
    assert!((m.0 - 5.0).abs() < 1e-12);
}

#[test]
fn complex_angle_on_floats() {
    let a = Complex::new(F64(1.0), F64(1.0)).angle();
    assert!((a.0 - PI / 4.0).abs() < 1e-12);
    let b = Complex::new(F64(-1.0), F64(0.0)).angle();
    assert!((b.0 - PI).abs() < 1e-12);
}

#[test]
fn trig_forwarding() {
    let x = F64(0.3);
    assert!((x.sin().asin().0 - 0.3).abs() < 1e-12);
    assert!((x.cos().acos().0 - 0.3).abs() < 1e-12);
    assert!((x.tan().0 - x.sin().0 / x.cos().0).abs() < 1e-12);
    assert!((F64(1.0).atan2(F64(1.0)).0 - PI / 4.0).abs() < 1e-12);
}

#[test]
fn fraction_ops_constants() {
    assert!((F64::pi().0 - PI).abs() < 1e-15);
    assert!((F64::two_pi().0 - 2.0 * PI).abs() < 1e-15);
    assert!((F64::half_pi().0 - PI / 2.0).abs() < 1e-15);
    assert_eq!(F64::zero(), F64(0.0));
    assert_eq!(F64(4.0).recip(), F64(0.25));
}

#[test]
fn float_pow_and_sqrt() {
    assert_eq!(Pow::pow(F64(2.0), 10), F64(1024.0));
    assert_eq!(Pow::pow(F64(2.0), -2), F64(0.25));
    assert_eq!(F64(2.25).sqrt(), F64(1.5));
}

#[test]
fn sinusoid_period() {
    let sinusoid = Sinusoid::new(F32(1.0), F32(0.5), F32(0.0));
    assert!((sinusoid.period().0 - 2.0).abs() < f32::EPSILON);
}

#[test]
fn sinusoid_radial_frequency() {
    let sinusoid = Sinusoid::new(F32(1.0), F32(1.0), F32(0.0));
    assert!((sinusoid.radial_frequency().0 - 2.0 * std::f32::consts::PI) < f32::EPSILON);
}

#[test]
fn sinusoid_to_phasor() {
    let pure_real = Sinusoid::new(F32(1.0), F32(0.5), F32(0.0));
    let pure_real_phasor = pure_real.to_phasor();
    assert!((pure_real_phasor.real.0 - 1.0).abs() < f32::EPSILON);
    assert!((pure_real_phasor.imag.0 - 0.0).abs() < f32::EPSILON);

    let pure_imag = Sinusoid::new(F32(1.0), F32(2.0), F32(-FRAC_PI_2));
    let pure_imag_phasor = pure_imag.to_phasor();
    assert!((pure_imag_phasor.real.0 - 0.0).abs() < f32::EPSILON);
    assert!((pure_imag_phasor.imag.0 + 1.0).abs() < f32::EPSILON);
}

#[test]
fn sinusoid_sample_shifted_cosine_is_sine() {
    let sinusoid = Sinusoid::new(F32(1.0), F32(1.0), F32(-FRAC_PI_2));
    assert!((sinusoid.sample(F32(0.0)).0 - 0.0).abs() < f32::EPSILON);
    assert!((sinusoid.sample(F32(0.25)).0 - 1.0).abs() < f32::EPSILON);
    assert!((sinusoid.sample(F32(0.5)).0 - 0.0).abs() < f32::EPSILON);
    assert!((sinusoid.sample(F32(0.75)).0 + 1.0).abs() < f32::EPSILON);
    assert!((sinusoid.sample(F32(1.0)).0 - 0.0).abs() < f32::EPSILON);
}

#[test]
fn sinusoid_add_345_triangle() {
    let sin1 = Sinusoid::new(F32(-3.0), F32(1.0), F32(0.0));
    let sin2 = Sinusoid::new(F32(4.0), F32(1.0), F32(-FRAC_PI_2));
    let expected = Sinusoid::new(
        F32(5.0),
        F32(1.0),
        F32(-2.21429743558818100603413092035707408014009529080286529335),
    );
    assert_eq!(Ok(expected), sin1.add(sin2));
}

#[test]
fn sinusoid_add_behaves_like_pointwise_sum() {
    let sin1 = Sinusoid::new(F64(-3.0), F64(1.0), F64(0.0));
    let sin2 = Sinusoid::new(F64(4.0), F64(1.0), F64(-PI / 2.0));
    let sum = sin1.clone().add(sin2.clone()).unwrap();
    for k in 0..10 {
        let t = F64(k as f64 * 0.1);
        let direct = sin1.sample(t).0 + sin2.sample(t).0;
        assert!(
            (sum.sample(t).0 - direct).abs() < 1e-9,
            "at t = {} the sum sampled {} instead of {}",
            t.0,
            sum.sample(t).0,
            direct
        );
    }
}

#[test]
fn sinusoid_add_zero_amplitude_keeps_signal() {
    let s = Sinusoid::new(F64(2.5), F64(1.5), F64(0.7));
    let z = Sinusoid::new(F64(0.0), F64(1.5), F64(0.3));
    let sum = s.clone().add(z).unwrap();
    for k in 0..10 {
        let t = F64(k as f64 * 0.13);
        assert!((sum.sample(t).0 - s.sample(t).0).abs() < 1e-9);
    }
}

#[test]
fn sinusoid_add_different_frequencies_fails() {
    let sin1 = Sinusoid::new(F32(1.0), F32(0.5), F32(0.0));
    let sin2 = Sinusoid::new(F32(1.0), F32(2.0), F32(0.0));
    assert_eq!(Err(AddSinusoidError::DifferentFrequency), sin1.add(sin2));
}

#[test]
fn sample_range_four_per_cycle() {
    let sinusoid = Sinusoid::new(F32(1.0), F32(1.0), F32(-FRAC_PI_2));
    let samples = sinusoid.sample_range(F32(0.0), F32(100.0), F32(4.0));
    assert_eq!(samples.len(), 400);
    for i in (0..100).map(|i| i * 4) {
        assert!((samples[i].0 - 0.0).abs() < f32::EPSILON, "sample {} was {}", i, samples[i].0);
        assert!(
            (samples[i + 1].0 - 1.0).abs() < f32::EPSILON,
            "sample {} was {}",
            i + 1,
            samples[i + 1].0
        );
        assert!(
            (samples[i + 2].0 - 0.0).abs() < f32::EPSILON,
            "sample {} was {}",
            i + 2,
            samples[i + 2].0
        );
        assert!(
            (samples[i + 3].0 + 1.0).abs() < f32::EPSILON,
            "sample {} was {}",
            i + 3,
            samples[i + 3].0
        );
    }
}

#[test]
fn sample_range_empty_when_end_not_after_start() {
    let sinusoid = Sinusoid::new(F64(1.0), F64(1.0), F64(0.0));
    assert_eq!(sinusoid.sample_range(F64(5.0), F64(5.0), F64(1.0)).len(), 0);
    assert_eq!(sinusoid.sample_range(F64(5.0), F64(4.0), F64(1.0)).len(), 0);
}

#[test]
fn sample_range_includes_start_excludes_end() {
    let sinusoid = Sinusoid::new(F64(1.0), F64(1.0), F64(0.0));
    let samples = sinusoid.sample_range(F64(0.0), F64(1.0), F64(2.0));
    // Times 0.0 and 0.5 fall inside [0, 1); time 1.0 does not.
    assert_eq!(samples.len(), 2);
    assert!((samples[0].0 - sinusoid.sample(F64(0.0)).0).abs() < 1e-12);
    assert!((samples[1].0 - sinusoid.sample(F64(0.5)).0).abs() < 1e-12);
}

#[test]
fn complex_angle_at_origin_follows_scalar_atan2() {
    // The angle of the origin is whatever the scalar's two-argument
    // arctangent returns for (0, 0); for IEEE floats that is zero.
    assert_eq!(Complex::new(F64(0.0), F64(0.0)).angle(), F64(0.0));
}

#[test]
fn complex_div_by_zero_complex_propagates() {
    // Dividing by the zero complex value is unguarded: the scalar's own
    // division by zero decides the outcome, which for floats is NaN.
    let r = Complex::new(F64(1.0), F64(2.0)).div(Complex::new(F64(0.0), F64(0.0)));
    assert!(r.real.0.is_nan());
    assert!(r.imag.0.is_nan());
}

#[test]
fn complex_float_addition_commutes() {
    let c1 = Complex::new(F64(1.25), F64(-7.5));
    let c2 = Complex::new(F64(0.3), F64(123.625));
    assert_eq!(c1.add(c2), c2.add(c1));
}

#[test]
fn complex_float_multiplicative_inverse_approx() {
    let cases = [(1.0f64, 5.0f64, -3.0f64, 2.0f64), (0.5, -0.25, 4.0, 3.0)];
    for &(r1, i1, r2, i2) in &cases {
        let c1 = Complex::new(F64(r1), F64(i1));
        let c2 = Complex::new(F64(r2), F64(i2));
        let back = c1.mul(c2).div(c2);
        assert!((back.real.0 - r1).abs() < 1e-12);
        assert!((back.imag.0 - i1).abs() < 1e-12);
    }
}

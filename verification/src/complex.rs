//! A complex number type, generic over the scalar representation.

use crate::num_traits::{
    lemma_crop_signed_id, lemma_tdiv_mul_cancel, obeys_arith_laws, range32, range64,
    ArithmeticOps, Pow, SignedArithmeticOps, Trig,
};
use vstd::prelude::*;

verus! {

/// A point in the complex plane, or a phasor: a real and an imaginary
/// component over a caller-supplied scalar type.
#[derive(Debug, Clone, Copy, PartialEq, Eq)]
pub struct Complex<T> {
    pub real: T,
    pub imag: T,
}

impl<T> Complex<T> {
    /// Builds the complex number `real + imag * i`.
    pub fn new(re: T, im: T) -> (r: Complex<T>)
        ensures
            r == (Complex { real: re, imag: im }),
    {
        Complex { real: re, imag: im }
    }
}

impl<T: ArithmeticOps> Complex<T> {
    /// The complex number whose components are both the scalar's additive
    /// identity (ghost; used to state laws).
    pub open spec fn additive_identity() -> Complex<T> {
        Complex { real: T::additive_identity(), imag: T::additive_identity() }
    }

    /// The complex number `1 + 0i` over the scalar's identities (ghost;
    /// used to state laws).
    pub open spec fn multiplicative_identity() -> Complex<T> {
        Complex { real: T::multiplicative_identity(), imag: T::additive_identity() }
    }

    /// Componentwise sums are defined on the scalar.
    pub open spec fn add_req(self, other: Complex<T>) -> bool {
        self.real.add_req(other.real) && self.imag.add_req(other.imag)
    }

    /// The componentwise sum.
    pub open spec fn add_spec(self, other: Complex<T>) -> Complex<T> {
        Complex {
            real: self.real.add_spec(other.real),
            imag: self.imag.add_spec(other.imag),
        }
    }

    /// Componentwise differences are defined on the scalar.
    pub open spec fn sub_req(self, other: Complex<T>) -> bool {
        self.real.sub_req(other.real) && self.imag.sub_req(other.imag)
    }

    /// The componentwise difference.
    pub open spec fn sub_spec(self, other: Complex<T>) -> Complex<T> {
        Complex {
            real: self.real.sub_spec(other.real),
            imag: self.imag.sub_spec(other.imag),
        }
    }

    /// Every product and combination in the complex product formula is
    /// defined on the scalar.
    pub open spec fn mul_req(self, other: Complex<T>) -> bool {
        &&& self.real.mul_req(other.real)
        &&& self.imag.mul_req(other.imag)
        &&& self.real.mul_spec(other.real).sub_req(self.imag.mul_spec(other.imag))
        &&& self.real.mul_req(other.imag)
        &&& self.imag.mul_req(other.real)
        &&& self.real.mul_spec(other.imag).add_req(self.imag.mul_spec(other.real))
    }

    /// The complex product `(ac - bd) + (ad + bc)i` for `self = a + bi`
    /// and `other = c + di`.
    pub open spec fn mul_spec(self, other: Complex<T>) -> Complex<T> {
        Complex {
            real: self.real.mul_spec(other.real).sub_spec(self.imag.mul_spec(other.imag)),
            imag: self.real.mul_spec(other.imag).add_spec(self.imag.mul_spec(other.real)),
        }
    }
}

impl<T: ArithmeticOps + Copy> Complex<T> {
    /// Componentwise addition.
    pub fn add(self, other: Complex<T>) -> (r: Complex<T>)
        requires
            self.add_req(other),
        ensures
            r == self.add_spec(other),
    {
        let re = self.real.add(other.real);
        let im = self.imag.add(other.imag);
        Complex::new(re, im)
    }

    /// Componentwise subtraction.
    pub fn sub(self, other: Complex<T>) -> (r: Complex<T>)
        requires
            self.sub_req(other),
        ensures
            r == self.sub_spec(other),
    {
        let re = self.real.sub(other.real);
        let im = self.imag.sub(other.imag);
        Complex::new(re, im)
    }

    /// The standard complex product.
    pub fn mul(self, other: Complex<T>) -> (r: Complex<T>)
        requires
            self.mul_req(other),
        ensures
            r == self.mul_spec(other),
    {
        let re = self.real.mul(other.real).sub(self.imag.mul(other.imag));
        let im = self.real.mul(other.imag).add(self.imag.mul(other.real));
        Complex::new(re, im)
    }
}

impl<T: SignedArithmeticOps> Complex<T> {
    /// Negating the imaginary component is defined on the scalar.
    pub open spec fn conjugate_req(self) -> bool {
        self.imag.neg_req()
    }

    /// The complex conjugate: the imaginary component negated.
    pub open spec fn conjugate_spec(self) -> Complex<T> {
        Complex { real: self.real, imag: self.imag.neg_spec() }
    }

    /// The complex conjugate.
    pub fn conjugate(self) -> (r: Complex<T>)
        requires
            self.conjugate_req(),
        ensures
            r == self.conjugate_spec(),
    {
        Complex { real: self.real, imag: self.imag.neg() }
    }

    /// Both components can be negated on the scalar.
    pub open spec fn neg_req(self) -> bool {
        self.real.neg_req() && self.imag.neg_req()
    }

    /// The componentwise negation.
    pub open spec fn neg_spec(self) -> Complex<T> {
        Complex { real: self.real.neg_spec(), imag: self.imag.neg_spec() }
    }

    /// Componentwise negation.
    pub fn neg(self) -> (r: Complex<T>)
        requires
            self.neg_req(),
        ensures
            r == self.neg_spec(),
    {
        Complex { real: self.real.neg(), imag: self.imag.neg() }
    }
}

impl<T: SignedArithmeticOps + Copy> Complex<T> {
    /// Every step of the conjugate-based quotient is defined on the
    /// scalar.  In particular the real-valued denominator — the squared
    /// magnitude of `other` — must not be zero: dividing by the zero
    /// complex value is not guarded by any run-time check.
    pub open spec fn div_req(self, other: Complex<T>) -> bool {
        &&& other.conjugate_req()
        &&& self.mul_req(other.conjugate_spec())
        &&& other.mul_req(other.conjugate_spec())
        &&& self.mul_spec(other.conjugate_spec()).real.div_req(
            other.mul_spec(other.conjugate_spec()).real,
        )
        &&& self.mul_spec(other.conjugate_spec()).imag.div_req(
            other.mul_spec(other.conjugate_spec()).real,
        )
    }

    /// The quotient, computed as `self * conjugate(other)` divided
    /// componentwise by the real part of `other * conjugate(other)`.
    pub open spec fn div_spec(self, other: Complex<T>) -> Complex<T> {
        let num = self.mul_spec(other.conjugate_spec());
        let denom = other.mul_spec(other.conjugate_spec()).real;
        Complex { real: num.real.div_spec(denom), imag: num.imag.div_spec(denom) }
    }

    /// Complex division.
    pub fn div(self, other: Complex<T>) -> (r: Complex<T>)
        requires
            self.div_req(other),
        ensures
            r == self.div_spec(other),
    {
        // Multiply numerator and denominator by the denominator's complex
        // conjugate, to give a pure real denominator.
        let other_conj = other.conjugate();
        let num = self.mul(other_conj);
        let denom = other.mul(other_conj).real;

        let re = num.real.div(denom);
        let im = num.imag.div(denom);
        Complex::new(re, im)
    }
}

impl<T: Pow + ArithmeticOps + Copy> Complex<T> {
    /// Both squares and their sum are defined on the scalar.
    pub open spec fn magnitude_req(self) -> bool {
        &&& self.real.pow_req(2)
        &&& self.imag.pow_req(2)
        &&& self.real.pow_spec(2).add_req(self.imag.pow_spec(2))
    }

    /// The distance from the origin: the square root of the sum of the
    /// squared components.
    pub open spec fn magnitude_spec(self) -> T {
        self.real.pow_spec(2).add_spec(self.imag.pow_spec(2)).sqrt_spec()
    }

    /// The magnitude (absolute value) of the complex number.
    pub fn magnitude(self) -> (r: T)
        requires
            self.magnitude_req(),
        ensures
            r == self.magnitude_spec(),
    {
        self.real.pow(2).add(self.imag.pow(2)).sqrt()
    }
}

impl<T: Trig> Complex<T> {
    /// The argument of the complex number: the two-argument arctangent of
    /// the components, in the scalar's branch convention.  The angle of
    /// the origin is whatever the scalar's arctangent makes of it.
    pub open spec fn angle_spec(self) -> T {
        self.imag.atan2_spec(self.real)
    }

    /// The angle between the positive real axis and this point.
    pub fn angle(self) -> (r: T)
        ensures
            r == self.angle_spec(),
    {
        self.imag.atan2(self.real)
    }
}

impl<T: Trig + Pow + ArithmeticOps + Copy> Complex<T> {
    /// Both products in the polar decomposition are defined on the scalar.
    pub open spec fn from_polar_req(r: T, theta: T) -> bool {
        r.mul_req(theta.cos_spec()) && r.mul_req(theta.sin_spec())
    }

    /// The rectangular form of the polar pair: `(r cos theta, r sin theta)`.
    pub open spec fn from_polar_spec(r: T, theta: T) -> Complex<T> {
        Complex { real: r.mul_spec(theta.cos_spec()), imag: r.mul_spec(theta.sin_spec()) }
    }

    /// Builds the complex number with magnitude `r` and angle `theta`.
    pub fn from_polar(r: T, theta: T) -> (c: Complex<T>)
        requires
            Self::from_polar_req(r, theta),
        ensures
            c == Self::from_polar_spec(r, theta),
    {
        let re = r.mul(theta.cos());
        let im = r.mul(theta.sin());
        Complex::new(re, im)
    }

    /// The polar form: magnitude paired with angle.
    pub fn to_polar(self) -> (r: (T, T))
        requires
            self.magnitude_req(),
        ensures
            r.0 == self.magnitude_spec(),
            r.1 == self.angle_spec(),
    {
        (self.magnitude(), self.angle())
    }
}

/// Adding the zero complex number on either side changes nothing.
pub proof fn lemma_complex_add_identity<T: ArithmeticOps>(c: Complex<T>)
    requires
        obeys_arith_laws::<T>(),
    ensures
        c.add_spec(Complex::<T>::additive_identity()) == c,
        Complex::<T>::additive_identity().add_spec(c) == c,
{
    assert(c.real.add_spec(T::additive_identity()) == c.real);
    assert(c.imag.add_spec(T::additive_identity()) == c.imag);
    assert(T::additive_identity().add_spec(c.real) == c.real);
    assert(T::additive_identity().add_spec(c.imag) == c.imag);
}

/// Complex addition commutes.
pub proof fn lemma_complex_add_comm<T: ArithmeticOps>(c1: Complex<T>, c2: Complex<T>)
    requires
        obeys_arith_laws::<T>(),
    ensures
        c1.add_spec(c2) == c2.add_spec(c1),
{
    assert(c1.real.add_spec(c2.real) == c2.real.add_spec(c1.real));
    assert(c1.imag.add_spec(c2.imag) == c2.imag.add_spec(c1.imag));
}

/// Multiplying by the complex unit changes nothing.
pub proof fn lemma_complex_mul_identity<T: ArithmeticOps>(c: Complex<T>)
    requires
        obeys_arith_laws::<T>(),
    ensures
        c.mul_spec(Complex::<T>::multiplicative_identity()) == c,
{
    assert(c.real.mul_spec(T::multiplicative_identity()) == c.real);
    assert(c.imag.mul_spec(T::multiplicative_identity()) == c.imag);
    assert(c.real.mul_spec(T::additive_identity()) == T::additive_identity());
    assert(c.imag.mul_spec(T::additive_identity()) == T::additive_identity());
    assert(c.real.sub_spec(T::additive_identity()) == c.real);
    assert(T::additive_identity().add_spec(c.imag) == c.imag);
}

/// Multiplying by the zero complex number annihilates.
pub proof fn lemma_complex_mul_annihilate<T: ArithmeticOps>(c: Complex<T>)
    requires
        obeys_arith_laws::<T>(),
    ensures
        c.mul_spec(Complex::<T>::additive_identity()) == Complex::<T>::additive_identity(),
{
    assert(c.real.mul_spec(T::additive_identity()) == T::additive_identity());
    assert(c.imag.mul_spec(T::additive_identity()) == T::additive_identity());
    assert(T::additive_identity().sub_spec(T::additive_identity()) == T::additive_identity());
    assert(T::additive_identity().add_spec(T::additive_identity()) == T::additive_identity());
}

/// Subtracting a summand recovers the other summand, wherever the sum was
/// defined on the scalar.
pub proof fn lemma_complex_add_sub_cancel<T: ArithmeticOps>(c1: Complex<T>, c2: Complex<T>)
    requires
        obeys_arith_laws::<T>(),
        c1.add_req(c2),
    ensures
        c1.add_spec(c2).sub_spec(c2) == c1,
{
    assert(c1.real.add_spec(c2.real).sub_spec(c2.real) == c1.real);
    assert(c1.imag.add_spec(c2.imag).sub_spec(c2.imag) == c1.imag);
}

/// Dividing a defined product by its right factor recovers the left
/// factor, shown here for the 64-bit integer scalar.  The preconditions
/// say exactly that the product and the quotient are defined — every
/// intermediate value of the two formulas is representable — and
/// definedness of the quotient already forces the divisor to be nonzero,
/// since the quotient's denominator is the divisor's squared magnitude.
pub proof fn lemma_complex_mul_div_cancel_i64(c1: Complex<i64>, c2: Complex<i64>)
    requires
        c1.mul_req(c2),
        c1.mul_spec(c2).div_req(c2),
    ensures
        c1.mul_spec(c2).div_spec(c2) == c1,
{
    let a = c1.real as int;
    let b = c1.imag as int;
    let c = c2.real as int;
    let d = c2.imag as int;

    // The product's four scalar products and two combinations are exact.
    lemma_crop_signed_id(a * c, range64());
    lemma_crop_signed_id(b * d, range64());
    lemma_crop_signed_id(a * d, range64());
    lemma_crop_signed_id(b * c, range64());
    let e = a * c - b * d;
    let f = a * d + b * c;
    lemma_crop_signed_id(e, range64());
    lemma_crop_signed_id(f, range64());
    let p = c1.mul_spec(c2);
    assert(p.real == e && p.imag == f);

    // The divisor's conjugate is exact.
    lemma_crop_signed_id(-d, range64());
    let conj = c2.conjugate_spec();
    assert(conj.real == c && conj.imag == -d);

    // The numerator `p * conj` is exact.
    lemma_crop_signed_id(e * c, range64());
    lemma_crop_signed_id(f * -d, range64());
    lemma_crop_signed_id(e * -d, range64());
    lemma_crop_signed_id(f * c, range64());
    let nr = e * c - f * -d;
    let ni = e * -d + f * c;
    lemma_crop_signed_id(nr, range64());
    lemma_crop_signed_id(ni, range64());
    let num = p.mul_spec(conj);
    assert(num.real == nr && num.imag == ni);

    // The denominator `(c2 * conj).real` is the exact squared magnitude.
    lemma_crop_signed_id(c * c, range64());
    lemma_crop_signed_id(d * -d, range64());
    let q = c * c - d * -d;
    lemma_crop_signed_id(q, range64());
    let denom = c2.mul_spec(conj).real;
    assert(denom == q);

    // The numerator is the dividend scaled by the squared magnitude.
    assert(q == c * c + d * d && q >= 0) by (nonlinear_arith)
        requires
            q == c * c - d * -d,
    {
    }
    assert(nr == a * q) by (nonlinear_arith)
        requires
            e == a * c - b * d,
            f == a * d + b * c,
            nr == e * c - f * -d,
            q == c * c + d * d,
    {
    }
    assert(ni == b * q) by (nonlinear_arith)
        requires
            e == a * c - b * d,
            f == a * d + b * c,
            ni == e * -d + f * c,
            q == c * c + d * d,
    {
    }

    // Truncating division by the positive squared magnitude undoes the
    // scaling exactly.
    assert(denom != 0);
    lemma_tdiv_mul_cancel(a, q);
    lemma_tdiv_mul_cancel(b, q);
    lemma_crop_signed_id(a, range64());
    lemma_crop_signed_id(b, range64());
    assert(num.real.div_spec(denom) == c1.real);
    assert(num.imag.div_spec(denom) == c1.imag);
}

/// Dividing a defined product by its right factor recovers the left
/// factor, shown here for the 32-bit integer scalar.  The preconditions
/// say exactly that the product and the quotient are defined — every
/// intermediate value of the two formulas is representable — and
/// definedness of the quotient already forces the divisor to be nonzero,
/// since the quotient's denominator is the divisor's squared magnitude.
pub proof fn lemma_complex_mul_div_cancel_i32(c1: Complex<i32>, c2: Complex<i32>)
    requires
        c1.mul_req(c2),
        c1.mul_spec(c2).div_req(c2),
    ensures
        c1.mul_spec(c2).div_spec(c2) == c1,
{
    let a = c1.real as int;
    let b = c1.imag as int;
    let c = c2.real as int;
    let d = c2.imag as int;

    // The product's four scalar products and two combinations are exact.
    lemma_crop_signed_id(a * c, range32());
    lemma_crop_signed_id(b * d, range32());
    lemma_crop_signed_id(a * d, range32());
    lemma_crop_signed_id(b * c, range32());
    let e = a * c - b * d;
    let f = a * d + b * c;
    lemma_crop_signed_id(e, range32());
    lemma_crop_signed_id(f, range32());
    let p = c1.mul_spec(c2);
    assert(p.real == e && p.imag == f);

    // The divisor's conjugate is exact.
    lemma_crop_signed_id(-d, range32());
    let conj = c2.conjugate_spec();
    assert(conj.real == c && conj.imag == -d);

    // The numerator `p * conj` is exact.
    lemma_crop_signed_id(e * c, range32());
    lemma_crop_signed_id(f * -d, range32());
    lemma_crop_signed_id(e * -d, range32());
    lemma_crop_signed_id(f * c, range32());
    let nr = e * c - f * -d;
    let ni = e * -d + f * c;
    lemma_crop_signed_id(nr, range32());
    lemma_crop_signed_id(ni, range32());
    let num = p.mul_spec(conj);
    assert(num.real == nr && num.imag == ni);

    // The denominator `(c2 * conj).real` is the exact squared magnitude.
    lemma_crop_signed_id(c * c, range32());
    lemma_crop_signed_id(d * -d, range32());
    let q = c * c - d * -d;
    lemma_crop_signed_id(q, range32());
    let denom = c2.mul_spec(conj).real;
    assert(denom == q);

    // The numerator is the dividend scaled by the squared magnitude.
    assert(q == c * c + d * d && q >= 0) by (nonlinear_arith)
        requires
            q == c * c - d * -d,
    {
    }
    assert(nr == a * q) by (nonlinear_arith)
        requires
            e == a * c - b * d,
            f == a * d + b * c,
            nr == e * c - f * -d,
            q == c * c + d * d,
    {
    }
    assert(ni == b * q) by (nonlinear_arith)
        requires
            e == a * c - b * d,
            f == a * d + b * c,
            ni == e * -d + f * c,
            q == c * c + d * d,
    {
    }

    // Truncating division by the positive squared magnitude undoes the
    // scaling exactly.
    assert(denom != 0);
    lemma_tdiv_mul_cancel(a, q);
    lemma_tdiv_mul_cancel(b, q);
    lemma_crop_signed_id(a, range32());
    lemma_crop_signed_id(b, range32());
    assert(num.real.div_spec(denom) == c1.real);
    assert(num.imag.div_spec(denom) == c1.imag);
}

} // verus!

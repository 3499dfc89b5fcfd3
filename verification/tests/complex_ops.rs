use worthe_signals::complex::Complex;
use worthe_signals::num_traits::{ArithmeticOps, Pow, SignedArithmeticOps};

#[test]
fn complex_add_literals() {
    let a = Complex::new(1i64, 5);
    let b = Complex::new(-3i64, 2);
    assert_eq!(a.add(b), Complex::new(-2, 7));
}

#[test]
fn complex_sub_literals() {
    let a = Complex::new(1i64, 5);
    let b = Complex::new(-3i64, 2);
    assert_eq!(a.sub(b), Complex::new(4, 3));
}

#[test]
fn complex_mul_literals() {
    let a = Complex::new(3i64, 4);
    let b = Complex::new(2i64, 3);
    assert_eq!(a.mul(b), Complex::new(-6, 17));
}

#[test]
fn complex_div_literals() {
    let a = Complex::new(6i64, 8);
    let b = Complex::new(3i64, 4);
    assert_eq!(a.div(b), Complex::new(2, 0));
}

#[test]
fn complex_div_inexact_truncates() {
    // (7 + 3i) / (2 + 0i): both components divide by 4 after scaling by
    // the conjugate, truncating toward zero.
    let a = Complex::new(7i64, 3);
    let b = Complex::new(2i64, 0);
    assert_eq!(a.div(b), Complex::new(3, 1));
}

#[test]
fn complex_neg_matches_sub_from_zero() {
    let a = Complex::new(6i64, 8);
    assert_eq!(a.neg(), Complex::new(0i64, 0).sub(a));
}

#[test]
fn complex_conjugate_flips_imag() {
    let a = Complex::new(3i64, 4);
    assert_eq!(a.conjugate(), Complex::new(3, -4));
    assert_eq!(a.conjugate().conjugate(), a);
}

#[test]
fn complex_magnitude_345() {
    assert_eq!(Complex::new(3i32, 4).magnitude(), 5);
}

#[test]
fn complex_magnitude_truncates() {
    // |1 + i| = sqrt(2), which truncates to 1.
    assert_eq!(Complex::new(1i32, 1).magnitude(), 1);
}

#[test]
fn complex_add_zero_is_identity() {
    let zero = Complex::new(0i64, 0);
    for &(re, im) in &[(0i64, 0i64), (1, 5), (-3, 2), (i64::MAX, i64::MIN)] {
        let com = Complex::new(re, im);
        assert_eq!(com.add(zero), com);
        assert_eq!(zero.add(com), com);
    }
}

#[test]
fn complex_sub_zero_is_identity() {
    let zero = Complex::new(0i64, 0);
    for &(re, im) in &[(0i64, 0i64), (1, 5), (-3, 2)] {
        let com = Complex::new(re, im);
        assert_eq!(com.sub(zero), com);
    }
}

#[test]
fn complex_times_zero_annihilates() {
    let zero = Complex::new(0i64, 0);
    for &(re, im) in &[(0i64, 0i64), (1, 5), (-3, 2)] {
        let com = Complex::new(re, im);
        assert_eq!(com.mul(zero), zero);
        assert_eq!(zero.mul(com), zero);
    }
}

#[test]
fn complex_times_one_is_identity() {
    let one = Complex::new(1i64, 0);
    for &(re, im) in &[(0i64, 0i64), (1, 5), (-3, 2)] {
        let com = Complex::new(re, im);
        assert_eq!(com.mul(one), com);
    }
}

#[test]
fn complex_double_matches_mul_by_two() {
    for &(re, im) in &[(0i64, 0i64), (1, 5), (-3, 2)] {
        let com = Complex::new(re, im);
        assert_eq!(com.add(com), com.mul(Complex::new(2, 0)));
    }
}

#[test]
fn complex_additive_inverse() {
    for &(r1, i1, r2, i2) in &[(1i64, 5i64, -3i64, 2i64), (0, 0, 7, -9), (-4, -4, -4, -4)] {
        let com1 = Complex::new(r1, i1);
        let com2 = Complex::new(r2, i2);
        assert_eq!(com1.add(com2).sub(com2), com1);
    }
}

#[test]
fn complex_multiplicative_inverse() {
    for &(r1, i1, r2, i2) in &[(1i64, 5i64, -3i64, 2i64), (0, 0, 7, -9), (6, 8, 3, 4)] {
        let com1 = Complex::new(r1, i1);
        let com2 = Complex::new(r2, i2);
        assert_eq!(com1.mul(com2).div(com2), com1);
    }
}

#[test]
fn complex_commutative_addition() {
    for &(r1, i1, r2, i2) in &[(1i64, 5i64, -3i64, 2i64), (0, 0, 7, -9), (-4, 6, 2, -11)] {
        let com1 = Complex::new(r1, i1);
        let com2 = Complex::new(r2, i2);
        assert_eq!(com1.add(com2), com2.add(com1));
    }
}

#[test]
fn scalar_div_truncates_toward_zero() {
    assert_eq!(7i64.div(-2), -3);
    assert_eq!((-7i64).div(2), -3);
    assert_eq!((-7i64).div(-2), 3);
    assert_eq!(7i64.rem(-2), 1);
    assert_eq!((-7i64).rem(2), -1);
    assert_eq!((-7i64).rem(-2), -1);
}

#[test]
fn scalar_neg() {
    assert_eq!(5i64.neg(), -5);
    assert_eq!((-5i32).neg(), 5);
}

#[test]
fn scalar_pow_positive_exponent() {
    assert_eq!(Pow::pow(3i32, 4), 81);
    assert_eq!(Pow::pow(-2i32, 3), -8);
    assert_eq!(Pow::pow(2i32, 30), 1 << 30);
    assert_eq!(Pow::pow(-2i32, 31), i32::MIN);
    assert_eq!(Pow::pow(0i32, 5), 0);
}

#[test]
fn scalar_pow_zero_exponent() {
    assert_eq!(Pow::pow(7i32, 0), 1);
    assert_eq!(Pow::pow(0i32, 0), 1);
    assert_eq!(Pow::pow(-1i32, 0), 1);
}

#[test]
fn scalar_pow_negative_exponent() {
    // The reciprocal power truncated toward zero.
    assert_eq!(Pow::pow(2i32, -1), 0);
    assert_eq!(Pow::pow(-3i32, -2), 0);
    assert_eq!(Pow::pow(1i32, -7), 1);
    assert_eq!(Pow::pow(-1i32, -3), -1);
    assert_eq!(Pow::pow(-1i32, -4), 1);
    assert_eq!(Pow::pow(0i32, -2), i32::MAX);
}

#[test]
fn scalar_sqrt_truncates() {
    assert_eq!(25i32.sqrt(), 5);
    assert_eq!(26i32.sqrt(), 5);
    assert_eq!(24i32.sqrt(), 4);
    assert_eq!(0i32.sqrt(), 0);
    assert_eq!(1i32.sqrt(), 1);
    assert_eq!(i32::MAX.sqrt(), 46340);
}

#[test]
fn scalar_sqrt_of_negative_is_zero() {
    assert_eq!((-9i32).sqrt(), 0);
    assert_eq!(i32::MIN.sqrt(), 0);
}

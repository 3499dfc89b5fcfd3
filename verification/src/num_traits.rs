//! Numeric capability traits.
//!
//! A scalar type unlocks operations on `Complex` and `Sinusoid` by
//! implementing the trait bundle each operation needs.  Every executable
//! method is tied to a specification-level model (`*_spec`), and a method
//! that can fail on some inputs of an implementing type (overflow, division
//! by zero) guards them with a `*_req` precondition.  Implementations for
//! the signed machine integers are provided here and verified; their models
//! use two's-complement wrap-around and are proved to satisfy the scalar
//! algebra laws (`obeys_arith_laws`) that the laws on `Complex` rest on.

use vstd::arithmetic::div_mod::{
    lemma_div_is_ordered_by_denominator, lemma_div_multiples_vanish, lemma_div_nonincreasing,
    lemma_div_pos_is_pos, lemma_mod_division_less_than_divisor, lemma_small_mod,
};
use vstd::math::abs;
use vstd::prelude::*;

verus! {

/// Width of the two's-complement value range of `i64`.
pub open spec fn range64() -> int {
    0x1_0000_0000_0000_0000
}

/// Width of the two's-complement value range of `i32`.
pub open spec fn range32() -> int {
    0x1_0000_0000
}

/// Wraps an unbounded integer into the two's-complement window
/// `[-range / 2, range / 2)`.
pub open spec fn crop_signed(x: int, range: int) -> int
    recommends
        range > 0,
{
    let m = x % range;
    if m >= range / 2 {
        m - range
    } else {
        m
    }
}

/// Rust's truncating division (rounds toward zero), expressed with the
/// Euclidean `/` of specification arithmetic.
pub open spec fn tdiv(x: int, d: int) -> int
    recommends
        d != 0,
{
    if x == 0 {
        0
    } else if x > 0 && d > 0 {
        x / d
    } else if x < 0 && d < 0 {
        (x * -1) / (d * -1)
    } else if x < 0 {
        ((x * -1) / d) * -1
    } else {
        (x / (d * -1)) * -1
    }
}

/// Rust's truncating remainder (sign follows the dividend), expressed with
/// the Euclidean `%` of specification arithmetic.
pub open spec fn trem(x: int, d: int) -> int
    recommends
        d != 0,
{
    if x == 0 {
        0
    } else if x > 0 && d > 0 {
        x % d
    } else if x < 0 && d < 0 {
        ((x * -1) % (d * -1)) * -1
    } else if x < 0 {
        ((x * -1) % d) * -1
    } else {
        x % (d * -1)
    }
}

/// A value already inside the two's-complement window is unchanged by
/// `crop_signed`.
pub proof fn lemma_crop_signed_id(x: int, range: int)
    requires
        range >= 2,
        range % 2 == 0,
        -(range / 2) <= x < range / 2,
    ensures
        crop_signed(x, range) == x,
{
    if x >= 0 {
        assert(x % range == x) by {
            lemma_small_mod(x as nat, range as nat);
        }
    } else {
        assert((x + range) % range == x % range) by {
            vstd::arithmetic::div_mod::lemma_mod_add_multiples_vanish(x, range);
        }
        assert((x + range) % range == x + range) by {
            lemma_small_mod((x + range) as nat, range as nat);
        }
    }
}

/// Dividing an exact product by a positive factor recovers the other
/// factor under truncating division.
pub proof fn lemma_tdiv_mul_cancel(a: int, q: int)
    requires
        q > 0,
    ensures
        tdiv(a * q, q) == a,
{
    if a == 0 {
        assert(a * q == 0) by (nonlinear_arith)
            requires
                a == 0,
        {
        }
    } else if a > 0 {
        assert(a * q > 0 && a * q == q * a) by (nonlinear_arith)
            requires
                a > 0,
                q > 0,
        {
        }
        lemma_div_multiples_vanish(a, q);
    } else {
        assert(a * q < 0 && (a * q) * -1 == q * (-a)) by (nonlinear_arith)
            requires
                a < 0,
                q > 0,
        {
        }
        lemma_div_multiples_vanish(-a, q);
    }
}

/// Truncating division stays inside the two's-complement window
/// `[-half, half)` as long as the one overflowing pair (the smallest value
/// divided by minus one) is excluded.
proof fn lemma_tdiv_in_range(x: int, d: int, half: int)
    requires
        half >= 2,
        -half <= x < half,
        -half <= d < half,
        d != 0,
        !(x == -half && d == -1),
    ensures
        -half <= tdiv(x, d) < half,
{
    if x == 0 {
    } else if x > 0 && d > 0 {
        lemma_div_pos_is_pos(x, d);
        lemma_div_nonincreasing(x, d);
    } else if x < 0 && d < 0 {
        lemma_div_pos_is_pos(x * -1, d * -1);
        lemma_div_nonincreasing(x * -1, d * -1);
        if x == -half {
            assert(d * -1 >= 2);
            lemma_div_is_ordered_by_denominator(half, 2, d * -1);
            assert(half / 2 < half);
        }
    } else if x < 0 {
        lemma_div_pos_is_pos(x * -1, d);
        lemma_div_nonincreasing(x * -1, d);
    } else {
        lemma_div_pos_is_pos(x, d * -1);
        lemma_div_nonincreasing(x, d * -1);
    }
}

/// The truncating remainder is strictly smaller in magnitude than the
/// divisor, hence inside the two's-complement window.
proof fn lemma_trem_in_range(x: int, d: int, half: int)
    requires
        half >= 2,
        -half <= d < half,
        d != 0,
    ensures
        -half < trem(x, d) < half,
{
    if x == 0 {
    } else if x > 0 && d > 0 {
        lemma_mod_division_less_than_divisor(x, d);
    } else if x < 0 && d < 0 {
        lemma_mod_division_less_than_divisor(x * -1, d * -1);
    } else if x < 0 {
        lemma_mod_division_less_than_divisor(x * -1, d);
    } else {
        lemma_mod_division_less_than_divisor(x, d * -1);
    }
}

/// Mathematical integer exponentiation with a natural exponent.
pub open spec fn pow_int(b: int, e: nat) -> int
    decreases e,
{
    if e == 0 {
        1
    } else {
        pow_int(b, (e - 1) as nat) * b
    }
}

/// The magnitude of a product is the product of the magnitudes.
proof fn lemma_abs_mul(x: int, y: int)
    ensures
        abs(x * y) == abs(x) * abs(y),
{
    assert(abs(x * y) == abs(x) * abs(y)) by (nonlinear_arith);
}

/// A base of magnitude one has powers of magnitude one.
proof fn lemma_pow_int_abs_unit(b: int, m: nat)
    requires
        abs(b) == 1,
    ensures
        abs(pow_int(b, m)) == 1,
    decreases m,
{
    if m > 0 {
        lemma_pow_int_abs_unit(b, (m - 1) as nat);
        lemma_abs_mul(pow_int(b, (m - 1) as nat), b);
    }
}

/// For a base of magnitude at least one, the magnitudes of the powers
/// never decrease with the exponent, and for a base of magnitude at
/// least two each further power at least doubles.
proof fn lemma_pow_int_abs_mono(b: int, k: nat, n: nat)
    requires
        abs(b) >= 1,
        k <= n,
    ensures
        1 <= abs(pow_int(b, k)),
        abs(pow_int(b, k)) <= abs(pow_int(b, n)),
        abs(b) >= 2 && k < n ==> 2 * abs(pow_int(b, k)) <= abs(pow_int(b, n)),
    decreases n,
{
    if k == n {
        lemma_pow_int_abs_unit_or_more(b, k);
    } else {
        lemma_pow_int_abs_mono(b, k, (n - 1) as nat);
        lemma_abs_mul(pow_int(b, (n - 1) as nat), b);
        assert(abs(pow_int(b, n)) == abs(pow_int(b, (n - 1) as nat)) * abs(b));
        assert(abs(pow_int(b, (n - 1) as nat)) * 1 <= abs(pow_int(b, (n - 1) as nat)) * abs(b))
            by (nonlinear_arith)
            requires
                abs(b) >= 1,
                abs(pow_int(b, (n - 1) as nat)) >= 0,
        {
        }
        if abs(b) >= 2 {
            assert(abs(pow_int(b, (n - 1) as nat)) * 2 <= abs(pow_int(b, (n - 1) as nat)) * abs(
                b,
            )) by (nonlinear_arith)
                requires
                    abs(b) >= 2,
                    abs(pow_int(b, (n - 1) as nat)) >= 0,
            {
            }
        }
    }
}

/// A base of magnitude at least one has powers of magnitude at least one.
proof fn lemma_pow_int_abs_unit_or_more(b: int, m: nat)
    requires
        abs(b) >= 1,
    ensures
        abs(pow_int(b, m)) >= 1,
    decreases m,
{
    if m > 0 {
        lemma_pow_int_abs_unit_or_more(b, (m - 1) as nat);
        lemma_abs_mul(pow_int(b, (m - 1) as nat), b);
        assert(abs(pow_int(b, (m - 1) as nat)) * abs(b) >= 1) by (nonlinear_arith)
            requires
                abs(pow_int(b, (m - 1) as nat)) >= 1,
                abs(b) >= 1,
        {
        }
    }
}

/// When the final power of a 32-bit base is representable, so is every
/// intermediate power: for bases of magnitude at least two the
/// magnitudes strictly grow, and smaller bases never leave the range.
pub proof fn lemma_pow_int_partials_i32(b: int, n: nat, k: nat)
    requires
        i32::MIN <= b <= i32::MAX,
        1 <= n,
        k <= n,
        i32::MIN <= pow_int(b, n) <= i32::MAX,
    ensures
        i32::MIN <= pow_int(b, k) <= i32::MAX,
{
    if b == 0 {
        if k > 0 {
            assert(pow_int(b, k) == pow_int(b, (k - 1) as nat) * 0);
            assert(pow_int(b, (k - 1) as nat) * 0 == 0) by (nonlinear_arith);
        }
    } else if abs(b) == 1 {
        lemma_pow_int_abs_unit(b, k);
    } else {
        lemma_pow_int_abs_mono(b, k, n);
        if k < n {
            assert(2 * abs(pow_int(b, k)) <= abs(pow_int(b, n)));
        }
    }
}

/// The integer square root: the largest natural number whose square does
/// not exceed `n`.
pub open spec fn isqrt_nat(n: nat) -> nat
    decreases n,
{
    if n == 0 {
        0
    } else {
        let s = isqrt_nat((n - 1) as nat);
        if (s + 1) * (s + 1) <= n {
            s + 1
        } else {
            s
        }
    }
}

/// `isqrt_nat(n)` is characterised by the two bracketing inequalities.
proof fn lemma_isqrt_nat_brackets(n: nat)
    ensures
        isqrt_nat(n) * isqrt_nat(n) <= n,
        n < (isqrt_nat(n) + 1) * (isqrt_nat(n) + 1),
    decreases n,
{
    if n > 0 {
        lemma_isqrt_nat_brackets((n - 1) as nat);
        let s = isqrt_nat((n - 1) as nat);
        if (s + 1) * (s + 1) <= n {
            assert(isqrt_nat(n) == s + 1);
            assert(n < (s + 2) * (s + 2)) by (nonlinear_arith)
                requires
                    n <= (s + 1) * (s + 1),
            {
            }
        } else {
            assert(isqrt_nat(n) == s);
        }
    } else {
        assert(isqrt_nat(n) == 0);
        assert((isqrt_nat(n) + 1) * (isqrt_nat(n) + 1) == 1) by (nonlinear_arith)
            requires
                isqrt_nat(n) == 0,
        {
        }
    }
}

/// The bracketing inequalities determine the integer square root uniquely.
proof fn lemma_isqrt_unique(n: nat, r: nat)
    requires
        r * r <= n,
        n < (r + 1) * (r + 1),
    ensures
        r == isqrt_nat(n),
{
    lemma_isqrt_nat_brackets(n);
    assert(r == isqrt_nat(n)) by (nonlinear_arith)
        requires
            r * r <= n,
            n < (r + 1) * (r + 1),
            isqrt_nat(n) * isqrt_nat(n) <= n,
            n < (isqrt_nat(n) + 1) * (isqrt_nat(n) + 1),
    {
    }
}

/// Trigonometric capability: the six elementary trigonometric operations.
///
/// Each executable method is deterministic in its arguments; its result is
/// named by the matching `*_spec` function of the implementation.
pub trait Trig: Sized {
    /// The value `sin` returns.
    open spec fn sin_spec(self) -> Self {
        arbitrary()
    }

    /// The value `cos` returns.
    open spec fn cos_spec(self) -> Self {
        arbitrary()
    }

    /// The value `tan` returns.
    open spec fn tan_spec(self) -> Self {
        arbitrary()
    }

    /// The value `asin` returns.
    open spec fn asin_spec(self) -> Self {
        arbitrary()
    }

    /// The value `acos` returns.
    open spec fn acos_spec(self) -> Self {
        arbitrary()
    }

    /// The value `atan2` returns; `self` is the ordinate, `other` the
    /// abscissa, as in the standard two-argument arctangent.
    open spec fn atan2_spec(self, other: Self) -> Self {
        arbitrary()
    }

    fn sin(self) -> (r: Self)
        ensures
            r == self.sin_spec(),
    ;

    fn cos(self) -> (r: Self)
        ensures
            r == self.cos_spec(),
    ;

    fn tan(self) -> (r: Self)
        ensures
            r == self.tan_spec(),
    ;

    fn asin(self) -> (r: Self)
        ensures
            r == self.asin_spec(),
    ;

    fn acos(self) -> (r: Self)
        ensures
            r == self.acos_spec(),
    ;

    fn atan2(self, other: Self) -> (r: Self)
        ensures
            r == self.atan2_spec(other),
    ;
}

/// Power capability: integer exponentiation and square root.
pub trait Pow: Sized {
    /// Inputs on which `pow` is defined for the implementing type
    /// (for bounded integers: no intermediate power overflows).
    open spec fn pow_req(self, n: i32) -> bool {
        true
    }

    /// The value `pow` returns.
    open spec fn pow_spec(self, n: i32) -> Self {
        arbitrary()
    }

    /// The value `sqrt` returns.
    open spec fn sqrt_spec(self) -> Self {
        arbitrary()
    }

    fn pow(self, n: i32) -> (r: Self)
        requires
            self.pow_req(n),
        ensures
            r == self.pow_spec(n),
    ;

    fn sqrt(self) -> (r: Self)
        ensures
            r == self.sqrt_spec(),
    ;
}

/// Arithmetic capability: the five binary arithmetic operations.
///
/// Besides the executable operations and their models, the trait carries the
/// ghost identities `additive_identity` / `multiplicative_identity`, which
/// the predicate `obeys_arith_laws` and the laws on `Complex` are stated
/// over.  Every ghost member has a default, so an implementation outside
/// verified code provides only the executable methods.
pub trait ArithmeticOps: Sized {
    /// The scalar's additive identity (ghost; used only to state laws).
    open spec fn additive_identity() -> Self {
        arbitrary()
    }

    /// The scalar's multiplicative identity (ghost; used only to state laws).
    open spec fn multiplicative_identity() -> Self {
        arbitrary()
    }

    /// Inputs on which `add` is defined (for bounded integers: the sum is
    /// representable).
    open spec fn add_req(self, other: Self) -> bool {
        true
    }

    /// The value `add` returns.
    open spec fn add_spec(self, other: Self) -> Self {
        arbitrary()
    }

    /// Inputs on which `sub` is defined.
    open spec fn sub_req(self, other: Self) -> bool {
        true
    }

    /// The value `sub` returns.
    open spec fn sub_spec(self, other: Self) -> Self {
        arbitrary()
    }

    /// Inputs on which `mul` is defined.
    open spec fn mul_req(self, other: Self) -> bool {
        true
    }

    /// The value `mul` returns.
    open spec fn mul_spec(self, other: Self) -> Self {
        arbitrary()
    }

    /// Inputs on which `div` is defined (for integers: the divisor is not
    /// zero and the quotient is representable).
    open spec fn div_req(self, other: Self) -> bool {
        true
    }

    /// The value `div` returns.
    open spec fn div_spec(self, other: Self) -> Self {
        arbitrary()
    }

    /// Inputs on which `rem` is defined.
    open spec fn rem_req(self, other: Self) -> bool {
        true
    }

    /// The value `rem` returns.
    open spec fn rem_spec(self, other: Self) -> Self {
        arbitrary()
    }

    fn add(self, other: Self) -> (r: Self)
        requires
            self.add_req(other),
        ensures
            r == self.add_spec(other),
    ;

    fn sub(self, other: Self) -> (r: Self)
        requires
            self.sub_req(other),
        ensures
            r == self.sub_spec(other),
    ;

    fn mul(self, other: Self) -> (r: Self)
        requires
            self.mul_req(other),
        ensures
            r == self.mul_spec(other),
    ;

    fn div(self, other: Self) -> (r: Self)
        requires
            self.div_req(other),
        ensures
            r == self.div_spec(other),
    ;

    fn rem(self, other: Self) -> (r: Self)
        requires
            self.rem_req(other),
        ensures
            r == self.rem_spec(other),
    ;
}

/// The scalar algebra laws over a type's arithmetic model: neutrality of
/// the identities, commutativity of addition, annihilation by the additive
/// identity, and cancellation of a defined addition.  The laws on `Complex`
/// hold for every scalar satisfying this predicate; the signed machine
/// integer scalars of this module are proved below to satisfy it.
pub open spec fn obeys_arith_laws<T: ArithmeticOps>() -> bool {
    &&& forall|a: T, b: T| #[trigger] a.add_spec(b) == b.add_spec(a)
    &&& forall|a: T| #[trigger] a.add_spec(T::additive_identity()) == a
    &&& forall|a: T| #[trigger] T::additive_identity().add_spec(a) == a
    &&& forall|a: T| #[trigger] a.sub_spec(T::additive_identity()) == a
    &&& forall|a: T, b: T| a.add_req(b) ==> #[trigger] a.add_spec(b).sub_spec(b) == a
    &&& forall|a: T| #[trigger] a.mul_spec(T::multiplicative_identity()) == a
    &&& forall|a: T| #[trigger] T::multiplicative_identity().mul_spec(a) == a
    &&& forall|a: T| #[trigger] a.mul_spec(T::additive_identity()) == T::additive_identity()
    &&& forall|a: T| #[trigger] T::additive_identity().mul_spec(a) == T::additive_identity()
}

/// Arithmetic plus unary negation.
pub trait SignedArithmeticOps: ArithmeticOps {
    /// Inputs on which `neg` is defined (for bounded integers: everything
    /// but the one value whose negation is not representable).
    open spec fn neg_req(self) -> bool {
        true
    }

    /// The value `neg` returns.
    open spec fn neg_spec(self) -> Self {
        arbitrary()
    }

    fn neg(self) -> (r: Self)
        requires
            self.neg_req(),
        ensures
            r == self.neg_spec(),
    ;
}

/// Fractional capability: reciprocal and the constants built from pi.
pub trait FractionOps: Sized {
    /// The value `recip` returns.
    open spec fn recip_spec(self) -> Self {
        arbitrary()
    }

    /// The value `pi` returns.
    open spec fn pi_spec() -> Self {
        arbitrary()
    }

    /// The value `two_pi` returns.
    open spec fn two_pi_spec() -> Self {
        arbitrary()
    }

    /// The value `half_pi` returns.
    open spec fn half_pi_spec() -> Self {
        arbitrary()
    }

    /// The value `zero` returns.
    open spec fn zero_spec() -> Self {
        arbitrary()
    }

    /// The scalar's reciprocal.  A zero argument is not guarded here: the
    /// result is whatever the implementing type's division produces.
    fn recip(self) -> (r: Self)
        ensures
            r == self.recip_spec(),
    ;

    fn pi() -> (r: Self)
        ensures
            r == Self::pi_spec(),
    ;

    fn two_pi() -> (r: Self)
        ensures
            r == Self::two_pi_spec(),
    ;

    fn half_pi() -> (r: Self)
        ensures
            r == Self::half_pi_spec(),
    ;

    fn zero() -> (r: Self)
        ensures
            r == Self::zero_spec(),
    ;
}

impl ArithmeticOps for i64 {
    open spec fn additive_identity() -> i64 {
        0
    }

    open spec fn multiplicative_identity() -> i64 {
        1
    }

    open spec fn add_req(self, other: i64) -> bool {
        i64::MIN <= self + other <= i64::MAX
    }

    open spec fn add_spec(self, other: i64) -> i64 {
        crop_signed(self + other, range64()) as i64
    }

    open spec fn sub_req(self, other: i64) -> bool {
        i64::MIN <= self - other <= i64::MAX
    }

    open spec fn sub_spec(self, other: i64) -> i64 {
        crop_signed(self - other, range64()) as i64
    }

    open spec fn mul_req(self, other: i64) -> bool {
        i64::MIN <= self * other <= i64::MAX
    }

    open spec fn mul_spec(self, other: i64) -> i64 {
        crop_signed(self * other, range64()) as i64
    }

    open spec fn div_req(self, other: i64) -> bool {
        other != 0 && !(self == i64::MIN && other == -1)
    }

    open spec fn div_spec(self, other: i64) -> i64 {
        if other == 0 {
            0
        } else {
            crop_signed(tdiv(self as int, other as int), range64()) as i64
        }
    }

    open spec fn rem_req(self, other: i64) -> bool {
        other != 0 && !(self == i64::MIN && other == -1)
    }

    open spec fn rem_spec(self, other: i64) -> i64 {
        if other == 0 {
            0
        } else {
            crop_signed(trem(self as int, other as int), range64()) as i64
        }
    }

    fn add(self, other: i64) -> i64 {
        proof {
            lemma_crop_signed_id(self + other, range64());
        }
        self + other
    }

    fn sub(self, other: i64) -> i64 {
        proof {
            lemma_crop_signed_id(self - other, range64());
        }
        self - other
    }

    fn mul(self, other: i64) -> i64 {
        proof {
            lemma_crop_signed_id(self * other, range64());
        }
        self * other
    }

    fn div(self, other: i64) -> i64 {
        proof {
            lemma_tdiv_in_range(self as int, other as int, range64() / 2);
            lemma_crop_signed_id(tdiv(self as int, other as int), range64());
        }
        self.checked_div(other).unwrap()
    }

    fn rem(self, other: i64) -> i64 {
        proof {
            lemma_trem_in_range(self as int, other as int, range64() / 2);
            lemma_crop_signed_id(trem(self as int, other as int), range64());
        }
        self.checked_rem(other).unwrap()
    }
}

impl SignedArithmeticOps for i64 {
    open spec fn neg_req(self) -> bool {
        self != i64::MIN
    }

    open spec fn neg_spec(self) -> i64 {
        crop_signed(-self, range64()) as i64
    }

    fn neg(self) -> i64 {
        proof {
            lemma_crop_signed_id(-self, range64());
        }
        -self
    }
}

impl ArithmeticOps for i32 {
    open spec fn additive_identity() -> i32 {
        0
    }

    open spec fn multiplicative_identity() -> i32 {
        1
    }

    open spec fn add_req(self, other: i32) -> bool {
        i32::MIN <= self + other <= i32::MAX
    }

    open spec fn add_spec(self, other: i32) -> i32 {
        crop_signed(self + other, range32()) as i32
    }

    open spec fn sub_req(self, other: i32) -> bool {
        i32::MIN <= self - other <= i32::MAX
    }

    open spec fn sub_spec(self, other: i32) -> i32 {
        crop_signed(self - other, range32()) as i32
    }

    open spec fn mul_req(self, other: i32) -> bool {
        i32::MIN <= self * other <= i32::MAX
    }

    open spec fn mul_spec(self, other: i32) -> i32 {
        crop_signed(self * other, range32()) as i32
    }

    open spec fn div_req(self, other: i32) -> bool {
        other != 0 && !(self == i32::MIN && other == -1)
    }

    open spec fn div_spec(self, other: i32) -> i32 {
        if other == 0 {
            0
        } else {
            crop_signed(tdiv(self as int, other as int), range32()) as i32
        }
    }

    open spec fn rem_req(self, other: i32) -> bool {
        other != 0 && !(self == i32::MIN && other == -1)
    }

    open spec fn rem_spec(self, other: i32) -> i32 {
        if other == 0 {
            0
        } else {
            crop_signed(trem(self as int, other as int), range32()) as i32
        }
    }

    fn add(self, other: i32) -> i32 {
        proof {
            lemma_crop_signed_id(self + other, range32());
        }
        self + other
    }

    fn sub(self, other: i32) -> i32 {
        proof {
            lemma_crop_signed_id(self - other, range32());
        }
        self - other
    }

    fn mul(self, other: i32) -> i32 {
        proof {
            lemma_crop_signed_id(self * other, range32());
        }
        self * other
    }

    fn div(self, other: i32) -> i32 {
        proof {
            lemma_tdiv_in_range(self as int, other as int, range32() / 2);
            lemma_crop_signed_id(tdiv(self as int, other as int), range32());
        }
        self.checked_div(other).unwrap()
    }

    fn rem(self, other: i32) -> i32 {
        proof {
            lemma_trem_in_range(self as int, other as int, range32() / 2);
            lemma_crop_signed_id(trem(self as int, other as int), range32());
        }
        self.checked_rem(other).unwrap()
    }
}

impl SignedArithmeticOps for i32 {
    open spec fn neg_req(self) -> bool {
        self != i32::MIN
    }

    open spec fn neg_spec(self) -> i32 {
        crop_signed(-self, range32()) as i32
    }

    fn neg(self) -> i32 {
        proof {
            lemma_crop_signed_id(-self, range32());
        }
        -self
    }
}

impl Pow for i32 {
    open spec fn pow_req(self, n: i32) -> bool {
        n > 0 ==> i32::MIN <= pow_int(self as int, n as nat) <= i32::MAX
    }

    /// For a positive exponent this is the repeated product.  For a
    /// nonpositive exponent the result is the reciprocal power truncated
    /// toward zero: a zero base saturates to the largest representable
    /// value, a base of magnitude one keeps magnitude one, and any other
    /// base collapses to zero.
    open spec fn pow_spec(self, n: i32) -> i32 {
        if n > 0 {
            crop_signed(pow_int(self as int, n as nat), range32()) as i32
        } else if n == 0 {
            1
        } else if self == 0 {
            i32::MAX
        } else if self == 1 {
            1
        } else if self == -1 {
            if n % 2 == 0 {
                1i32
            } else {
                -1i32
            }
        } else {
            0
        }
    }

    /// The square root truncated to an integer; a negative argument gives
    /// zero.
    open spec fn sqrt_spec(self) -> i32 {
        if self < 0 {
            0
        } else {
            isqrt_nat(self as nat) as i32
        }
    }

    fn pow(self, n: i32) -> i32 {
        if n > 0 {
            let mut acc: i32 = 1;
            let mut k: i32 = 0;
            while k < n
                invariant
                    0 < n,
                    0 <= k <= n,
                    i32::MIN <= pow_int(self as int, n as nat) <= i32::MAX,
                    acc == pow_int(self as int, k as nat),
                decreases n - k,
            {
                proof {
                    lemma_pow_int_partials_i32(self as int, n as nat, (k + 1) as nat);
                    assert(pow_int(self as int, (k + 1) as nat) == pow_int(self as int, k as nat)
                        * (self as int));
                }
                acc = acc * self;
                k = k + 1;
            }
            proof {
                lemma_crop_signed_id(pow_int(self as int, n as nat), range32());
            }
            acc
        } else if n == 0 {
            1
        } else if self == 0 {
            i32::MAX
        } else if self == 1 {
            1
        } else if self == -1 {
            let parity = n.checked_rem(2).unwrap();
            proof {
                vstd::arithmetic::div_mod::lemma_mod_multiples_vanish(n as int, -(n as int), 2);
            }
            if parity == 0 {
                1
            } else {
                -1
            }
        } else {
            0
        }
    }

    fn sqrt(self) -> i32 {
        if self < 0 {
            return 0;
        }
        let mut r: i32 = 0;
        loop
            invariant
                0 <= r < 46341,
                self >= 0,
                (r as int) * (r as int) <= self as int,
            ensures
                (r as int) * (r as int) <= self as int,
                (self as int) < (r as int + 1) * (r as int + 1)
            decreases 46341 - r,
        {
            proof {
                // 46341 * 46341 exceeds i32::MAX, so the candidate square
                // below fits comfortably in an i64.
                assert((r as int + 1) * (r as int + 1) < 0x8000_0000_0000_0000int)
                    by (nonlinear_arith)
                    requires
                        0 <= r < 46341,
                {
                }
            }
            let next = (r as i64 + 1) * (r as i64 + 1);
            if next > self as i64 {
                break;
            }
            proof {
                assert(r as int + 1 < 46341 && r as int <= self as int) by (nonlinear_arith)
                    requires
                        0 <= r < 46341,
                        (r as int + 1) * (r as int + 1) <= self as int,
                        self <= i32::MAX,
                {
                }
            }
            r = r + 1;
        }
        proof {
            lemma_isqrt_unique(self as nat, r as nat);
        }
        r
    }
}

/// The 64-bit integer scalar's wrap-around model satisfies the scalar
/// algebra laws.
pub proof fn lemma_i64_obeys_arith_laws()
    ensures
        obeys_arith_laws::<i64>(),
{
    let zero = <i64 as ArithmeticOps>::additive_identity();
    let one = <i64 as ArithmeticOps>::multiplicative_identity();
    assert forall|a: i64| #[trigger] a.add_spec(zero) == a by {
        lemma_crop_signed_id(a as int, range64());
    }
    assert forall|a: i64| #[trigger] zero.add_spec(a) == a by {
        lemma_crop_signed_id(a as int, range64());
    }
    assert forall|a: i64| #[trigger] a.sub_spec(zero) == a by {
        lemma_crop_signed_id(a as int, range64());
    }
    assert forall|a: i64, b: i64| a.add_req(b) implies #[trigger] a.add_spec(b).sub_spec(b)
        == a by {
        lemma_crop_signed_id(a + b, range64());
        lemma_crop_signed_id(a as int, range64());
    }
    assert forall|a: i64| #[trigger] a.mul_spec(one) == a by {
        lemma_crop_signed_id(a as int, range64());
    }
    assert forall|a: i64| #[trigger] one.mul_spec(a) == a by {
        lemma_crop_signed_id(a as int, range64());
    }
    assert forall|a: i64| #[trigger] a.mul_spec(zero) == zero by {
        lemma_crop_signed_id(0, range64());
    }
    assert forall|a: i64| #[trigger] zero.mul_spec(a) == zero by {
        lemma_crop_signed_id(0, range64());
    }
}

/// The 32-bit integer scalar's wrap-around model satisfies the scalar
/// algebra laws.
pub proof fn lemma_i32_obeys_arith_laws()
    ensures
        obeys_arith_laws::<i32>(),
{
    let zero = <i32 as ArithmeticOps>::additive_identity();
    let one = <i32 as ArithmeticOps>::multiplicative_identity();
    assert forall|a: i32| #[trigger] a.add_spec(zero) == a by {
        lemma_crop_signed_id(a as int, range32());
    }
    assert forall|a: i32| #[trigger] zero.add_spec(a) == a by {
        lemma_crop_signed_id(a as int, range32());
    }
    assert forall|a: i32| #[trigger] a.sub_spec(zero) == a by {
        lemma_crop_signed_id(a as int, range32());
    }
    assert forall|a: i32, b: i32| a.add_req(b) implies #[trigger] a.add_spec(b).sub_spec(b)
        == a by {
        lemma_crop_signed_id(a + b, range32());
        lemma_crop_signed_id(a as int, range32());
    }
    assert forall|a: i32| #[trigger] a.mul_spec(one) == a by {
        lemma_crop_signed_id(a as int, range32());
    }
    assert forall|a: i32| #[trigger] one.mul_spec(a) == a by {
        lemma_crop_signed_id(a as int, range32());
    }
    assert forall|a: i32| #[trigger] a.mul_spec(zero) == zero by {
        lemma_crop_signed_id(0, range32());
    }
    assert forall|a: i32| #[trigger] zero.mul_spec(a) == zero by {
        lemma_crop_signed_id(0, range32());
    }
}

} // verus!

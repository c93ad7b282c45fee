use crate::bigint::{lemma_pow256_monotonic, pow256, BigInteger};
use bigdecimal::num_bigint::{BigInt, Sign};
use bigdecimal::BigDecimal;
use vstd::prelude::*;

verus! {

/// What a decimal number is: `unscaled * 10^(-scale)`. Two views with the same
/// value but different scales are different decimals (`1.0` and `1.00`).
pub struct DecimalView {
    pub unscaled: int,
    pub scale: int,
}

/// Ten to the power `n`.
pub open spec fn pow10(n: nat) -> nat
    decreases n,
{
    if n == 0 {
        1
    } else {
        10 * pow10((n - 1) as nat)
    }
}

/// The digits of `d` once it is rewritten with `scale` places after the point;
/// meant for `scale >= d.scale`, where the rewriting loses nothing.
pub open spec fn aligned(d: DecimalView, scale: int) -> int {
    d.unscaled * pow10((scale - d.scale) as nat)
}

/// The larger of two scales.
pub open spec fn common_scale(a: DecimalView, b: DecimalView) -> int {
    if a.scale >= b.scale {
        a.scale
    } else {
        b.scale
    }
}

/// `a < b` as numbers: both are brought to the larger scale and their digits
/// compared.
pub open spec fn value_lt(a: DecimalView, b: DecimalView) -> bool {
    aligned(a, common_scale(a, b)) < aligned(b, common_scale(a, b))
}

/// `a <= b` as numbers.
pub open spec fn value_le(a: DecimalView, b: DecimalView) -> bool {
    !value_lt(b, a)
}

/// `a` and `b` are the same number, whatever their scales.
pub open spec fn value_eq(a: DecimalView, b: DecimalView) -> bool {
    !value_lt(a, b) && !value_lt(b, a)
}

/// Powers of ten are positive and multiply as their exponents add.
pub proof fn lemma_pow10_adds(a: nat, b: nat)
    ensures
        pow10(a + b) == pow10(a) * pow10(b),
        pow10(a) > 0,
    decreases a,
{
    if a == 0 {
        assert(pow10(0) * pow10(b) == pow10(b)) by (nonlinear_arith)
            requires
                pow10(0) == 1,
        ;
    } else {
        lemma_pow10_adds((a - 1) as nat, b);
        assert(pow10(a + b) == 10 * pow10((a + b - 1) as nat));
        assert(10 * (pow10((a - 1) as nat) * pow10(b)) == (10 * pow10((a - 1) as nat)) * pow10(b))
            by (nonlinear_arith);
    }
}

/// Comparing at any scale that is at least the common one gives the same
/// answer as comparing at the common scale.
pub proof fn lemma_value_lt_at(a: DecimalView, b: DecimalView, scale: int)
    requires
        scale >= a.scale,
        scale >= b.scale,
    ensures
        value_lt(a, b) <==> aligned(a, scale) < aligned(b, scale),
{
    let c = common_scale(a, b);
    let k = (scale - c) as nat;
    lemma_pow10_adds((c - a.scale) as nat, k);
    lemma_pow10_adds((c - b.scale) as nat, k);
    lemma_pow10_adds(k, 0);
    let x = aligned(a, c);
    let y = aligned(b, c);
    let p = pow10(k) as int;
    assert(aligned(a, scale) == x * p) by (nonlinear_arith)
        requires
            aligned(a, scale) == a.unscaled * (pow10((c - a.scale) as nat) * pow10(k)),
            x == a.unscaled * pow10((c - a.scale) as nat),
            p == pow10(k),
    ;
    assert(aligned(b, scale) == y * p) by (nonlinear_arith)
        requires
            aligned(b, scale) == b.unscaled * (pow10((c - b.scale) as nat) * pow10(k)),
            y == b.unscaled * pow10((c - b.scale) as nat),
            p == pow10(k),
    ;
    assert((x < y) <==> (x * p < y * p)) by (nonlinear_arith)
        requires
            p > 0,
    ;
}

/// `<=` on decimals is transitive.
pub proof fn lemma_value_le_transitive(a: DecimalView, b: DecimalView, c: DecimalView)
    requires
        value_le(a, b),
        value_le(b, c),
    ensures
        value_le(a, c),
{
    let s1 = common_scale(a, b);
    let s = if s1 >= c.scale {
        s1
    } else {
        c.scale
    };
    lemma_value_lt_at(b, a, s);
    lemma_value_lt_at(c, b, s);
    lemma_value_lt_at(c, a, s);
}

/// `a < b` and `b <= c` give `a < c`; so do `a <= b` and `b < c`.
pub proof fn lemma_value_lt_le_transitive(a: DecimalView, b: DecimalView, c: DecimalView)
    requires
        (value_lt(a, b) && value_le(b, c)) || (value_le(a, b) && value_lt(b, c)),
    ensures
        value_lt(a, c),
{
    let s1 = common_scale(a, b);
    let s = if s1 >= c.scale {
        s1
    } else {
        c.scale
    };
    lemma_value_lt_at(a, b, s);
    lemma_value_lt_at(b, a, s);
    lemma_value_lt_at(b, c, s);
    lemma_value_lt_at(c, b, s);
    lemma_value_lt_at(a, c, s);
}

/// The largest scale, in absolute value, that [`Decimal::checked_div`] accepts
/// in an operand.
pub const MAX_SCALE: i64 = 0x1000_0000_0000_0000;

/// The number of base-256 digits that a divisor's magnitude may need for
/// [`Decimal::checked_div`] to accept it.
pub const MAX_DIVISOR_DIGITS: usize = 4096;

/// Whether `dividend / divisor` is offered: the divisor is not zero and is
/// written in at most `MAX_DIVISOR_DIGITS` digits, and both scales lie within
/// `MAX_SCALE` of zero.
pub open spec fn can_divide(dividend: DecimalView, divisor: DecimalView) -> bool {
    &&& divisor.unscaled != 0
    &&& -pow256(MAX_DIVISOR_DIGITS as nat) < divisor.unscaled < pow256(MAX_DIVISOR_DIGITS as nat)
    &&& -MAX_SCALE <= dividend.scale <= MAX_SCALE
    &&& -MAX_SCALE <= divisor.scale <= MAX_SCALE
}

/// The digits and the scale of the quotient that `bigdecimal` computes for
/// `dividend / divisor`, each operand given by its digits and its scale. The
/// quotient is rounded to the working precision that the `bigdecimal` crate
/// was built with, so this library states no closed form for it.
pub uninterp spec fn decimal_quotient(
    dividend: int,
    dividend_scale: int,
    divisor: int,
    divisor_scale: int,
) -> (int, int);

/// The quotient `dividend / divisor` as a view.
pub open spec fn quotient_view(dividend: DecimalView, divisor: DecimalView) -> DecimalView {
    let q = decimal_quotient(dividend.unscaled, dividend.scale, divisor.unscaled, divisor.scale);
    DecimalView { unscaled: q.0, scale: q.1 }
}

/// An arbitrary-precision decimal number: the digits as an integer, and the
/// number of those digits that stand after the decimal point.
#[derive(Debug)]
pub struct Decimal {
    pub unscaled: BigInteger,
    pub scale: i64,
}

impl View for Decimal {
    type V = DecimalView;

    open spec fn view(&self) -> DecimalView {
        DecimalView { unscaled: self.unscaled@, scale: self.scale as int }
    }
}

impl Clone for Decimal {
    fn clone(&self) -> (r: Decimal)
        ensures
            r@ == self@,
    {
        Decimal { unscaled: self.unscaled.clone(), scale: self.scale }
    }
}

/// Compares with `bigdecimal`: both operands are rebuilt by `BigDecimal::new`
/// and compared with `BigDecimal`'s `<`, which orders decimals by the numbers
/// they stand for.
#[verifier::external_body]
fn decimal_less(a: &Decimal, b: &Decimal) -> (r: bool)
    ensures
        r == value_lt(a@, b@),
{
    let sa = if a.unscaled.negative { Sign::Minus } else { Sign::Plus };
    let sb = if b.unscaled.negative { Sign::Minus } else { Sign::Plus };
    let x = BigDecimal::new(BigInt::from_bytes_le(sa, &a.unscaled.magnitude), a.scale);
    let y = BigDecimal::new(BigInt::from_bytes_le(sb, &b.unscaled.magnitude), b.scale);
    x < y
}

/// Divides with `bigdecimal`: both operands are rebuilt by `BigDecimal::new`,
/// divided with `BigDecimal`'s `/`, and the quotient is split again by
/// `into_bigint_and_exponent`. The division panics on a zero divisor and adds
/// to the scale once for each digit it produces, so the contract leaves out
/// a zero divisor and operands whose scale or size could carry the quotient's
/// scale out of an `i64`. It claims only that the quotient is the one named
/// by [`decimal_quotient`].
#[verifier::external_body]
fn decimal_divide(dividend: &Decimal, divisor: &Decimal) -> (r: Decimal)
    requires
        can_divide(dividend@, divisor@),
    ensures
        (r@.unscaled, r@.scale) == decimal_quotient(
            dividend@.unscaled,
            dividend@.scale,
            divisor@.unscaled,
            divisor@.scale,
        ),
{
    let sa = if dividend.unscaled.negative { Sign::Minus } else { Sign::Plus };
    let sb = if divisor.unscaled.negative { Sign::Minus } else { Sign::Plus };
    let x = BigDecimal::new(BigInt::from_bytes_le(sa, &dividend.unscaled.magnitude), dividend.scale);
    let y = BigDecimal::new(BigInt::from_bytes_le(sb, &divisor.unscaled.magnitude), divisor.scale);
    let (digits, scale) = (x / y).into_bigint_and_exponent();
    let (sign, magnitude) = digits.to_bytes_le();
    let negative = match sign {
        Sign::Minus => true,
        Sign::NoSign => false,
        Sign::Plus => false,
    };
    Decimal { unscaled: BigInteger { negative, magnitude }, scale }
}

/// Multiplies a whole number by minus one with `bigdecimal`: the operand is
/// rebuilt by `BigDecimal::new` with scale zero, multiplied with `-1 * ..`,
/// and the product is split again. For an operand of scale zero the crate
/// negates the digits and keeps the scale.
#[verifier::external_body]
fn decimal_times_minus_one(whole: &Decimal) -> (r: Decimal)
    requires
        whole.scale == 0,
    ensures
        r@ == (DecimalView { unscaled: -whole@.unscaled, scale: 0 }),
{
    let s = if whole.unscaled.negative { Sign::Minus } else { Sign::Plus };
    let x = BigDecimal::new(BigInt::from_bytes_le(s, &whole.unscaled.magnitude), whole.scale);
    let (digits, scale) = (-1i32 * x).into_bigint_and_exponent();
    let (sign, magnitude) = digits.to_bytes_le();
    let negative = match sign {
        Sign::Minus => true,
        Sign::NoSign => false,
        Sign::Plus => false,
    };
    Decimal { unscaled: BigInteger { negative, magnitude }, scale }
}

impl Decimal {
    /// The whole number `digits`.
    pub fn from_integer(digits: BigInteger) -> (r: Decimal)
        ensures
            r@ == (DecimalView { unscaled: digits@, scale: 0 }),
            r.unscaled == digits,
    {
        Decimal { unscaled: digits, scale: 0 }
    }

    /// The whole number `value`.
    pub fn from_u128(value: u128) -> (r: Decimal)
        ensures
            r@ == (DecimalView { unscaled: value as int, scale: 0 }),
    {
        Decimal { unscaled: BigInteger::from_u128(value), scale: 0 }
    }

    /// Zero, with scale zero.
    pub fn zero() -> (r: Decimal)
        ensures
            r@ == (DecimalView { unscaled: 0, scale: 0 }),
    {
        Decimal { unscaled: BigInteger::zero(), scale: 0 }
    }

    /// One, with scale zero.
    pub fn one() -> (r: Decimal)
        ensures
            r@ == (DecimalView { unscaled: 1, scale: 0 }),
    {
        Decimal::from_u128(1)
    }

    /// Whether the number is zero.
    pub fn is_zero(&self) -> (r: bool)
        ensures
            r == (self@.unscaled == 0),
    {
        self.unscaled.is_zero()
    }

    /// Whether `self < other` as numbers.
    pub fn lt(&self, other: &Decimal) -> (r: bool)
        ensures
            r == value_lt(self@, other@),
    {
        decimal_less(self, other)
    }

    /// Whether `self > other` as numbers.
    pub fn gt(&self, other: &Decimal) -> (r: bool)
        ensures
            r == value_lt(other@, self@),
    {
        decimal_less(other, self)
    }

    /// Whether `self <= other` as numbers.
    pub fn le(&self, other: &Decimal) -> (r: bool)
        ensures
            r == value_le(self@, other@),
    {
        !decimal_less(other, self)
    }

    /// Whether `self` and `other` are the same number.
    pub fn same_value(&self, other: &Decimal) -> (r: bool)
        ensures
            r == value_eq(self@, other@),
    {
        !decimal_less(self, other) && !decimal_less(other, self)
    }

    /// Whether the number lies above zero.
    pub fn is_positive(&self) -> (r: bool)
        ensures
            r == (self@.unscaled > 0),
    {
        self.unscaled.is_positive()
    }

    /// Whether [`Decimal::checked_div`] accepts `self` as dividend and
    /// `divisor` as divisor.
    pub fn divides_by(&self, divisor: &Decimal) -> (r: bool)
        ensures
            r == can_divide(self@, divisor@),
    {
        if divisor.unscaled.is_zero() {
            return false;
        }
        if self.scale < -MAX_SCALE || self.scale > MAX_SCALE {
            return false;
        }
        if divisor.scale < -MAX_SCALE || divisor.scale > MAX_SCALE {
            return false;
        }
        let n = divisor.unscaled.significant_len();
        proof {
            if n <= MAX_DIVISOR_DIGITS {
                lemma_pow256_monotonic(n as nat, MAX_DIVISOR_DIGITS as nat);
            } else {
                lemma_pow256_monotonic(MAX_DIVISOR_DIGITS as nat, (n - 1) as nat);
            }
        }
        n <= MAX_DIVISOR_DIGITS
    }

    /// The quotient `self / divisor`, for operands that [`can_divide`] admits.
    pub fn div(&self, divisor: &Decimal) -> (r: Decimal)
        requires
            can_divide(self@, divisor@),
        ensures
            r@ == quotient_view(self@, divisor@),
    {
        decimal_divide(self, divisor)
    }

    /// The quotient `self / divisor` where it is offered (see [`can_divide`]),
    /// and nothing where it is not.
    pub fn checked_div(&self, divisor: &Decimal) -> (r: Option<Decimal>)
        ensures
            r.is_some() == can_divide(self@, divisor@),
            r.is_some() ==> r.unwrap()@ == quotient_view(self@, divisor@),
    {
        if self.divides_by(divisor) {
            Some(self.div(divisor))
        } else {
            None
        }
    }

    /// The whole number `self` with its sign turned.
    pub fn negated_whole(&self) -> (r: Decimal)
        requires
            self.scale == 0,
        ensures
            r@ == (DecimalView { unscaled: -self@.unscaled, scale: 0 }),
    {
        decimal_times_minus_one(self)
    }
}

} // verus!

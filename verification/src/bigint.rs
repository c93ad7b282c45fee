use bigdecimal::num_bigint::{BigInt, Sign};
use vstd::prelude::*;

verus! {

/// The natural number that a little-endian string of base-256 digits writes.
pub open spec fn le_value(bytes: Seq<u8>) -> nat
    decreases bytes.len(),
{
    if bytes.len() == 0 {
        0
    } else {
        (bytes[0] as nat) + 256 * le_value(bytes.drop_first())
    }
}

/// 256 to the power `n`: the first value that `n` base-256 digits cannot write.
pub open spec fn pow256(n: nat) -> nat
    decreases n,
{
    if n == 0 {
        1
    } else {
        256 * pow256((n - 1) as nat)
    }
}

/// The integer that a sign flag and a magnitude stand for.
pub open spec fn signed_value(negative: bool, magnitude: Seq<u8>) -> int {
    if negative {
        -(le_value(magnitude) as int)
    } else {
        le_value(magnitude) as int
    }
}

/// Appending one digit on the high side adds that digit times `256^len`.
pub proof fn lemma_le_value_push(bytes: Seq<u8>, high: u8)
    ensures
        le_value(bytes.push(high)) == le_value(bytes) + (high as nat) * pow256(bytes.len()),
    decreases bytes.len(),
{
    if bytes.len() == 0 {
        assert(bytes.push(high).drop_first() =~= Seq::<u8>::empty());
        assert(le_value(bytes.push(high).drop_first()) == 0);
        assert((high as nat) * pow256(0) == high as nat) by (nonlinear_arith)
            requires
                pow256(0) == 1,
        ;
    } else {
        let rest = bytes.drop_first();
        lemma_le_value_push(rest, high);
        assert(bytes.push(high).drop_first() =~= rest.push(high));
        assert(bytes.push(high)[0] == bytes[0]);
        assert(256 * ((high as nat) * pow256(rest.len())) == (high as nat) * pow256(bytes.len()))
            by (nonlinear_arith)
            requires
                pow256(bytes.len()) == 256 * pow256(rest.len()),
        ;
    }
}

/// `n` digits write a value below `256^n`.
pub proof fn lemma_le_value_bound(bytes: Seq<u8>)
    ensures
        le_value(bytes) < pow256(bytes.len()),
    decreases bytes.len(),
{
    if bytes.len() > 0 {
        lemma_le_value_bound(bytes.drop_first());
    }
}

/// A string of zero digits writes zero, and only such a string does.
pub proof fn lemma_le_value_zero(bytes: Seq<u8>)
    ensures
        le_value(bytes) == 0 <==> (forall|i: int| 0 <= i < bytes.len() ==> bytes[i] == 0),
    decreases bytes.len(),
{
    if bytes.len() > 0 {
        let rest = bytes.drop_first();
        lemma_le_value_zero(rest);
        if le_value(bytes) == 0 {
            assert forall|i: int| 0 <= i < bytes.len() implies bytes[i] == 0 by {
                if i > 0 {
                    assert(bytes[i] == rest[i - 1]);
                }
            }
        } else {
            if bytes[0] == 0 {
                let j = choose|j: int| 0 <= j < rest.len() && rest[j] != 0;
                assert(bytes[j + 1] == rest[j]);
            }
        }
    }
}

/// `256^n` grows with `n`.
pub proof fn lemma_pow256_monotonic(a: nat, b: nat)
    requires
        a <= b,
    ensures
        pow256(a) <= pow256(b),
        pow256(a) >= 1,
    decreases b,
{
    if a < b {
        lemma_pow256_monotonic(a, (b - 1) as nat);
    } else if a > 0 {
        lemma_pow256_monotonic((a - 1) as nat, (a - 1) as nat);
    }
}

/// An arbitrary-precision integer, held as a sign flag and the base-256 digits
/// of its magnitude, least significant first. Zero may carry either flag, and
/// high zero digits do not change the value.
#[derive(Debug)]
pub struct BigInteger {
    pub negative: bool,
    pub magnitude: Vec<u8>,
}

impl View for BigInteger {
    type V = int;

    open spec fn view(&self) -> int {
        signed_value(self.negative, self.magnitude@)
    }
}

impl Clone for BigInteger {
    fn clone(&self) -> (r: BigInteger)
        ensures
            r.negative == self.negative,
            r.magnitude@ == self.magnitude@,
            r@ == self@,
    {
        let magnitude = self.magnitude.clone();
        assert(magnitude@ =~= self.magnitude@);
        BigInteger { negative: self.negative, magnitude }
    }
}

/// Subtracts with `num_bigint`: both operands are rebuilt by
/// `BigInt::from_bytes_le`, subtracted with `BigInt`'s `-`, and the difference
/// is split again by `BigInt::to_bytes_le`. The contract claims that the result
/// stands for the mathematical difference.
#[verifier::external_body]
fn bigint_difference(minuend: &BigInteger, subtrahend: &BigInteger) -> (r: BigInteger)
    ensures
        r@ == minuend@ - subtrahend@,
{
    let a = BigInt::from_bytes_le(
        if minuend.negative { Sign::Minus } else { Sign::Plus },
        &minuend.magnitude,
    );
    let b = BigInt::from_bytes_le(
        if subtrahend.negative { Sign::Minus } else { Sign::Plus },
        &subtrahend.magnitude,
    );
    let (sign, magnitude) = (a - b).to_bytes_le();
    let negative = match sign {
        Sign::Minus => true,
        Sign::NoSign => false,
        Sign::Plus => false,
    };
    BigInteger { negative, magnitude }
}

impl BigInteger {
    /// Zero, written with no digits.
    pub fn zero() -> (r: BigInteger)
        ensures
            r@ == 0,
            !r.negative,
            r.magnitude@.len() == 0,
    {
        BigInteger { negative: false, magnitude: Vec::new() }
    }

    /// The non-negative integer that `bytes` writes, least significant digit
    /// first.
    pub fn from_le_bytes(bytes: &[u8]) -> (r: BigInteger)
        ensures
            r@ == le_value(bytes@),
            !r.negative,
            r.magnitude@ == bytes@,
    {
        let mut magnitude: Vec<u8> = Vec::new();
        let mut i: usize = 0;
        while i < bytes.len()
            invariant
                i <= bytes.len(),
                magnitude@ == bytes@.take(i as int),
            decreases bytes.len() - i,
        {
            magnitude.push(bytes[i]);
            assert(bytes@.take(i as int).push(bytes@[i as int]) =~= bytes@.take(i + 1));
            i += 1;
        }
        assert(bytes@.take(bytes@.len() as int) =~= bytes@);
        BigInteger { negative: false, magnitude }
    }

    /// The integer `value`, in sixteen digits.
    pub fn from_u128(value: u128) -> (r: BigInteger)
        ensures
            r@ == value,
            !r.negative,
            r.magnitude@.len() == 16,
    {
        let mut magnitude: Vec<u8> = Vec::new();
        let mut rest: u128 = value;
        let mut i: usize = 0;
        proof {
            assert(rest * pow256(0) == rest) by (nonlinear_arith)
                requires
                    pow256(0) == 1,
            ;
        }
        while i < 16
            invariant
                i <= 16,
                magnitude@.len() == i,
                value == le_value(magnitude@) + rest * pow256(i as nat),
                rest * pow256(i as nat) <= u128::MAX,
            decreases 16 - i,
        {
            let digit: u8 = (rest % 256) as u8;
            proof {
                lemma_le_value_push(magnitude@, digit);
                assert(rest * pow256(i as nat) == (digit as nat) * pow256(i as nat) + (rest / 256)
                    * pow256((i + 1) as nat)) by (nonlinear_arith)
                    requires
                        digit == rest % 256,
                        pow256((i + 1) as nat) == 256 * pow256(i as nat),
                ;
                assert((rest / 256) * pow256((i + 1) as nat) <= u128::MAX) by (nonlinear_arith)
                    requires
                        rest * pow256(i as nat) == (digit as nat) * pow256(i as nat) + (rest / 256)
                            * pow256((i + 1) as nat),
                        rest * pow256(i as nat) <= u128::MAX,
                        pow256(i as nat) >= 0,
                        digit >= 0,
                ;
            }
            magnitude.push(digit);
            rest = rest / 256;
            i += 1;
        }
        proof {
            assert(pow256(16) == 0x1_0000_0000_0000_0000_0000_0000_0000_0000) by {
                reveal_with_fuel(pow256, 17);
            }
            assert(rest == 0) by (nonlinear_arith)
                requires
                    rest * 0x1_0000_0000_0000_0000_0000_0000_0000_0000 <= u128::MAX,
                    rest >= 0,
            ;
        }
        BigInteger { negative: false, magnitude }
    }

    /// Whether the value is zero.
    pub fn is_zero(&self) -> (r: bool)
        ensures
            r == (self@ == 0),
    {
        let mut i: usize = 0;
        while i < self.magnitude.len()
            invariant
                i <= self.magnitude.len(),
                forall|j: int| 0 <= j < i ==> self.magnitude@[j] == 0,
            decreases self.magnitude.len() - i,
        {
            if self.magnitude[i] != 0 {
                proof {
                    lemma_le_value_zero(self.magnitude@);
                }
                return false;
            }
            i += 1;
        }
        proof {
            lemma_le_value_zero(self.magnitude@);
        }
        true
    }

    /// Whether the value lies above zero.
    pub fn is_positive(&self) -> (r: bool)
        ensures
            r == (self@ > 0),
    {
        !self.negative && !self.is_zero()
    }

    /// Whether the value lies below zero.
    pub fn is_negative(&self) -> (r: bool)
        ensures
            r == (self@ < 0),
    {
        self.negative && !self.is_zero()
    }

    /// The difference `self - other`.
    pub fn sub(&self, other: &BigInteger) -> (r: BigInteger)
        ensures
            r@ == self@ - other@,
    {
        bigint_difference(self, other)
    }

    /// The number of digits up to and including the highest one that is not
    /// zero; no digits for zero.
    pub fn significant_len(&self) -> (n: usize)
        ensures
            n <= self.magnitude@.len(),
            le_value(self.magnitude@) < pow256(n as nat),
            n > 0 ==> le_value(self.magnitude@) >= pow256((n - 1) as nat),
    {
        let mut n: usize = self.magnitude.len();
        proof {
            lemma_le_value_bound(self.magnitude@);
            assert(self.magnitude@.take(n as int) =~= self.magnitude@);
        }
        while n > 0 && self.magnitude[n - 1] == 0
            invariant
                n <= self.magnitude@.len(),
                le_value(self.magnitude@) == le_value(self.magnitude@.take(n as int)),
            decreases n,
        {
            proof {
                let shorter = self.magnitude@.take(n - 1);
                lemma_le_value_push(shorter, 0);
                assert(shorter.push(0) =~= self.magnitude@.take(n as int));
            }
            n -= 1;
        }
        proof {
            let kept = self.magnitude@.take(n as int);
            lemma_le_value_bound(kept);
            if n > 0 {
                let shorter = self.magnitude@.take(n - 1);
                lemma_le_value_push(shorter, kept[n - 1]);
                assert(shorter.push(kept[n - 1]) =~= kept);
                assert((kept[n - 1] as nat) * pow256((n - 1) as nat) >= pow256((n - 1) as nat))
                    by (nonlinear_arith)
                    requires
                        kept[n - 1] >= 1,
                ;
            }
        }
        n
    }
}

} // verus!

use crate::bigint::{le_value, lemma_le_value_bound, pow256, BigInteger};
use crate::decimal::{Decimal, DecimalView};
use vstd::prelude::*;

verus! {

/// An unsigned integer of 256 bits, as the chain's contracts count amounts:
/// thirty-two base-256 digits, least significant first.
#[derive(Clone, Copy, Debug)]
pub struct U256 {
    pub le_bytes: [u8; 32],
}

impl View for U256 {
    type V = nat;

    open spec fn view(&self) -> nat {
        le_value(self.le_bytes@)
    }
}

impl U256 {
    /// Zero.
    pub fn zero() -> (r: U256)
        ensures
            r@ == 0,
    {
        let r = U256 { le_bytes: [0u8; 32] };
        proof {
            crate::bigint::lemma_le_value_zero(r.le_bytes@);
        }
        r
    }

    /// The integer `value`.
    pub fn from_u128(value: u128) -> (r: U256)
        ensures
            r@ == value,
    {
        let low = BigInteger::from_u128(value);
        let mut le_bytes = [0u8; 32];
        let mut i: usize = 0;
        while i < 16
            invariant
                i <= 16,
                low.magnitude@.len() == 16,
                forall|j: int| 0 <= j < i ==> le_bytes@[j] == low.magnitude@[j],
                forall|j: int| i <= j < 32 ==> le_bytes@[j] == 0,
            decreases 16 - i,
        {
            le_bytes[i] = low.magnitude[i];
            i += 1;
        }
        proof {
            lemma_le_value_high_zeros(le_bytes@, 16);
            assert(le_bytes@.take(16) =~= low.magnitude@);
        }
        U256 { le_bytes }
    }

    /// Every 256-bit integer lies below `256^32`.
    pub proof fn lemma_bound(self)
        ensures
            self@ < pow256(32),
    {
        lemma_le_value_bound(self.le_bytes@);
    }
}

/// Zero digits above the first `n` do not change the value.
pub proof fn lemma_le_value_high_zeros(bytes: Seq<u8>, n: int)
    requires
        0 <= n <= bytes.len(),
        forall|j: int| n <= j < bytes.len() ==> bytes[j] == 0,
    ensures
        le_value(bytes) == le_value(bytes.take(n)),
    decreases bytes.len() - n,
{
    if n < bytes.len() {
        let shorter = bytes.take(bytes.len() - 1);
        crate::bigint::lemma_le_value_push(shorter, 0);
        assert(shorter.push(0) =~= bytes);
        lemma_le_value_high_zeros(shorter, n);
        assert(shorter.take(n) =~= bytes.take(n));
    } else {
        assert(bytes.take(n) =~= bytes);
    }
}

/// The integer behind an on-chain amount.
pub fn to_bigint(i: &U256) -> (r: BigInteger)
    ensures
        r@ == i@,
        !r.negative,
{
    BigInteger::from_le_bytes(i.le_bytes.as_slice())
}

/// An on-chain amount as a decimal with nothing after the point.
pub fn int_to_decimal(i: &U256) -> (r: Decimal)
    ensures
        r@ == (DecimalView { unscaled: i@ as int, scale: 0 }),
{
    Decimal::from_integer(to_bigint(i))
}

} // verus!

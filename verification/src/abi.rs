use crate::address::Address;
use crate::bigint::le_value;
use crate::uint::U256;
use vstd::prelude::*;

verus! {

/// The `index`-th 32-byte word of `data`.
pub open spec fn word_at(data: Seq<u8>, index: int) -> Seq<u8> {
    data.subrange(32 * index, 32 * index + 32)
}

/// The natural number that a big-endian string of base-256 digits writes.
pub open spec fn be_value(bytes: Seq<u8>) -> nat
    decreases bytes.len(),
{
    if bytes.len() == 0 {
        0
    } else {
        256 * be_value(bytes.drop_last()) + (bytes.last() as nat)
    }
}

/// The word that holds the 32-bit integer `x`: twenty-eight zero bytes, then
/// the four bytes of `x`, highest first.
pub open spec fn word_of_u32(x: u32) -> Seq<u8> {
    Seq::new(28, |i: int| 0u8) + seq![
        (x / 0x100_0000) as u8,
        (x / 0x1_0000 % 0x100) as u8,
        (x / 0x100 % 0x100) as u8,
        (x % 0x100) as u8,
    ]
}

/// The 32-bit integer in the low four bytes of a word.
pub open spec fn u32_of_word(word: Seq<u8>) -> u32 {
    (word[28] * 0x100_0000 + word[29] * 0x1_0000 + word[30] * 0x100 + word[31]) as u32
}

/// The word that holds an address: twelve zero bytes, then the address.
pub open spec fn word_of_address(address: Address) -> Seq<u8> {
    Seq::new(12, |i: int| 0u8) + address.bytes@
}

/// The address in the low twenty bytes of a word.
pub open spec fn address_of_word(word: Seq<u8>) -> Seq<u8> {
    word.subrange(12, 32)
}

/// A 32-bit integer is made of its four bytes.
pub proof fn lemma_u32_bytes(x: u32)
    ensures
        x / 0x100_0000 < 0x100,
        (x / 0x100_0000) * 0x100_0000 + (x / 0x1_0000 % 0x100) * 0x1_0000 + (x / 0x100 % 0x100)
            * 0x100 + x % 0x100 == x,
{
    assert(x / 0x100_0000 < 0x100) by (bit_vector);
    assert((x / 0x100_0000) * 0x100_0000 + (x / 0x1_0000 % 0x100) * 0x1_0000 + (x / 0x100 % 0x100)
        * 0x100 + x % 0x100 == x) by (bit_vector);
}

/// Reading back the word of a 32-bit integer gives the integer.
pub proof fn lemma_u32_word_round_trip(x: u32)
    ensures
        word_of_u32(x).len() == 32,
        u32_of_word(word_of_u32(x)) == x,
{
    lemma_u32_bytes(x);
    let w = word_of_u32(x);
    let a = (x / 0x100_0000) as u8;
    let b = (x / 0x1_0000 % 0x100) as u8;
    let c = (x / 0x100 % 0x100) as u8;
    let d = (x % 0x100) as u8;
    assert(w[28] == a);
    assert(w[29] == b);
    assert(w[30] == c);
    assert(w[31] == d);
    assert(a as int == x / 0x100_0000);
    assert(b as int == x / 0x1_0000 % 0x100);
    assert(c as int == x / 0x100 % 0x100);
    assert(d as int == x % 0x100);
}

/// Reading back the word of an address gives the address.
pub proof fn lemma_address_word_round_trip(address: Address)
    ensures
        word_of_address(address).len() == 32,
        address_of_word(word_of_address(address)) == address.bytes@,
{
    assert(address_of_word(word_of_address(address)) =~= address.bytes@);
}

/// Appends the word of `x` to `out`.
pub fn push_u32_word(out: &mut Vec<u8>, x: u32)
    ensures
        final(out)@ == old(out)@ + word_of_u32(x),
{
    let ghost start = out@;
    let mut i: usize = 0;
    while i < 28
        invariant
            i <= 28,
            out@ == start + Seq::new(i as nat, |k: int| 0u8),
        decreases 28 - i,
    {
        out.push(0u8);
        assert(out@ =~= start + Seq::new((i + 1) as nat, |k: int| 0u8));
        i += 1;
    }
    out.push((x / 0x100_0000) as u8);
    out.push((x / 0x1_0000 % 0x100) as u8);
    out.push((x / 0x100 % 0x100) as u8);
    out.push((x % 0x100) as u8);
    assert(out@ =~= start + word_of_u32(x));
}

/// Appends the word of `address` to `out`.
pub fn push_address_word(out: &mut Vec<u8>, address: &Address)
    ensures
        final(out)@ == old(out)@ + word_of_address(*address),
{
    let ghost start = out@;
    let mut i: usize = 0;
    while i < 12
        invariant
            i <= 12,
            out@ == start + Seq::new(i as nat, |k: int| 0u8),
        decreases 12 - i,
    {
        out.push(0u8);
        assert(out@ =~= start + Seq::new((i + 1) as nat, |k: int| 0u8));
        i += 1;
    }
    let ghost zeros = out@;
    i = 0;
    while i < 20
        invariant
            i <= 20,
            zeros == start + Seq::new(12, |k: int| 0u8),
            out@ == zeros + address.bytes@.take(i as int),
        decreases 20 - i,
    {
        out.push(address.bytes[i]);
        assert(out@ =~= zeros + address.bytes@.take(i + 1));
        i += 1;
    }
    assert(address.bytes@.take(20) =~= address.bytes@);
    assert(out@ =~= start + word_of_address(*address));
}

/// Whether `data` holds at least `words` words.
pub fn has_words(data: &Vec<u8>, words: usize) -> (r: bool)
    requires
        words <= 8,
    ensures
        r == (data@.len() >= 32 * words),
{
    data.len() >= 32 * words
}

/// The 32-bit integer in the low four bytes of the `index`-th word of
/// `data`; the higher bytes of the word are not looked at.
pub fn read_u32(data: &Vec<u8>, index: usize) -> (r: u32)
    requires
        index < 8,
        data@.len() >= 32 * (index + 1),
    ensures
        r == u32_of_word(word_at(data@, index as int)),
{
    let at = 32 * index;
    let b0 = data[at + 28] as u32;
    let b1 = data[at + 29] as u32;
    let b2 = data[at + 30] as u32;
    let b3 = data[at + 31] as u32;
    b0 * 0x100_0000 + b1 * 0x1_0000 + b2 * 0x100 + b3
}

/// The address in the low twenty bytes of the `index`-th word of `data`.
pub fn read_address(data: &Vec<u8>, index: usize) -> (r: Address)
    requires
        index < 8,
        data@.len() >= 32 * (index + 1),
    ensures
        r.bytes@ == address_of_word(word_at(data@, index as int)),
{
    let at = 32 * index + 12;
    let mut bytes = [0u8; 20];
    let mut i: usize = 0;
    while i < 20
        invariant
            i <= 20,
            at == 32 * index + 12,
            index < 8,
            data@.len() >= 32 * (index + 1),
            forall|j: int| 0 <= j < i ==> bytes@[j] == data@[at + j],
        decreases 20 - i,
    {
        bytes[i] = data[at + i];
        i += 1;
    }
    assert(bytes@ =~= address_of_word(word_at(data@, index as int)));
    Address { bytes }
}

/// The 256-bit integer that the `index`-th word of `data` holds, highest
/// byte first.
pub fn read_u256(data: &Vec<u8>, index: usize) -> (r: U256)
    requires
        index < 8,
        data@.len() >= 32 * (index + 1),
    ensures
        r.le_bytes@ == word_at(data@, index as int).reverse(),
        r@ == be_value(word_at(data@, index as int)),
{
    let at = 32 * index;
    let mut le_bytes = [0u8; 32];
    let mut i: usize = 0;
    while i < 32
        invariant
            i <= 32,
            at == 32 * index,
            index < 8,
            data@.len() >= 32 * (index + 1),
            forall|j: int| 0 <= j < i ==> le_bytes@[j] == data@[at + 31 - j],
        decreases 32 - i,
    {
        le_bytes[i] = data[at + 31 - i];
        i += 1;
    }
    proof {
        assert(le_bytes@ =~= word_at(data@, index as int).reverse());
        lemma_reverse_value(word_at(data@, index as int));
    }
    U256 { le_bytes }
}

/// The integer in the low fourteen bytes of the `index`-th word of `data`,
/// which is where a 112-bit integer stands.
pub fn read_u112(data: &Vec<u8>, index: usize) -> (r: u128)
    requires
        index < 8,
        data@.len() >= 32 * (index + 1),
    ensures
        r == be_value(word_at(data@, index as int).subrange(18, 32)),
{
    let at = 32 * index + 18;
    let ghost low = word_at(data@, index as int).subrange(18, 32);
    let mut value: u128 = 0;
    let mut i: usize = 0;
    while i < 14
        invariant
            i <= 14,
            at == 32 * index + 18,
            index < 8,
            data@.len() >= 32 * (index + 1),
            low == word_at(data@, index as int).subrange(18, 32),
            value == be_value(low.take(i as int)),
            value < crate::bigint::pow256(i as nat),
        decreases 14 - i,
    {
        proof {
            assert(low.take(i + 1).drop_last() =~= low.take(i as int));
            assert(low.take(i + 1).last() == data@[at + i]);
            crate::bigint::lemma_pow256_monotonic((i + 1) as nat, 14);
            assert(crate::bigint::pow256(14) == 0x1_0000_0000_0000_0000_0000_0000_0000) by {
                reveal_with_fuel(crate::bigint::pow256, 15);
            }
        }
        value = value * 256 + data[at + i] as u128;
        i += 1;
    }
    assert(low.take(14) =~= low);
    value
}

/// A word read as a 256-bit integer has the value that its bytes write,
/// highest first.
pub proof fn lemma_reverse_value(word: Seq<u8>)
    ensures
        le_value(word.reverse()) == be_value(word),
    decreases word.len(),
{
    if word.len() > 0 {
        lemma_reverse_value(word.drop_last());
        assert(word.reverse().drop_first() =~= word.drop_last().reverse());
        assert(word.reverse()[0] == word.last());
    }
}

} // verus!

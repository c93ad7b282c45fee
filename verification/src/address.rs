use std::str::FromStr;
use vstd::prelude::*;
use vstd::std_specs::cmp::PartialEqSpecImpl;

verus! {

/// The sixteen lower-case hexadecimal digits, by value.
pub open spec fn hex_digits() -> Seq<char> {
    seq!['0', '1', '2', '3', '4', '5', '6', '7', '8', '9', 'a', 'b', 'c', 'd', 'e', 'f']
}

/// The lower-case hexadecimal text of `bytes`: two digits for each byte, the
/// high half first.
pub open spec fn hex_lower(bytes: Seq<u8>) -> Seq<char> {
    Seq::new(
        2 * bytes.len(),
        |i: int|
            if i % 2 == 0 {
                hex_digits()[(bytes[i / 2] / 16) as int]
            } else {
                hex_digits()[(bytes[i / 2] % 16) as int]
            },
    )
}

/// The value of a hexadecimal digit of either case; nothing for any other
/// character.
pub open spec fn hex_value(c: char) -> Option<int> {
    if '0' <= c <= '9' {
        Some(c as int - '0' as int)
    } else if 'a' <= c <= 'f' {
        Some(c as int - 'a' as int + 10)
    } else if 'A' <= c <= 'F' {
        Some(c as int - 'A' as int + 10)
    } else {
        None
    }
}

/// `text` without a leading `0x`.
pub open spec fn without_hex_prefix(text: Seq<char>) -> Seq<char> {
    if text.len() >= 2 && text[0] == '0' && text[1] == 'x' {
        text.skip(2)
    } else {
        text
    }
}

/// The twenty bytes that `text` writes as an address: forty hexadecimal digits
/// of either case, after an optional `0x`. Nothing for any other text.
pub open spec fn parsed_address(text: Seq<char>) -> Option<Seq<u8>> {
    let digits = without_hex_prefix(text);
    if digits.len() == 40 && (forall|i: int| 0 <= i < 40 ==> hex_value(#[trigger] digits[i]).is_some()) {
        Some(
            Seq::new(
                20,
                |i: int|
                    (16 * hex_value(digits[2 * i]).unwrap() + hex_value(
                        digits[2 * i + 1],
                    ).unwrap()) as u8,
            ),
        )
    } else {
        None
    }
}

/// The text that `alloy_primitives` prints for the address with these twenty
/// bytes: `0x` and forty hexadecimal digits whose letters carry a checksum in
/// their case, which takes a Keccak-256 digest to compute.
pub uninterp spec fn address_checksum(bytes: Seq<u8>) -> Seq<char>;

/// The address of an account or a contract: twenty bytes.
#[derive(Clone, Copy, Debug, Eq, Hash)]
pub struct Address {
    pub bytes: [u8; 20],
}

impl PartialEq for Address {
    fn eq(&self, other: &Address) -> (r: bool) {
        let mut i: usize = 0;
        while i < 20
            invariant
                i <= 20,
                forall|j: int| 0 <= j < i ==> self.bytes@[j] == other.bytes@[j],
            decreases 20 - i,
        {
            if self.bytes[i] != other.bytes[i] {
                return false;
            }
            i += 1;
        }
        assert(self.bytes@ =~= other.bytes@);
        assert(self.bytes =~= other.bytes);
        true
    }
}

impl PartialEqSpecImpl for Address {
    open spec fn obeys_eq_spec() -> bool {
        true
    }

    open spec fn eq_spec(&self, other: &Address) -> bool {
        *self == *other
    }
}

/// A word of thirty-two bytes: a transaction hash, or the hash that names a
/// kind of event.
#[derive(Clone, Copy, Debug, Eq, Hash)]
pub struct B256 {
    pub bytes: [u8; 32],
}

impl PartialEq for B256 {
    fn eq(&self, other: &B256) -> (r: bool) {
        let mut i: usize = 0;
        while i < 32
            invariant
                i <= 32,
                forall|j: int| 0 <= j < i ==> self.bytes@[j] == other.bytes@[j],
            decreases 32 - i,
        {
            if self.bytes[i] != other.bytes[i] {
                return false;
            }
            i += 1;
        }
        assert(self.bytes@ =~= other.bytes@);
        assert(self.bytes =~= other.bytes);
        true
    }
}

impl PartialEqSpecImpl for B256 {
    open spec fn obeys_eq_spec() -> bool {
        true
    }

    open spec fn eq_spec(&self, other: &B256) -> bool {
        *self == *other
    }
}

/// Writes bytes as hexadecimal text with `alloy_primitives::hex::encode`, which
/// gives two lower-case digits for each byte and no prefix.
#[verifier::external_body]
pub(crate) fn hex_encode(bytes: &[u8]) -> (r: String)
    ensures
        r@ == hex_lower(bytes@),
{
    alloy_primitives::hex::encode(bytes)
}

/// Reads an address with `alloy_primitives::Address::from_str`, which takes
/// forty hexadecimal digits of either case after an optional `0x` and fails
/// on anything else.
#[verifier::external_body]
fn address_from_text(text: &str) -> (r: Option<Address>)
    ensures
        match r {
            Some(address) => parsed_address(text@) == Some(address.bytes@),
            None => parsed_address(text@).is_none(),
        },
{
    match alloy_primitives::Address::from_str(text) {
        Ok(address) => Some(Address { bytes: address.into_array() }),
        Err(_) => None,
    }
}

/// Prints an address with `alloy_primitives::Address`'s `to_string`, which
/// writes the checksummed form.
#[verifier::external_body]
fn address_to_text(address: &Address) -> (r: String)
    ensures
        r@ == address_checksum(address.bytes@),
{
    alloy_primitives::Address::from(address.bytes).to_string()
}

/// Prints a word with `alloy_primitives::B256`'s `to_string`, which writes `0x`
/// and the sixty-four lower-case hexadecimal digits of the word.
#[verifier::external_body]
fn word_to_text(word: &B256) -> (r: String)
    ensures
        r@ == seq!['0', 'x'] + hex_lower(word.bytes@),
{
    alloy_primitives::B256::from(word.bytes).to_string()
}

impl Address {
    /// The address that `text` writes, if it writes one.
    pub fn parse(text: &str) -> (r: Option<Address>)
        ensures
            match r {
                Some(address) => parsed_address(text@) == Some(address.bytes@),
                None => parsed_address(text@).is_none(),
            },
    {
        address_from_text(text)
    }

    /// The checksummed text of the address.
    pub fn to_string(&self) -> (r: String)
        ensures
            r@ == address_checksum(self.bytes@),
    {
        address_to_text(self)
    }
}

impl B256 {
    /// The word in hexadecimal, after `0x`.
    pub fn to_string(&self) -> (r: String)
        ensures
            r@ == seq!['0', 'x'] + hex_lower(self.bytes@),
    {
        word_to_text(self)
    }
}

} // verus!

use crate::abi::{push_address_word, word_of_address};
use crate::address::Address;
use vstd::prelude::*;

verus! {

/// The call that asks the factory for the pair of two tokens.
pub fn get_pair_calldata(token_a: Address, token_b: Address) -> (r: Vec<u8>)
    ensures
        r@ == seq![0xe6u8, 0xa4, 0x39, 0x05] + word_of_address(token_a) + word_of_address(token_b),
{
    let mut out: Vec<u8> = Vec::new();
    out.push(0xe6);
    out.push(0xa4);
    out.push(0x39);
    out.push(0x05);
    push_address_word(&mut out, &token_a);
    push_address_word(&mut out, &token_b);
    out
}

} // verus!

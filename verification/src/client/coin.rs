use crate::abi::{push_u32_word, word_of_u32};
use crate::address::Address;
use crate::uint::U256;
use vstd::prelude::*;

verus! {

/// A coin as the launch contract describes it.
#[derive(Debug)]
pub struct SolidityCoin {
    pub name: String,
    pub symbol: String,
    pub supply: U256,
    pub decimals: u8,
    pub contract_address: Address,
    pub creator: Address,
}

/// The call that asks the launch contract for a coin.
pub fn get_coin_calldata(coin_id: u32) -> (r: Vec<u8>)
    ensures
        r@ == seq![0x3eu8, 0x0a, 0x6f, 0xb0] + word_of_u32(coin_id),
{
    let mut out: Vec<u8> = Vec::new();
    out.push(0x3e);
    out.push(0x0a);
    out.push(0x6f);
    out.push(0xb0);
    push_u32_word(&mut out, coin_id);
    out
}

} // verus!

use crate::address::{parsed_address, Address};
use crate::db::models;
use crate::error::pump::PumpError;
use crate::bigint::{lemma_pow256_monotonic, pow256};
use crate::contract::pair::{Swap, Sync};
use crate::decimal::{can_divide, quotient_view, Decimal, DecimalView, MAX_DIVISOR_DIGITS};
use crate::uint::{int_to_decimal, to_bigint, U256};
use vstd::prelude::*;

verus! {

/// One pair of the exchange: the address of the pair itself, which is also its
/// liquidity token, and the two tokens it trades.
#[derive(Clone, Copy, Debug)]
pub struct Pool {
    pub lp_token: Address,
    pub token_0: Address,
    pub token_1: Address,
}

/// How much more of a token left the pool than entered it.
pub open spec fn net_flow(amount_in: nat, amount_out: nat) -> int {
    amount_out - amount_in
}

/// Whether the two net flows of a swap give a price: one of them left the
/// pool, and the other entered it.
pub open spec fn flows_give_price(net0: int, net1: int) -> bool {
    (net0 > 0 && net1 < 0) || (net0 < 0 && net1 > 0)
}

/// The whole number `n` as a decimal.
pub open spec fn whole(n: int) -> DecimalView {
    DecimalView { unscaled: n, scale: 0 }
}

/// The price that a swap was made at, in token 1 for one token 0.
pub open spec fn swap_price_view(net0: int, net1: int) -> DecimalView {
    quotient_view(whole(-net1), whole(net0))
}

/// The price that the reserves of a pair stand for, in token 1 for one
/// token 0.
pub open spec fn sync_price_view(reserve0: u128, reserve1: u128) -> DecimalView {
    quotient_view(whole(reserve1 as int), whole(reserve0 as int))
}

/// A price in units of the reference asset for one of the other token: the
/// pool's own price where the reference asset is token 1, and one over it
/// where the reference asset is token 0.
pub open spec fn ui_price_view(pool: Pool, weth: Address, dex_price: DecimalView) -> DecimalView {
    if pool.token_0 == weth {
        quotient_view(whole(1), dex_price)
    } else {
        dex_price
    }
}

/// A whole number below `256^32` can be divided by (unless it is zero), and
/// any whole number can be divided.
pub proof fn lemma_whole_divides(dividend: int, divisor: int)
    requires
        divisor != 0,
        -pow256(32) < divisor < pow256(32),
    ensures
        can_divide(whole(dividend), whole(divisor)),
{
    lemma_pow256_monotonic(32, MAX_DIVISOR_DIGITS as nat);
}

/// The address that `address` writes, or the error for a text that writes none.
pub fn parse_address(address: &str) -> (r: Result<Address, PumpError>)
    ensures
        match r {
            Ok(parsed) => parsed_address(address@) == Some(parsed.bytes@),
            Err(e) => parsed_address(address@).is_none() && e == PumpError::InvalidAddress,
        },
{
    match Address::parse(address) {
        Some(parsed) => Ok(parsed),
        None => Err(PumpError::InvalidAddress),
    }
}

/// Whether the three addresses of a stored pool can be read.
pub open spec fn row_is_readable(row: models::Pool) -> bool {
    &&& parsed_address(row.address@).is_some()
    &&& parsed_address(row.token_0@).is_some()
    &&& parsed_address(row.token_1@).is_some()
}

impl Pool {
    /// The pool that a stored row describes. A row with an address that
    /// cannot be read describes none.
    pub fn try_from(value: models::Pool) -> (r: Result<Pool, PumpError>)
        ensures
            match r {
                Ok(pool) => {
                    &&& parsed_address(value.address@) == Some(pool.lp_token.bytes@)
                    &&& parsed_address(value.token_0@) == Some(pool.token_0.bytes@)
                    &&& parsed_address(value.token_1@) == Some(pool.token_1.bytes@)
                },
                Err(e) => !row_is_readable(value) && e == PumpError::InvalidAddress,
            },
    {
        let lp_token = match parse_address(value.address.as_str()) {
            Ok(address) => address,
            Err(e) => return Err(e),
        };
        let token_0 = match parse_address(value.token_0.as_str()) {
            Ok(address) => address,
            Err(e) => return Err(e),
        };
        let token_1 = match parse_address(value.token_1.as_str()) {
            Ok(address) => address,
            Err(e) => return Err(e),
        };
        Ok(Pool { lp_token, token_0, token_1 })
    }
}

impl Pool {
    /// The token of the pair that is not the reference asset, and whether the
    /// reference asset is token 0. A pair without the reference asset gives
    /// token 0 and `false`.
    pub fn other(self, weth: Address) -> (r: (Address, bool))
        ensures
            r.1 == (self.token_0 == weth),
            r.0 == if self.token_0 == weth {
                self.token_1
            } else {
                self.token_0
            },
    {
        if self.token_0 == weth {
            return (self.token_1, true);
        }
        return (self.token_0, false);
    }

    /// Reads a swap: whether token 0 was bought from the pool, the net flow
    /// of each token out of the pool, and the price in token 1 for one
    /// token 0. A swap in which both tokens left the pool on balance, or
    /// neither did, or one did not move, has no price.
    pub fn swap_price(swap: &Swap) -> (r: Option<(bool, Decimal, Decimal, Decimal)>)
        ensures
            r.is_some() == flows_give_price(
                net_flow(swap.amount0_in@, swap.amount0_out@),
                net_flow(swap.amount1_in@, swap.amount1_out@),
            ),
            match r {
                Some((buy_0, amount_0, amount_1, price)) => {
                    let net0 = net_flow(swap.amount0_in@, swap.amount0_out@);
                    let net1 = net_flow(swap.amount1_in@, swap.amount1_out@);
                    &&& buy_0 == (net0 > 0)
                    &&& amount_0@ == whole(net0)
                    &&& amount_1@ == whole(net1)
                    &&& price@ == swap_price_view(net0, net1)
                },
                None => true,
            },
    {
        let amt0_in = to_bigint(&swap.amount0_in);
        let amt0_out = to_bigint(&swap.amount0_out);
        let amt1_in = to_bigint(&swap.amount1_in);
        let amt1_out = to_bigint(&swap.amount1_out);

        let amt0_net = Decimal::from_integer(amt0_out.sub(&amt0_in));
        let amt1_net = Decimal::from_integer(amt1_out.sub(&amt1_in));

        let buy_0 = if amt0_net.is_positive() && amt1_net.unscaled.is_negative() {
            true
        } else if amt0_net.unscaled.is_negative() && amt1_net.is_positive() {
            false
        } else {
            return None;
        };
        proof {
            swap.amount0_in.lemma_bound();
            swap.amount0_out.lemma_bound();
            lemma_whole_divides(-amt1_net@.unscaled, amt0_net@.unscaled);
        }
        let price = amt1_net.negated_whole().div(&amt0_net);
        Some((buy_0, amt0_net, amt1_net, price))
    }

    /// The price that the reserves of a pair stand for, in token 1 for one
    /// token 0; nothing where the reserve of token 0 is zero.
    pub fn sync_price(sync: &Sync) -> (r: Option<Decimal>)
        ensures
            r.is_some() == (sync.reserve0 != 0),
            r.is_some() ==> r.unwrap()@ == sync_price_view(sync.reserve0, sync.reserve1),
    {
        let amt_0 = int_to_decimal(&U256::from_u128(sync.reserve0));
        let amt_1 = int_to_decimal(&U256::from_u128(sync.reserve1));
        proof {
            if sync.reserve0 != 0 {
                assert(pow256(16) == 0x1_0000_0000_0000_0000_0000_0000_0000_0000) by {
                    reveal_with_fuel(pow256, 17);
                }
                lemma_pow256_monotonic(16, 32);
                lemma_whole_divides(sync.reserve1 as int, sync.reserve0 as int);
            }
        }
        amt_1.checked_div(&amt_0)
    }

    /// Turns the pool's price into the price shown to users, which is always
    /// in the reference asset: the price itself where the reference asset is
    /// token 1, one over it where it is token 0. A price that is turned over
    /// must be one that can be divided by.
    pub fn to_ui_price(&self, weth: Address, dex_price: Decimal) -> (r: Decimal)
        requires
            self.token_0 == weth ==> can_divide(whole(1), dex_price@),
        ensures
            r@ == ui_price_view(*self, weth, dex_price@),
            self.token_0 != weth ==> r == dex_price,
    {
        if self.token_0 == weth {
            // the first token is the reference asset: show how much of it one
            // unit of the other token is worth
            Decimal::one().div(&dex_price)
        } else {
            dex_price
        }
    }
}

/// Shown twice, a price comes back as it was where the reference asset is not
/// token 0; where it is, showing it once gives one over it.
pub proof fn lemma_ui_price_twice(pool: Pool, weth: Address, price: DecimalView)
    ensures
        pool.token_0 != weth ==> ui_price_view(pool, weth, ui_price_view(pool, weth, price))
            == price,
        pool.token_0 == weth ==> ui_price_view(pool, weth, price) == quotient_view(whole(1), price),
{
}

} // verus!

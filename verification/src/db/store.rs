use crate::address::address_checksum;
use crate::client::coin::SolidityCoin;
use crate::db::models::NewCoin;
use crate::decimal::DecimalView;
use crate::error::pump::PumpError;
use crate::uint::int_to_decimal;
use vstd::prelude::*;

verus! {

/// Whether `row` is the coin `coin_id` as the launch contract describes it in
/// `coin`: the supply as a whole number, the two addresses in their
/// checksummed text, and nothing of what the chain does not say.
pub open spec fn is_verified_coin(row: NewCoin, coin_id: i64, coin: SolidityCoin) -> bool {
    &&& row.id == coin_id
    &&& row.name@ == coin.name@
    &&& row.symbol@ == coin.symbol@
    &&& row.supply@ == (DecimalView { unscaled: coin.supply@ as int, scale: 0 })
    &&& row.decimals == coin.decimals
    &&& row.contract_address@ == address_checksum(coin.contract_address.bytes@)
    &&& row.creator@ == address_checksum(coin.creator.bytes@)
    &&& row.description.is_none()
    &&& row.image_url.is_none()
    &&& row.twitter.is_none()
    &&& row.website.is_none()
    &&& row.telegram.is_none()
}

/// The row under which a coin is stored once the launch contract has
/// confirmed it.
pub fn verified_coin(coin_id: i64, coin: &SolidityCoin) -> (r: NewCoin)
    ensures
        is_verified_coin(r, coin_id, *coin),
{
    NewCoin {
        id: coin_id,
        name: coin.name.clone(),
        symbol: coin.symbol.clone(),
        supply: int_to_decimal(&coin.supply),
        decimals: coin.decimals as i32,
        contract_address: coin.contract_address.to_string(),
        creator: coin.creator.to_string(),
        description: None,
        image_url: None,
        twitter: None,
        website: None,
        telegram: None,
    }
}

/// What an update of the coin `coin_id` that touched `rows` rows comes to:
/// an update that touched none did not find the coin.
pub fn coin_updated(rows: usize, coin_id: i64) -> (r: Result<(), PumpError>)
    ensures
        r == if rows == 0 {
            Err::<(), PumpError>(PumpError::CoinNotFound(coin_id as u32))
        } else {
            Ok::<(), PumpError>(())
        },
{
    if rows == 0 {
        Err(PumpError::CoinNotFound(coin_id as u32))
    } else {
        Ok(())
    }
}

} // verus!

//! The fee splitter and the payment check.
use vstd::prelude::*;

use crate::types::{Asset, AssetInfo, Coin, ContractError, FEE_SCALE};
use cosmwasm_std::{Decimal, Uint128};
use terraswap::asset::{Asset as PaidAsset, AssetInfo as PaidAssetInfo};

verus! {

/// The protocol's share of `amount` at rate `percent` (over `FEE_SCALE`), rounded down.
pub open spec fn fee_share(percent: u128, amount: u128) -> int {
    (amount * percent) as int / (FEE_SCALE as int)
}

/// `i` is the first coin of `funds` in `denom`.
pub open spec fn is_first_coin(funds: Seq<Coin>, denom: Seq<char>, i: int) -> bool {
    &&& 0 <= i < funds.len()
    &&& funds[i].denom@ == denom
    &&& forall|j: int| 0 <= j < i ==> funds[j].denom@ != denom
}

/// The first coin of `funds` in `denom`, where there is one.
pub open spec fn first_coin(funds: Seq<Coin>, denom: Seq<char>) -> Option<Coin> {
    if exists|i: int| is_first_coin(funds, denom, i) {
        Some(funds[choose|i: int| is_first_coin(funds, denom, i)])
    } else {
        None
    }
}

/// The attached `funds` pay `price`: for a native asset the first coin of its
/// denomination carries exactly the price, or there is no such coin and the
/// price is zero. A token asset is not checked against native funds.
pub open spec fn payment_accepted(price: Asset, funds: Seq<Coin>) -> bool {
    match price.info {
        AssetInfo::NativeToken { denom } => match first_coin(funds, denom@) {
            Some(c) => c.amount == price.amount,
            None => price.amount == 0,
        },
        AssetInfo::Token { .. } => true,
    }
}

/// Relies on cosmwasm_std's `Uint128 * Decimal`: `amount * atomics / 10^18`
/// rounded down, which cannot overflow for a rate of at most one.
#[verifier::external_body]
fn mul_decimal(amount: u128, atomics: u128) -> (r: u128)
    requires
        atomics <= FEE_SCALE,
    ensures
        r as int == fee_share(atomics, amount),
{
    (Uint128::new(amount) * Decimal::raw(atomics)).u128()
}

/// Relies on terraswap's `Asset::assert_sent_native_token_balance`, which
/// succeeds exactly on the funds that `payment_accepted` describes.
#[verifier::external_body]
pub(crate) fn sent_native_token_balance_ok(price: &Asset, funds: &Vec<Coin>) -> (r: bool)
    ensures
        r == payment_accepted(*price, funds@),
{
    let info = match &price.info {
        AssetInfo::Token { contract_addr } => PaidAssetInfo::Token { contract_addr: contract_addr.clone() },
        AssetInfo::NativeToken { denom } => PaidAssetInfo::NativeToken { denom: denom.clone() },
    };
    let funds = funds.iter().map(|c| cosmwasm_std::coin(c.amount, c.denom.clone())).collect();
    let sent = cosmwasm_std::MessageInfo { sender: cosmwasm_std::Addr::unchecked(""), funds };
    PaidAsset { info, amount: Uint128::new(price.amount) }.assert_sent_native_token_balance(&sent).is_ok()
}

/// The protocol fee on `amount` at rate `percent`: `floor(amount * percent)`.
pub fn calculate_fee(percent: u128, amount: u128) -> (r: Result<u128, ContractError>)
    requires
        percent <= FEE_SCALE,
    ensures
        r matches Ok(fee) && fee as int == fee_share(percent, amount),
{
    Ok(mul_decimal(amount, percent))
}

/// The protocol's share never exceeds the amount.
pub proof fn lemma_fee_share_bounded(percent: u128, amount: u128)
    requires
        percent <= FEE_SCALE,
    ensures
        0 <= fee_share(percent, amount) <= amount,
{
    let a = amount as int;
    let p = percent as int;
    let s = FEE_SCALE as int;
    assert(a * p <= a * s) by (nonlinear_arith)
        requires
            0 <= p <= s,
            0 <= a,
    ;
    assert((a * s) / s == a) by (nonlinear_arith)
        requires
            s > 0,
    ;
    assert((a * p) / s <= (a * s) / s) by (nonlinear_arith)
        requires
            a * p <= a * s,
            s > 0,
    ;
    assert(0 <= (a * p) / s) by (nonlinear_arith)
        requires
            0 <= a * p,
            s > 0,
    ;
}

/// Splits `amount` into `(protocol_share, creator_share)`: the protocol gets
/// `floor(amount * percent)`, the creator the rest.
pub fn split_fee(percent: u128, amount: u128) -> (r: (u128, u128))
    requires
        percent <= FEE_SCALE,
    ensures
        r.0 as int == fee_share(percent, amount),
        r.1 as int == amount - fee_share(percent, amount),
        r.0 + r.1 == amount,
{
    proof {
        lemma_fee_share_bounded(percent, amount);
    }
    let protocol = mul_decimal(amount, percent);
    (protocol, amount - protocol)
}

/// For every rate and amount the two shares add up to the amount exactly.
pub proof fn lemma_fee_conservation(percent: u128, amount: u128)
    requires
        percent <= FEE_SCALE,
    ensures
        0 <= fee_share(percent, amount) <= amount,
        fee_share(percent, amount) + (amount - fee_share(percent, amount)) == amount,
{
    lemma_fee_share_bounded(percent, amount);
}

} // verus!

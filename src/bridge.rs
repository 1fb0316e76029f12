//! Receipt-token bridge: supplies to or withdraws from the lending pool and
//! mints or burns the matching receipt tokens in one step. The pool acts on
//! the token ledger as `pool_account`; the number of tokens follows the
//! ledger's exchange rate. Either both sides change or neither does.
use vstd::prelude::*;

use crate::model::PoolModel;
use crate::pool::{LendingError, LendingPool};
use crate::s_token::{SToken, TokenError, RATE_UNIT};

verus! {

#[derive(Clone, Copy, Debug, PartialEq, Eq, Structural)]
pub enum BridgeError {
    Pool(LendingError),
    Token(TokenError),
}

/// Receipt tokens worth `amount` of the underlying at `rate`.
pub open spec fn shares_for(amount: int, rate: int) -> int {
    amount * RATE_UNIT as int / rate
}

/// The result of a deposit of `amount` followed by the mint of its tokens:
/// the pool's refusal first, then the ledger's.
pub open spec fn deposit_mint_outcome(
    pool: PoolModel,
    token: SToken,
    pool_account: Seq<char>,
    user: Seq<char>,
    asset: Seq<char>,
    amount: i128,
) -> Result<i128, BridgeError> {
    match pool.deposit_outcome(user, asset, amount) {
        Err(e) => Err(BridgeError::Pool(e)),
        Ok(_) => if amount * RATE_UNIT > i128::MAX {
            Err(BridgeError::Token(TokenError::MathOverflow))
        } else {
            let shares = shares_for(amount as int, token.rate_view() as int) as i128;
            match token.mint_outcome(pool_account, shares) {
                Err(e) => Err(BridgeError::Token(e)),
                Ok(()) => Ok(shares),
            }
        },
    }
}

/// The result of a withdrawal of `amount` followed by the burn of its
/// tokens: the pool's refusal first, then the ledger's.
pub open spec fn withdraw_burn_outcome(
    pool: PoolModel,
    token: SToken,
    pool_account: Seq<char>,
    user: Seq<char>,
    asset: Seq<char>,
    amount: i128,
) -> Result<i128, BridgeError> {
    match pool.withdraw_outcome(user, asset, amount) {
        Err(e) => Err(BridgeError::Pool(e)),
        Ok(_) => if amount * RATE_UNIT > i128::MAX {
            Err(BridgeError::Token(TokenError::MathOverflow))
        } else {
            let shares = shares_for(amount as int, token.rate_view() as int) as i128;
            match token.burn_outcome(pool_account, user, shares) {
                Err(e) => Err(BridgeError::Token(e)),
                Ok(()) => Ok(shares),
            }
        },
    }
}

/// Supplies `amount` of `asset` for `user` and mints the receipt tokens it
/// is worth. Returns the tokens minted.
pub fn deposit_and_mint(
    pool: &mut LendingPool,
    token: &mut SToken,
    pool_account: &String,
    user: &String,
    asset: &String,
    amount: i128,
    now: u64,
) -> (r: Result<i128, BridgeError>)
    requires
        old(pool).wf(),
        old(token).wf(),
    ensures
        final(pool).wf(),
        final(token).wf(),
        r == deposit_mint_outcome(old(pool)@, *old(token), pool_account@, user@, asset@, amount),
        r matches Ok(shares) ==> final(pool)@ == old(pool)@.deposit_state(
            user@,
            asset@,
            amount,
            now,
        ) && final(token).balances_view() == old(token).balances_view().insert(
            user@,
            (old(token).balance_of(user@) + shares) as i128,
        ) && final(token).supply_view() == old(token).supply_view() + shares
            && final(token).rate_view() == old(token).rate_view(),
        r is Err ==> final(pool)@ == old(pool)@ && *final(token) == *old(token),
{
    match pool.check_deposit(user, asset, amount) {
        Err(e) => {
            return Err(BridgeError::Pool(e));
        },
        Ok(_) => {},
    }
    let shares = match token.underlying_to_s_token(amount) {
        Ok(v) => v,
        Err(e) => {
            return Err(BridgeError::Token(e));
        },
    };
    match token.check_mint(pool_account, shares) {
        Err(e) => {
            return Err(BridgeError::Token(e));
        },
        Ok(()) => {},
    }
    let _ = pool.deposit(user, asset, amount, now);
    let _ = token.mint(pool_account, user, shares);
    Ok(shares)
}

/// Withdraws `amount` of `asset` that `user` supplied and burns the receipt
/// tokens it is worth. Returns the tokens burned.
pub fn withdraw_and_burn(
    pool: &mut LendingPool,
    token: &mut SToken,
    pool_account: &String,
    user: &String,
    asset: &String,
    amount: i128,
    now: u64,
) -> (r: Result<i128, BridgeError>)
    requires
        old(pool).wf(),
        old(token).wf(),
    ensures
        final(pool).wf(),
        final(token).wf(),
        r == withdraw_burn_outcome(old(pool)@, *old(token), pool_account@, user@, asset@, amount),
        r matches Ok(shares) ==> final(pool)@ == old(pool)@.withdraw_state(
            user@,
            asset@,
            amount,
            now,
        ) && final(token).balances_view() == old(token).balances_view().insert(
            user@,
            (old(token).balance_of(user@) - shares) as i128,
        ) && final(token).supply_view() == old(token).supply_view() - shares
            && final(token).rate_view() == old(token).rate_view(),
        r is Err ==> final(pool)@ == old(pool)@ && *final(token) == *old(token),
{
    match pool.check_withdraw(user, asset, amount) {
        Err(e) => {
            return Err(BridgeError::Pool(e));
        },
        Ok(_) => {},
    }
    let shares = match token.underlying_to_s_token(amount) {
        Ok(v) => v,
        Err(e) => {
            return Err(BridgeError::Token(e));
        },
    };
    match token.check_burn(pool_account, user, shares) {
        Err(e) => {
            return Err(BridgeError::Token(e));
        },
        Ok(()) => {},
    }
    let _ = pool.withdraw(user, asset, amount, now);
    let _ = token.burn(pool_account, user, shares);
    Ok(shares)
}

} // verus!

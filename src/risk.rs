//! The risk arithmetic: USD values at oracle prices, loan-to-value ratio
//! and health factor, with the lemmas that tie the executable arithmetic to
//! its statement.
use vstd::prelude::*;

use crate::model::{price_error, PoolModel};
use crate::oracle::{OracleError, PriceBook, PRICE_UNIT};
use crate::pool::{LendingError, Position, UserAccountData, HEALTH_FACTOR_ONE};
use crate::rates::BPS;

verus! {

/// Debt over collateral in basis points, at most `u32::MAX`; 0 without
/// collateral.
pub open spec fn ltv_bps(collateral_usd: int, debt_usd: int) -> int {
    if collateral_usd > 0 {
        let l = debt_usd * BPS as int / collateral_usd;
        if l > u32::MAX as int {
            u32::MAX as int
        } else {
            l
        }
    } else {
        0
    }
}

/// Risk-adjusted collateral over debt in fixed point with seven decimals,
/// where `weighted` sums each collateral's USD value times its liquidation
/// threshold in basis points; `i128::MAX` without debt.
pub open spec fn health_factor(weighted: int, debt_usd: int) -> int {
    if debt_usd > 0 {
        weighted * HEALTH_FACTOR_ONE as int / (debt_usd * BPS as int)
    } else {
        i128::MAX as int
    }
}

/// The account figures for totals `(collateral_usd, debt_usd, weighted)`.
pub open spec fn snapshot(t: (int, int, int)) -> Result<UserAccountData, LendingError> {
    let (cu, du, w) = t;
    if (cu > 0 && du * BPS as int > i128::MAX as int) || (du > 0 && w * 1000 > i128::MAX as int) {
        Err(LendingError::MathOverflow)
    } else {
        Ok(
            UserAccountData {
                total_collateral_usd: cu as i128,
                total_debt_usd: du as i128,
                ltv: ltv_bps(cu, du) as u32,
                health_factor: health_factor(w, du) as i128,
            },
        )
    }
}

/// Value in USD of `amount` at `price`, or `None` when `amount * price`
/// overflows.
pub open spec fn usd_of(amount: int, price: int) -> Option<int> {
    if amount * price > i128::MAX as int {
        None
    } else {
        Some(amount * price / PRICE_UNIT as int)
    }
}

/// `m` with the position of `user` in one asset replaced, when `over` says so.
pub open spec fn overlaid(m: PoolModel, user: Seq<char>, over: Option<(&String, Position)>) -> PoolModel {
    match over {
        Some((a, p)) => m.with_position(user, a@, p),
        None => m,
    }
}

/// Account totals depend only on the positions and on the liquidation
/// thresholds of the assets visited.
pub(crate) proof fn lemma_totals_frame(
    m1: PoolModel,
    m2: PoolModel,
    prices: PriceBook,
    user: Seq<char>,
    now: u64,
    order: Seq<Seq<char>>,
)
    requires
        m1.positions == m2.positions,
        forall|i: int|
            0 <= i < order.len() ==> m1.assets[#[trigger] order[i]].config.liquidation_threshold
                == m2.assets[order[i]].config.liquidation_threshold,
    ensures
        m1.account_totals(prices, user, now, order) == m2.account_totals(prices, user, now, order),
    decreases order.len(),
{
    if order.len() > 0 {
        let rest = order.drop_last();
        assert forall|i: int| 0 <= i < rest.len() implies m1.assets[#[trigger] rest[i]].config.liquidation_threshold
            == m2.assets[rest[i]].config.liquidation_threshold by {
            assert(rest[i] == order[i]);
        }
        lemma_totals_frame(m1, m2, prices, user, now, rest);
        assert(order.last() == order[order.len() - 1]);
    }
}

/// Once a prefix of `order` fails, the whole of `order` fails the same way.
pub(crate) proof fn lemma_totals_prefix_err(
    m: PoolModel,
    prices: PriceBook,
    user: Seq<char>,
    now: u64,
    order: Seq<Seq<char>>,
    k: int,
)
    requires
        0 <= k <= order.len(),
        m.account_totals(prices, user, now, order.take(k)) is Err,
    ensures
        m.account_totals(prices, user, now, order) == m.account_totals(prices, user, now, order.take(k)),
    decreases order.len() - k,
{
    if k < order.len() {
        assert(order.drop_last().take(k) =~= order.take(k));
        lemma_totals_prefix_err(m, prices, user, now, order.drop_last(), k);
    } else {
        assert(order.take(k) =~= order);
    }
}

/// `(w * 10^7) / (d * 10^4)` computed as `(w * 1000) / d`.
proof fn lemma_health_factor_scaling(w: int, d: int)
    requires
        w >= 0,
        d > 0,
    ensures
        w * HEALTH_FACTOR_ONE as int / (d * BPS as int) == w * 1000 / d,
{
    let x = w * 1000;
    assert(w * 10_000_000 == 10_000 * x);
    vstd::arithmetic::div_mod::lemma_div_multiples_vanish(x, 10_000);
    vstd::arithmetic::div_mod::lemma_div_denominator(10_000 * x, 10_000, d);
    assert(d * 10_000 == 10_000 * d) by (nonlinear_arith);
}

pub(crate) fn usd(amount: i128, price: i128) -> (r: Option<i128>)
    requires
        amount >= 0,
        price > 0,
    ensures
        r matches Some(v) ==> usd_of(amount as int, price as int) == Some(v as int) && v >= 0,
        r is None ==> usd_of(amount as int, price as int) is None,
{
    match amount.checked_mul(price) {
        None => None,
        Some(v) => {
            assert(amount * price >= 0) by (nonlinear_arith)
                requires
                    amount >= 0,
                    price > 0,
            ;
            Some(v / PRICE_UNIT)
        },
    }
}

pub(crate) fn to_price_error(e: OracleError) -> (r: LendingError)
    ensures
        r == price_error(e),
{
    match e {
        OracleError::PriceStale => LendingError::PriceStale,
        _ => LendingError::PriceUnavailable,
    }
}

/// Account figures from totals `(collateral_usd, debt_usd, weighted)`.
pub(crate) fn make_snapshot(cu: i128, du: i128, w: i128) -> (r: Result<UserAccountData, LendingError>)
    requires
        cu >= 0,
        du >= 0,
        w >= 0,
    ensures
        r == snapshot((cu as int, du as int, w as int)),
{
    let ltv: u32 = if cu > 0 {
        match du.checked_mul(BPS) {
            None => {
                return Err(LendingError::MathOverflow);
            },
            Some(scaled) => {
                let l = scaled / cu;
                if l > u32::MAX as i128 {
                    u32::MAX
                } else {
                    l as u32
                }
            },
        }
    } else {
        0
    };
    let hf: i128 = if du > 0 {
        match w.checked_mul(1000) {
            None => {
                return Err(LendingError::MathOverflow);
            },
            Some(scaled) => {
                proof {
                    lemma_health_factor_scaling(w as int, du as int);
                }
                scaled / du
            },
        }
    } else {
        i128::MAX
    };
    Ok(UserAccountData { total_collateral_usd: cu, total_debt_usd: du, ltv, health_factor: hf })
}

} // verus!

//! The abstract state of a lending pool and what each operation does to
//! it, as total functions: `*_outcome` gives an operation's result and
//! `*_state` the state after it succeeds.
use vstd::prelude::*;

use crate::oracle::{price_lookup, OracleError, PriceBook};
use crate::pool::{
    AssetConfig, AssetState, LendingError, PoolState, Position, UserAccountData, HEALTH_FACTOR_ONE,
    MAX_RESERVE_FACTOR, MAX_RISK_RATIO,
};
use crate::rates::{borrow_rate, supply_rate, utilization, BPS, INITIAL_BORROW_RATE, INITIAL_SUPPLY_RATE};
use crate::risk::{snapshot, usd_of};

verus! {

/// The position of a user who never held the asset.
pub open spec fn zero_position() -> Position {
    Position { collateral_amount: 0, debt_amount: 0, supplied_amount: 0 }
}

/// The pool state after its totals became `supplied` and `borrowed` at
/// `now`, with rates recomputed.
pub open spec fn refreshed(supplied: int, borrowed: int, now: u64) -> PoolState {
    let u = utilization(supplied, borrowed);
    let br = borrow_rate(u);
    PoolState {
        total_supplied: supplied as i128,
        total_borrowed: borrowed as i128,
        utilization_rate: u as u32,
        borrow_rate: br as i128,
        supply_rate: supply_rate(br, u) as i128,
        last_update_timestamp: now,
    }
}

/// A freshly configured asset.
pub open spec fn configured_state(ltv: u32, threshold: u32, reserve: u32, now: u64) -> AssetState {
    AssetState {
        config: AssetConfig {
            ltv_ratio: ltv,
            liquidation_threshold: threshold,
            reserve_factor: reserve,
            is_active: true,
            is_collateral: true,
        },
        pool: PoolState {
            total_supplied: 0,
            total_borrowed: 0,
            utilization_rate: 0,
            borrow_rate: INITIAL_BORROW_RATE,
            supply_rate: INITIAL_SUPPLY_RATE,
            last_update_timestamp: now,
        },
    }
}

/// How an oracle refusal surfaces from the lending pool.
pub open spec fn price_error(e: OracleError) -> LendingError {
    if e == OracleError::PriceStale {
        LendingError::PriceStale
    } else {
        LendingError::PriceUnavailable
    }
}

/// Bounds every stored pool keeps.
pub open spec fn pool_ok(st: AssetState) -> bool {
    &&& 0 <= st.pool.total_borrowed
    &&& 0 <= st.pool.total_supplied
    &&& st.pool.total_borrowed * BPS <= i128::MAX
    &&& st.config.ltv_ratio <= MAX_RISK_RATIO
    &&& st.config.liquidation_threshold <= MAX_RISK_RATIO
    &&& st.config.reserve_factor <= MAX_RESERVE_FACTOR
}

/// The abstract state of a lending pool.
pub struct PoolModel {
    pub admin: Option<Seq<char>>,
    pub s_token_contract: Option<Seq<char>>,
    pub price_oracle: Option<Seq<char>>,
    pub assets: Map<Seq<char>, AssetState>,
    /// Configured assets in the order they were first configured.
    pub asset_order: Seq<Seq<char>>,
    pub positions: Map<(Seq<char>, Seq<char>), Position>,
}

impl PoolModel {
    pub open spec fn position(self, user: Seq<char>, asset: Seq<char>) -> Position {
        if self.positions.contains_key((user, asset)) {
            self.positions[(user, asset)]
        } else {
            zero_position()
        }
    }

    pub open spec fn with_position(self, user: Seq<char>, asset: Seq<char>, p: Position) -> PoolModel {
        PoolModel { positions: self.positions.insert((user, asset), p), ..self }
    }

    /// Replaces the pool state of a configured asset.
    pub open spec fn with_pool(self, asset: Seq<char>, pool: PoolState) -> PoolModel {
        PoolModel {
            assets: self.assets.insert(asset, AssetState { pool, ..self.assets[asset] }),
            ..self
        }
    }

    /// `total_borrowed <= total_supplied` in every pool; every operation
    /// keeps it.
    pub open spec fn solvent(self) -> bool {
        forall|a: Seq<char>| #[trigger]
            self.assets.contains_key(a) ==> self.assets[a].pool.total_borrowed
                <= self.assets[a].pool.total_supplied
    }

    /// No position holds a negative amount.
    pub open spec fn positions_non_negative(self) -> bool {
        forall|k: (Seq<char>, Seq<char>)| #[trigger]
            self.positions.contains_key(k) ==> self.positions[k].collateral_amount >= 0
                && self.positions[k].debt_amount >= 0 && self.positions[k].supplied_amount >= 0
    }

    /// What every pool reached through the operations satisfies.
    pub open spec fn valid(self) -> bool {
        &&& self.positions_non_negative()
        &&& forall|a: Seq<char>| #[trigger] self.assets.contains_key(a) ==> pool_ok(self.assets[a])
    }

    pub open spec fn risk_params_outcome(
        self,
        caller: Seq<char>,
        asset: Seq<char>,
        ltv: u32,
        threshold: u32,
        reserve: u32,
    ) -> Result<(), LendingError> {
        match self.configure_outcome(caller, ltv, threshold, reserve) {
            Err(e) => Err(e),
            Ok(()) => if self.assets.contains_key(asset) {
                Ok(())
            } else {
                Err(LendingError::AssetNotConfigured)
            },
        }
    }

    /// The asset's ratios replaced; flags, pool totals and rates kept.
    pub open spec fn risk_params_state(
        self,
        asset: Seq<char>,
        ltv: u32,
        threshold: u32,
        reserve: u32,
    ) -> PoolModel {
        let st = self.assets[asset];
        PoolModel {
            assets: self.assets.insert(
                asset,
                AssetState {
                    config: AssetConfig {
                        ltv_ratio: ltv,
                        liquidation_threshold: threshold,
                        reserve_factor: reserve,
                        ..st.config
                    },
                    ..st
                },
            ),
            ..self
        }
    }

    pub open spec fn status_outcome(self, caller: Seq<char>, asset: Seq<char>) -> Result<(), LendingError> {
        match self.admin {
            None => Err(LendingError::NotInitialized),
            Some(a) => if a != caller {
                Err(LendingError::Unauthorized)
            } else if !self.assets.contains_key(asset) {
                Err(LendingError::AssetNotConfigured)
            } else {
                Ok(())
            },
        }
    }

    /// The asset's flags replaced; ratios, pool totals and rates kept.
    pub open spec fn status_state(self, asset: Seq<char>, is_active: bool, is_collateral: bool) -> PoolModel {
        let st = self.assets[asset];
        PoolModel {
            assets: self.assets.insert(
                asset,
                AssetState { config: AssetConfig { is_active, is_collateral, ..st.config }, ..st },
            ),
            ..self
        }
    }

    pub open spec fn configure_outcome(
        self,
        caller: Seq<char>,
        ltv: u32,
        threshold: u32,
        reserve: u32,
    ) -> Result<(), LendingError> {
        match self.admin {
            None => Err(LendingError::NotInitialized),
            Some(a) => if a != caller {
                Err(LendingError::Unauthorized)
            } else if ltv > MAX_RISK_RATIO || threshold > MAX_RISK_RATIO || reserve
                > MAX_RESERVE_FACTOR {
                Err(LendingError::InvalidConfiguration)
            } else {
                Ok(())
            },
        }
    }

    pub open spec fn configure_state(
        self,
        asset: Seq<char>,
        ltv: u32,
        threshold: u32,
        reserve: u32,
        now: u64,
    ) -> PoolModel {
        PoolModel {
            assets: self.assets.insert(asset, configured_state(ltv, threshold, reserve, now)),
            asset_order: if self.assets.contains_key(asset) {
                self.asset_order
            } else {
                self.asset_order.push(asset)
            },
            ..self
        }
    }

    pub open spec fn deposit_outcome(self, user: Seq<char>, asset: Seq<char>, amount: i128) -> Result<
        i128,
        LendingError,
    > {
        if !self.assets.contains_key(asset) {
            Err(LendingError::AssetNotConfigured)
        } else if !self.assets[asset].config.is_active {
            Err(LendingError::AssetInactive)
        } else if amount <= 0 {
            Err(LendingError::InvalidAmount)
        } else if self.assets[asset].pool.total_supplied + amount > i128::MAX || self.position(
            user,
            asset,
        ).supplied_amount + amount > i128::MAX {
            Err(LendingError::MathOverflow)
        } else {
            Ok(amount)
        }
    }

    pub open spec fn deposit_state(self, user: Seq<char>, asset: Seq<char>, amount: i128, now: u64) -> PoolModel {
        let pool = self.assets[asset].pool;
        let pos = self.position(user, asset);
        self.with_pool(
            asset,
            refreshed(pool.total_supplied + amount, pool.total_borrowed as int, now),
        ).with_position(
            user,
            asset,
            Position { supplied_amount: (pos.supplied_amount + amount) as i128, ..pos },
        )
    }

    pub open spec fn withdraw_outcome(self, user: Seq<char>, asset: Seq<char>, amount: i128) -> Result<
        i128,
        LendingError,
    > {
        if !self.assets.contains_key(asset) {
            Err(LendingError::AssetNotConfigured)
        } else if !self.assets[asset].config.is_active {
            Err(LendingError::AssetInactive)
        } else if amount <= 0 {
            Err(LendingError::InvalidAmount)
        } else if amount > self.position(user, asset).supplied_amount {
            Err(LendingError::InsufficientBalance)
        } else if amount > self.assets[asset].pool.total_supplied
            - self.assets[asset].pool.total_borrowed {
            Err(LendingError::InsufficientLiquidity)
        } else {
            Ok(amount)
        }
    }

    pub open spec fn withdraw_state(self, user: Seq<char>, asset: Seq<char>, amount: i128, now: u64) -> PoolModel {
        let pool = self.assets[asset].pool;
        let pos = self.position(user, asset);
        self.with_pool(
            asset,
            refreshed(pool.total_supplied - amount, pool.total_borrowed as int, now),
        ).with_position(
            user,
            asset,
            Position { supplied_amount: (pos.supplied_amount - amount) as i128, ..pos },
        )
    }

    pub open spec fn deposit_collateral_outcome(
        self,
        user: Seq<char>,
        asset: Seq<char>,
        amount: i128,
    ) -> Result<(), LendingError> {
        if !self.assets.contains_key(asset) {
            Err(LendingError::AssetNotConfigured)
        } else if !self.assets[asset].config.is_collateral {
            Err(LendingError::AssetNotCollateralEligible)
        } else if amount <= 0 {
            Err(LendingError::InvalidAmount)
        } else if self.position(user, asset).collateral_amount + amount > i128::MAX {
            Err(LendingError::MathOverflow)
        } else {
            Ok(())
        }
    }

    pub open spec fn deposit_collateral_state(self, user: Seq<char>, asset: Seq<char>, amount: i128) -> PoolModel {
        let pos = self.position(user, asset);
        self.with_position(
            user,
            asset,
            Position { collateral_amount: (pos.collateral_amount + amount) as i128, ..pos },
        )
    }

    /// What `repay` takes off the debt: the amount asked, capped at the debt.
    pub open spec fn repay_amount(self, user: Seq<char>, asset: Seq<char>, amount: i128) -> i128 {
        let debt = self.position(user, asset).debt_amount;
        if amount > debt {
            debt
        } else {
            amount
        }
    }

    pub open spec fn repay_outcome(self, user: Seq<char>, asset: Seq<char>, amount: i128) -> Result<
        i128,
        LendingError,
    > {
        if amount <= 0 {
            Err(LendingError::InvalidAmount)
        } else {
            Ok(self.repay_amount(user, asset, amount))
        }
    }

    /// The debt goes down by the amount paid back; so does the pool's
    /// borrowed total, which never drops below zero (it may hold less than
    /// the debts when the asset was configured again after loans).
    pub open spec fn repay_state(self, user: Seq<char>, asset: Seq<char>, amount: i128, now: u64) -> PoolModel {
        let paid = self.repay_amount(user, asset, amount);
        let pos = self.position(user, asset);
        let repaid = self.with_position(
            user,
            asset,
            Position { debt_amount: (pos.debt_amount - paid) as i128, ..pos },
        );
        if self.assets.contains_key(asset) {
            let pool = self.assets[asset].pool;
            let left = if pool.total_borrowed > paid {
                pool.total_borrowed - paid
            } else {
                0
            };
            repaid.with_pool(asset, refreshed(pool.total_supplied as int, left, now))
        } else {
            repaid
        }
    }

    /// Adds what `user` holds in `asset` to the running totals
    /// `(collateral_usd, debt_usd, weighted)`.
    pub open spec fn totals_step(
        self,
        t: (int, int, int),
        prices: PriceBook,
        user: Seq<char>,
        asset: Seq<char>,
        now: u64,
    ) -> Result<(int, int, int), LendingError> {
        let pos = self.position(user, asset);
        if pos.collateral_amount == 0 && pos.debt_amount == 0 {
            Ok(t)
        } else {
            match price_lookup(prices, asset, now) {
                Err(e) => Err(price_error(e)),
                Ok(p) => {
                    let cu = usd_of(pos.collateral_amount as int, p as int);
                    let du = usd_of(pos.debt_amount as int, p as int);
                    if cu is None || du is None {
                        Err(LendingError::MathOverflow)
                    } else {
                        let w = cu->0 * self.assets[asset].config.liquidation_threshold;
                        if w > i128::MAX || t.0 + cu->0 > i128::MAX || t.1 + du->0 > i128::MAX || t.2
                            + w > i128::MAX {
                            Err(LendingError::MathOverflow)
                        } else {
                            Ok((t.0 + cu->0, t.1 + du->0, t.2 + w))
                        }
                    }
                },
            }
        }
    }

    /// Totals of `user` over the assets of `order`, taken in turn; the first
    /// failure is returned.
    pub open spec fn account_totals(
        self,
        prices: PriceBook,
        user: Seq<char>,
        now: u64,
        order: Seq<Seq<char>>,
    ) -> Result<(int, int, int), LendingError>
        decreases order.len(),
    {
        if order.len() == 0 {
            Ok((0, 0, 0))
        } else {
            match self.account_totals(prices, user, now, order.drop_last()) {
                Err(e) => Err(e),
                Ok(t) => self.totals_step(t, prices, user, order.last(), now),
            }
        }
    }

    /// The account figures of `user` over every configured asset.
    pub open spec fn account_data(self, prices: PriceBook, user: Seq<char>, now: u64) -> Result<
        UserAccountData,
        LendingError,
    > {
        match self.account_totals(prices, user, now, self.asset_order) {
            Err(e) => Err(e),
            Ok(t) => snapshot(t),
        }
    }

    /// The position of `user` in `asset` with `amount` more debt.
    pub open spec fn borrowed_position(self, user: Seq<char>, asset: Seq<char>, amount: i128) -> Position {
        let pos = self.position(user, asset);
        Position { debt_amount: (pos.debt_amount + amount) as i128, ..pos }
    }

    pub open spec fn borrow_outcome(
        self,
        prices: PriceBook,
        user: Seq<char>,
        asset: Seq<char>,
        amount: i128,
        now: u64,
    ) -> Result<i128, LendingError> {
        if !self.assets.contains_key(asset) {
            Err(LendingError::AssetNotConfigured)
        } else if !self.assets[asset].config.is_active {
            Err(LendingError::AssetInactive)
        } else if amount <= 0 {
            Err(LendingError::InvalidAmount)
        } else if amount > self.assets[asset].pool.total_supplied
            - self.assets[asset].pool.total_borrowed {
            Err(LendingError::InsufficientLiquidity)
        } else if self.position(user, asset).debt_amount + amount > i128::MAX || (
        self.assets[asset].pool.total_borrowed + amount) * BPS > i128::MAX {
            Err(LendingError::MathOverflow)
        } else {
            match self.with_position(
                user,
                asset,
                self.borrowed_position(user, asset, amount),
            ).account_data(prices, user, now) {
                Err(e) => Err(e),
                Ok(d) => if d.health_factor < HEALTH_FACTOR_ONE {
                    Err(LendingError::LiquidationRisk)
                } else {
                    Ok(amount)
                },
            }
        }
    }

    pub open spec fn borrow_state(self, user: Seq<char>, asset: Seq<char>, amount: i128, now: u64) -> PoolModel {
        let pool = self.assets[asset].pool;
        self.with_position(user, asset, self.borrowed_position(user, asset, amount)).with_pool(
            asset,
            refreshed(pool.total_supplied as int, pool.total_borrowed + amount, now),
        )
    }

    /// Most `user` may borrow against its collateral in `collateral_asset`,
    /// in USD: the collateral's value times its loan-to-value ratio.
    pub open spec fn max_borrow_outcome(
        self,
        prices: PriceBook,
        user: Seq<char>,
        collateral_asset: Seq<char>,
        now: u64,
    ) -> Result<i128, LendingError> {
        let c = self.position(user, collateral_asset).collateral_amount;
        if c == 0 {
            Ok(0)
        } else if !self.assets.contains_key(collateral_asset) {
            Err(LendingError::AssetNotConfigured)
        } else {
            match price_lookup(prices, collateral_asset, now) {
                Err(e) => Err(price_error(e)),
                Ok(p) => match usd_of(c as int, p as int) {
                    None => Err(LendingError::MathOverflow),
                    Some(cu) => {
                        let scaled = cu * self.assets[collateral_asset].config.ltv_ratio;
                        if scaled > i128::MAX {
                            Err(LendingError::MathOverflow)
                        } else {
                            Ok((scaled / BPS as int) as i128)
                        }
                    },
                },
            }
        }
    }

    /// Whether the debt of `user` in `borrow_asset` stays within its
    /// collateral in `collateral_asset` weighted by that collateral's
    /// liquidation threshold.
    pub open spec fn healthy_outcome(
        self,
        prices: PriceBook,
        user: Seq<char>,
        collateral_asset: Seq<char>,
        borrow_asset: Seq<char>,
        now: u64,
    ) -> Result<bool, LendingError> {
        let d = self.position(user, borrow_asset).debt_amount;
        let c = self.position(user, collateral_asset).collateral_amount;
        if d == 0 {
            Ok(true)
        } else if c == 0 {
            Ok(false)
        } else if !self.assets.contains_key(collateral_asset) {
            Err(LendingError::AssetNotConfigured)
        } else {
            match price_lookup(prices, borrow_asset, now) {
                Err(e) => Err(price_error(e)),
                Ok(pb) => match price_lookup(prices, collateral_asset, now) {
                    Err(e) => Err(price_error(e)),
                    Ok(pc) => {
                        let du = usd_of(d as int, pb as int);
                        let cu = usd_of(c as int, pc as int);
                        if du is None || cu is None || cu->0
                            * self.assets[collateral_asset].config.liquidation_threshold
                            > i128::MAX {
                            Err(LendingError::MathOverflow)
                        } else {
                            Ok(
                                du->0 <= cu->0
                                    * self.assets[collateral_asset].config.liquidation_threshold
                                    / BPS as int,
                            )
                        }
                    },
                },
            }
        }
    }

    /// `(total_supplied, total_borrowed, utilization_rate)`, zeros for an
    /// unconfigured asset.
    pub open spec fn pool_info(self, asset: Seq<char>) -> (i128, i128, u32) {
        if self.assets.contains_key(asset) {
            let p = self.assets[asset].pool;
            (p.total_supplied, p.total_borrowed, p.utilization_rate)
        } else {
            (0, 0, 0)
        }
    }
}

/// In a solvent pool, a deposit followed at once by a withdrawal of the same
/// amount by the same user leaves the asset's supplied total where it was:
/// the deposit itself provides the liquidity, so the withdrawal is accepted, and the pool's totals and the user's supplied principal return
/// to their values before the deposit.
pub proof fn lemma_deposit_withdraw_net_zero(
    m: PoolModel,
    user: Seq<char>,
    asset: Seq<char>,
    amount: i128,
    deposit_time: u64,
    withdraw_time: u64,
)
    requires
        m.valid(),
        m.solvent(),
        m.deposit_outcome(user, asset, amount) is Ok,
    ensures
        ({
            let m1 = m.deposit_state(user, asset, amount, deposit_time);
            let m2 = m1.withdraw_state(user, asset, amount, withdraw_time);
            &&& m1.withdraw_outcome(user, asset, amount) == Ok::<i128, LendingError>(amount)
            &&& m2.assets[asset].pool.total_supplied == m.assets[asset].pool.total_supplied
            &&& m2.assets[asset].pool.total_borrowed == m.assets[asset].pool.total_borrowed
            &&& m2.position(user, asset) == m.position(user, asset)
        }),
{
    let m1 = m.deposit_state(user, asset, amount, deposit_time);
    assert(pool_ok(m.assets[asset]));
    if m.positions.contains_key((user, asset)) {
        assert(m.positions_non_negative());
    }
    assert(m1.position(user, asset).supplied_amount == m.position(user, asset).supplied_amount
        + amount);
}

/// A borrow the pool could fund, whose amounts fit in `i128`, is refused
/// with `LiquidationRisk` when the user's health factor with the new debt
/// would fall below 1.0; `borrow` then leaves the pool as it was.
pub proof fn lemma_borrow_refused_below_one(
    m: PoolModel,
    prices: PriceBook,
    user: Seq<char>,
    asset: Seq<char>,
    amount: i128,
    now: u64,
)
    requires
        m.assets.contains_key(asset),
        m.assets[asset].config.is_active,
        0 < amount <= m.assets[asset].pool.total_supplied - m.assets[asset].pool.total_borrowed,
        m.position(user, asset).debt_amount + amount <= i128::MAX,
        (m.assets[asset].pool.total_borrowed + amount) * BPS <= i128::MAX,
        m.with_position(user, asset, m.borrowed_position(user, asset, amount)).account_data(
            prices,
            user,
            now,
        ) matches Ok(d) && d.health_factor < HEALTH_FACTOR_ONE,
    ensures
        m.borrow_outcome(prices, user, asset, amount, now) == Err::<i128, LendingError>(
            LendingError::LiquidationRisk,
        ),
{
}

/// Repaying more than the debt is no error: the whole debt is paid back and
/// reported, the debt becomes zero, and when the pool's borrowed total
/// covers the debt it goes down by exactly the debt.
pub proof fn lemma_repay_overpayment(
    m: PoolModel,
    user: Seq<char>,
    asset: Seq<char>,
    amount: i128,
    now: u64,
)
    requires
        m.valid(),
        amount > m.position(user, asset).debt_amount,
    ensures
        ({
            let debt = m.position(user, asset).debt_amount;
            let m1 = m.repay_state(user, asset, amount, now);
            &&& m.repay_outcome(user, asset, amount) == Ok::<i128, LendingError>(debt)
            &&& m1.position(user, asset).debt_amount == 0
            &&& m.assets.contains_key(asset) && debt <= m.assets[asset].pool.total_borrowed
                ==> m1.assets[asset].pool.total_borrowed == m.assets[asset].pool.total_borrowed
                - debt
        }),
{
    if m.positions.contains_key((user, asset)) {
        assert(m.positions_non_negative());
    }
}

} // verus!

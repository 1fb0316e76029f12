//! The lending pool: asset registry and pool totals, per-user positions,
//! and the operations that move them. Every operation is all or nothing: on
//! `Err` the pool is left as it was.
use vstd::prelude::*;

use crate::model::{configured_state, pool_ok, refreshed, PoolModel};
use crate::oracle::PriceOracle;
use crate::rates::{
    borrow_rate_at, supply_rate_at, utilization_rate, BPS, INITIAL_BORROW_RATE, INITIAL_SUPPLY_RATE,
};
use crate::risk::{
    lemma_totals_frame, lemma_totals_prefix_err, make_snapshot, overlaid, to_price_error, usd,
};
use crate::table::{PairTable, Table};

verus! {

/// Highest loan-to-value ratio and liquidation threshold, in basis points.
pub const MAX_RISK_RATIO: u32 = 9500;

/// Highest reserve factor, in basis points.
pub const MAX_RESERVE_FACTOR: u32 = 5000;

/// Health factor 1.0, in fixed point with seven decimals.
pub const HEALTH_FACTOR_ONE: i128 = 10_000_000;

#[derive(Clone, Copy, Debug, PartialEq, Eq, Structural)]
pub enum LendingError {
    AlreadyInitialized,
    NotInitialized,
    Unauthorized,
    AssetNotConfigured,
    AssetInactive,
    AssetNotCollateralEligible,
    InvalidAmount,
    InvalidConfiguration,
    InsufficientLiquidity,
    InsufficientBalance,
    LiquidationRisk,
    PriceUnavailable,
    PriceStale,
    MathOverflow,
}

/// Risk parameters of one asset; ratios in basis points.
#[derive(Clone, Copy, Debug, PartialEq, Eq, Structural)]
pub struct AssetConfig {
    pub ltv_ratio: u32,
    pub liquidation_threshold: u32,
    pub reserve_factor: u32,
    pub is_active: bool,
    pub is_collateral: bool,
}

/// Liquidity totals and current rates of one asset's pool.
#[derive(Clone, Copy, Debug, PartialEq, Eq, Structural)]
pub struct PoolState {
    pub total_supplied: i128,
    pub total_borrowed: i128,
    /// Borrowed share of supplied liquidity, basis points.
    pub utilization_rate: u32,
    /// Fixed point, 10_000_000 = 100%.
    pub borrow_rate: i128,
    /// Fixed point, 10_000_000 = 100%.
    pub supply_rate: i128,
    pub last_update_timestamp: u64,
}

/// What the registry holds for one asset.
#[derive(Clone, Copy, Debug, PartialEq, Eq, Structural)]
pub struct AssetState {
    pub config: AssetConfig,
    pub pool: PoolState,
}

/// One user's holdings in one asset. An absent position is all zeros.
#[derive(Clone, Copy, Debug, PartialEq, Eq, Structural)]
pub struct Position {
    pub collateral_amount: i128,
    pub debt_amount: i128,
    /// Principal the user supplied to the pool and has not withdrawn.
    pub supplied_amount: i128,
}

/// Derived account figures; USD amounts with seven decimals.
#[derive(Clone, Copy, Debug, PartialEq, Eq, Structural)]
pub struct UserAccountData {
    pub total_collateral_usd: i128,
    pub total_debt_usd: i128,
    /// Debt over collateral, basis points.
    pub ltv: u32,
    /// Risk-adjusted collateral over debt, seven decimals; `i128::MAX`
    /// without debt.
    pub health_factor: i128,
}

pub struct LendingPool {
    admin: Option<String>,
    s_token_contract: Option<String>,
    price_oracle: Option<String>,
    assets: Table<AssetState>,
    positions: PairTable<Position>,
}

pub open spec fn opt_view(o: Option<String>) -> Option<Seq<char>> {
    match o {
        Some(s) => Some(s@),
        None => None,
    }
}

impl LendingPool {
    pub closed spec fn view(&self) -> PoolModel {
        PoolModel {
            admin: opt_view(self.admin),
            s_token_contract: opt_view(self.s_token_contract),
            price_oracle: opt_view(self.price_oracle),
            assets: self.assets@,
            asset_order: self.assets.key_seq(),
            positions: self.positions@,
        }
    }

    pub closed spec fn wf(&self) -> bool {
        &&& self.assets.wf()
        &&& self.positions.wf()
        &&& forall|a: Seq<char>| #[trigger] self.assets@.contains_key(a) ==> pool_ok(self.assets@[a])
        &&& self@.positions_non_negative()
    }

    /// Every pool that `new` and the operations produce has non-negative
    /// positions and pools within their bounds, and lists each configured
    /// asset once in its asset order.
    pub proof fn lemma_wf(&self)
        requires
            self.wf(),
        ensures
            self@.valid(),
            self@.asset_order.no_duplicates(),
            forall|i: int|
                0 <= i < self@.asset_order.len() ==> self@.assets.contains_key(
                    #[trigger] self@.asset_order[i],
                ),
            forall|a: Seq<char>| #[trigger]
                self@.assets.contains_key(a) ==> self@.asset_order.contains(a),
    {
        self.assets.lemma_keys();
    }

    /// An uninitialised pool with no assets and no positions.
    pub fn new() -> (p: Self)
        ensures
            p.wf(),
            p@.admin is None,
            p@.s_token_contract is None,
            p@.price_oracle is None,
            p@.assets == Map::<Seq<char>, AssetState>::empty(),
            p@.asset_order == Seq::<Seq<char>>::empty(),
            p@.positions == Map::<(Seq<char>, Seq<char>), Position>::empty(),
            p@.solvent(),
    {
        LendingPool {
            admin: None,
            s_token_contract: None,
            price_oracle: None,
            assets: Table::new(),
            positions: PairTable::new(),
        }
    }

    /// Records the admin and the receipt-token and oracle addresses, once.
    pub fn initialize(
        &mut self,
        admin: &String,
        s_token_contract: &String,
        price_oracle: &String,
    ) -> (r: Result<(), LendingError>)
        requires
            old(self).wf(),
        ensures
            final(self).wf(),
            old(self)@.admin is Some ==> r == Err::<(), LendingError>(
                LendingError::AlreadyInitialized,
            ) && final(self)@ == old(self)@,
            old(self)@.admin is None ==> r is Ok && final(self)@ == (PoolModel {
                admin: Some(admin@),
                s_token_contract: Some(s_token_contract@),
                price_oracle: Some(price_oracle@),
                ..old(self)@
            }),
    {
        if self.admin.is_some() {
            return Err(LendingError::AlreadyInitialized);
        }
        self.admin = Some(admin.clone());
        self.s_token_contract = Some(s_token_contract.clone());
        self.price_oracle = Some(price_oracle.clone());
        Ok(())
    }

    /// Creates or overwrites the configuration of `asset`: admin only, ratios
    /// in bounds. The asset becomes active and collateral-eligible, and its
    /// pool totals restart from zero at the initial rates; positions are
    /// kept.
    pub fn configure_asset(
        &mut self,
        caller: &String,
        asset: &String,
        ltv_ratio: u32,
        liquidation_threshold: u32,
        reserve_factor: u32,
        now: u64,
    ) -> (r: Result<(), LendingError>)
        requires
            old(self).wf(),
        ensures
            final(self).wf(),
            r == old(self)@.configure_outcome(caller@, ltv_ratio, liquidation_threshold, reserve_factor),
            r is Ok ==> final(self)@ == old(self)@.configure_state(
                asset@,
                ltv_ratio,
                liquidation_threshold,
                reserve_factor,
                now,
            ),
            r is Err ==> final(self)@ == old(self)@,
            old(self)@.solvent() ==> final(self)@.solvent(),
    {
        match &self.admin {
            None => {
                return Err(LendingError::NotInitialized);
            },
            Some(a) => {
                if *a != *caller {
                    return Err(LendingError::Unauthorized);
                }
            },
        }
        if ltv_ratio > MAX_RISK_RATIO || liquidation_threshold > MAX_RISK_RATIO || reserve_factor
            > MAX_RESERVE_FACTOR {
            return Err(LendingError::InvalidConfiguration);
        }
        let state = AssetState {
            config: AssetConfig {
                ltv_ratio,
                liquidation_threshold,
                reserve_factor,
                is_active: true,
                is_collateral: true,
            },
            pool: PoolState {
                total_supplied: 0,
                total_borrowed: 0,
                utilization_rate: 0,
                borrow_rate: INITIAL_BORROW_RATE,
                supply_rate: INITIAL_SUPPLY_RATE,
                last_update_timestamp: now,
            },
        };
        self.assets.insert(asset, state);
        assert(final(self)@.assets == old(self)@.configure_state(
            asset@,
            ltv_ratio,
            liquidation_threshold,
            reserve_factor,
            now,
        ).assets);
        Ok(())
    }

    /// Sets the totals of configured `asset` and recomputes its rates.
    fn refresh(&mut self, asset: &String, supplied: i128, borrowed: i128, now: u64)
        requires
            old(self).wf(),
            old(self)@.assets.contains_key(asset@),
            0 <= borrowed,
            0 <= supplied,
            borrowed * BPS <= i128::MAX,
        ensures
            final(self).wf(),
            final(self)@ == old(self)@.with_pool(asset@, refreshed(supplied as int, borrowed as int, now)),
    {
        let st = self.assets.get(asset).unwrap();
        let u = utilization_rate(supplied, borrowed);
        let br = borrow_rate_at(u);
        let sr = supply_rate_at(br, u);
        let pool = PoolState {
            total_supplied: supplied,
            total_borrowed: borrowed,
            utilization_rate: u,
            borrow_rate: br,
            supply_rate: sr,
            last_update_timestamp: now,
        };
        self.assets.insert(asset, AssetState { config: st.config, pool });
        assert(self@.assets =~= old(self)@.with_pool(
            asset@,
            refreshed(supplied as int, borrowed as int, now),
        ).assets);
    }

    /// Writes the position of `user` in `asset`.
    fn put_position(&mut self, user: &String, asset: &String, p: Position)
        requires
            old(self).wf(),
            p.collateral_amount >= 0,
            p.debt_amount >= 0,
            p.supplied_amount >= 0,
        ensures
            final(self).wf(),
            final(self)@ == old(self)@.with_position(user@, asset@, p),
    {
        self.positions.insert(user, asset, p);
    }

    /// Whether `deposit` would accept, without depositing.
    pub fn check_deposit(&self, user: &String, asset: &String, amount: i128) -> (r: Result<
        i128,
        LendingError,
    >)
        requires
            self.wf(),
        ensures
            r == self@.deposit_outcome(user@, asset@, amount),
    {
        let st = match self.assets.get(asset) {
            Some(st) => st,
            None => {
                return Err(LendingError::AssetNotConfigured);
            },
        };
        if !st.config.is_active {
            return Err(LendingError::AssetInactive);
        }
        if amount <= 0 {
            return Err(LendingError::InvalidAmount);
        }
        let pos = self.get_position(user, asset);
        if st.pool.total_supplied.checked_add(amount).is_none()
            || pos.supplied_amount.checked_add(amount).is_none() {
            return Err(LendingError::MathOverflow);
        }
        Ok(amount)
    }

    /// Supplies `amount` of `asset` to the pool. Returns the receipt tokens
    /// to mint for `user`, one per unit supplied.
    pub fn deposit(&mut self, user: &String, asset: &String, amount: i128, now: u64) -> (r: Result<
        i128,
        LendingError,
    >)
        requires
            old(self).wf(),
        ensures
            final(self).wf(),
            r == old(self)@.deposit_outcome(user@, asset@, amount),
            r is Ok ==> final(self)@ == old(self)@.deposit_state(user@, asset@, amount, now),
            r is Err ==> final(self)@ == old(self)@,
            old(self)@.solvent() ==> final(self)@.solvent(),
    {
        self.check_deposit(user, asset, amount)?;
        let st = self.assets.get(asset).unwrap();
        let pos = self.get_position(user, asset);
        self.refresh(asset, st.pool.total_supplied + amount, st.pool.total_borrowed, now);
        self.put_position(
            user,
            asset,
            Position { supplied_amount: pos.supplied_amount + amount, ..pos },
        );
        Ok(amount)
    }

    /// A deposit made on behalf of `user` for a cross-chain transfer, with
    /// the same checks and effects as `deposit`. Returns the mint request:
    /// `lock_id`, which names the lock on the other chain that the mint
    /// answers, and the receipt tokens to mint.
    pub fn bridge_deposit(
        &mut self,
        user: &String,
        asset: &String,
        amount: i128,
        lock_id: u64,
        now: u64,
    ) -> (r: Result<(u64, i128), LendingError>)
        requires
            old(self).wf(),
        ensures
            final(self).wf(),
            r == (match old(self)@.deposit_outcome(user@, asset@, amount) {
                Ok(minted) => Ok((lock_id, minted)),
                Err(e) => Err(e),
            }),
            r is Ok ==> final(self)@ == old(self)@.deposit_state(user@, asset@, amount, now),
            r is Err ==> final(self)@ == old(self)@,
            old(self)@.solvent() ==> final(self)@.solvent(),
    {
        let minted = self.deposit(user, asset, amount, now)?;
        Ok((lock_id, minted))
    }

    /// Changes the ratios of a configured asset without touching its pool;
    /// admin only, ratios in bounds.
    pub fn update_risk_params(
        &mut self,
        caller: &String,
        asset: &String,
        ltv_ratio: u32,
        liquidation_threshold: u32,
        reserve_factor: u32,
    ) -> (r: Result<(), LendingError>)
        requires
            old(self).wf(),
        ensures
            final(self).wf(),
            r == old(self)@.risk_params_outcome(
                caller@,
                asset@,
                ltv_ratio,
                liquidation_threshold,
                reserve_factor,
            ),
            r is Ok ==> final(self)@ == old(self)@.risk_params_state(
                asset@,
                ltv_ratio,
                liquidation_threshold,
                reserve_factor,
            ),
            r is Err ==> final(self)@ == old(self)@,
            old(self)@.solvent() ==> final(self)@.solvent(),
    {
        match &self.admin {
            None => {
                return Err(LendingError::NotInitialized);
            },
            Some(a) => {
                if *a != *caller {
                    return Err(LendingError::Unauthorized);
                }
            },
        }
        if ltv_ratio > MAX_RISK_RATIO || liquidation_threshold > MAX_RISK_RATIO || reserve_factor
            > MAX_RESERVE_FACTOR {
            return Err(LendingError::InvalidConfiguration);
        }
        let st = match self.assets.get(asset) {
            Some(st) => st,
            None => {
                return Err(LendingError::AssetNotConfigured);
            },
        };
        let config = AssetConfig {
            ltv_ratio,
            liquidation_threshold,
            reserve_factor,
            is_active: st.config.is_active,
            is_collateral: st.config.is_collateral,
        };
        self.assets.insert(asset, AssetState { config, pool: st.pool });
        assert(self@ == old(self)@.risk_params_state(
            asset@,
            ltv_ratio,
            liquidation_threshold,
            reserve_factor,
        ));
        Ok(())
    }

    /// Turns lending and borrowing of a configured asset on or off, and its
    /// use as collateral; admin only.
    pub fn set_asset_status(
        &mut self,
        caller: &String,
        asset: &String,
        is_active: bool,
        is_collateral: bool,
    ) -> (r: Result<(), LendingError>)
        requires
            old(self).wf(),
        ensures
            final(self).wf(),
            r == old(self)@.status_outcome(caller@, asset@),
            r is Ok ==> final(self)@ == old(self)@.status_state(asset@, is_active, is_collateral),
            r is Err ==> final(self)@ == old(self)@,
            old(self)@.solvent() ==> final(self)@.solvent(),
    {
        match &self.admin {
            None => {
                return Err(LendingError::NotInitialized);
            },
            Some(a) => {
                if *a != *caller {
                    return Err(LendingError::Unauthorized);
                }
            },
        }
        let st = match self.assets.get(asset) {
            Some(st) => st,
            None => {
                return Err(LendingError::AssetNotConfigured);
            },
        };
        let config = AssetConfig { is_active, is_collateral, ..st.config };
        self.assets.insert(asset, AssetState { config, pool: st.pool });
        assert(self@ == old(self)@.status_state(asset@, is_active, is_collateral));
        Ok(())
    }

    /// Whether `withdraw` would accept, without withdrawing.
    pub fn check_withdraw(&self, user: &String, asset: &String, amount: i128) -> (r: Result<
        i128,
        LendingError,
    >)
        requires
            self.wf(),
        ensures
            r == self@.withdraw_outcome(user@, asset@, amount),
    {
        let st = match self.assets.get(asset) {
            Some(st) => st,
            None => {
                return Err(LendingError::AssetNotConfigured);
            },
        };
        if !st.config.is_active {
            return Err(LendingError::AssetInactive);
        }
        if amount <= 0 {
            return Err(LendingError::InvalidAmount);
        }
        let pos = self.get_position(user, asset);
        if amount > pos.supplied_amount {
            return Err(LendingError::InsufficientBalance);
        }
        proof {
            self.lemma_wf();
        }
        if amount > st.pool.total_supplied - st.pool.total_borrowed {
            return Err(LendingError::InsufficientLiquidity);
        }
        Ok(amount)
    }

    /// Takes back `amount` of `asset` that `user` supplied, no more than the
    /// pool holds beyond what is lent out. Returns the receipt tokens to
    /// burn, one per unit withdrawn.
    pub fn withdraw(&mut self, user: &String, asset: &String, amount: i128, now: u64) -> (r: Result<
        i128,
        LendingError,
    >)
        requires
            old(self).wf(),
        ensures
            final(self).wf(),
            r == old(self)@.withdraw_outcome(user@, asset@, amount),
            r is Ok ==> final(self)@ == old(self)@.withdraw_state(user@, asset@, amount, now),
            r is Err ==> final(self)@ == old(self)@,
            old(self)@.solvent() ==> final(self)@.solvent(),
    {
        self.check_withdraw(user, asset, amount)?;
        let st = self.assets.get(asset).unwrap();
        let pos = self.get_position(user, asset);
        self.refresh(asset, st.pool.total_supplied - amount, st.pool.total_borrowed, now);
        self.put_position(
            user,
            asset,
            Position { supplied_amount: pos.supplied_amount - amount, ..pos },
        );
        Ok(amount)
    }

    /// Adds `amount` of `asset` to the collateral of `user`.
    pub fn deposit_collateral(&mut self, user: &String, asset: &String, amount: i128) -> (r: Result<
        (),
        LendingError,
    >)
        requires
            old(self).wf(),
        ensures
            final(self).wf(),
            r == old(self)@.deposit_collateral_outcome(user@, asset@, amount),
            r is Ok ==> final(self)@ == old(self)@.deposit_collateral_state(user@, asset@, amount),
            r is Err ==> final(self)@ == old(self)@,
            old(self)@.solvent() ==> final(self)@.solvent(),
    {
        let st = match self.assets.get(asset) {
            Some(st) => st,
            None => {
                return Err(LendingError::AssetNotConfigured);
            },
        };
        if !st.config.is_collateral {
            return Err(LendingError::AssetNotCollateralEligible);
        }
        if amount <= 0 {
            return Err(LendingError::InvalidAmount);
        }
        let pos = self.get_position(user, asset);
        let coll = match pos.collateral_amount.checked_add(amount) {
            Some(v) => v,
            None => {
                return Err(LendingError::MathOverflow);
            },
        };
        self.put_position(user, asset, Position { collateral_amount: coll, ..pos });
        Ok(())
    }

    /// Pays back up to `amount` of the debt of `user` in `asset`; anything
    /// above the debt is ignored. Returns the amount paid back.
    pub fn repay(&mut self, user: &String, asset: &String, amount: i128, now: u64) -> (r: Result<
        i128,
        LendingError,
    >)
        requires
            old(self).wf(),
        ensures
            final(self).wf(),
            r == old(self)@.repay_outcome(user@, asset@, amount),
            r is Ok ==> final(self)@ == old(self)@.repay_state(user@, asset@, amount, now),
            r is Err ==> final(self)@ == old(self)@,
            old(self)@.solvent() ==> final(self)@.solvent(),
    {
        if amount <= 0 {
            return Err(LendingError::InvalidAmount);
        }
        let pos = self.get_position(user, asset);
        let paid = if amount > pos.debt_amount {
            pos.debt_amount
        } else {
            amount
        };
        proof {
            self.lemma_wf();
            if self@.positions.contains_key((user@, asset@)) {
                assert(self@.positions_non_negative());
            }
        }
        self.put_position(user, asset, Position { debt_amount: pos.debt_amount - paid, ..pos });
        match self.assets.get(asset) {
            Some(st) => {
                let left = if st.pool.total_borrowed > paid {
                    st.pool.total_borrowed - paid
                } else {
                    0
                };
                self.refresh(asset, st.pool.total_supplied, left, now);
            },
            None => {},
        }
        Ok(paid)
    }

    /// Totals `(collateral_usd, debt_usd, weighted)` of `user` over every
    /// configured asset, with `over` replacing one of its positions.
    fn account_totals(
        &self,
        oracle: &PriceOracle,
        user: &String,
        now: u64,
        over: Option<(&String, Position)>,
    ) -> (r: Result<(i128, i128, i128), LendingError>)
        requires
            self.wf(),
            oracle.wf(),
            over matches Some((a, p)) ==> p.collateral_amount >= 0 && p.debt_amount >= 0,
        ensures
            ({
                let spec_r = overlaid(self@, user@, over).account_totals(
                    oracle.book(),
                    user@,
                    now,
                    self@.asset_order,
                );
                match r {
                    Ok((c, d, w)) => spec_r == Ok::<(int, int, int), LendingError>(
                        (c as int, d as int, w as int),
                    ) && c >= 0 && d >= 0 && w >= 0,
                    Err(e) => spec_r == Err::<(int, int, int), LendingError>(e),
                }
            }),
    {
        let ghost m = overlaid(self@, user@, over);
        let ghost order = self@.asset_order;
        let mut cu: i128 = 0;
        let mut du: i128 = 0;
        let mut w: i128 = 0;
        let n = self.assets.len();
        let mut i: usize = 0;
        proof {
            self.lemma_wf();
            assert(order.take(0) =~= Seq::<Seq<char>>::empty());
        }
        while i < n
            invariant
                self.wf(),
                oracle.wf(),
                over matches Some((a, p)) ==> p.collateral_amount >= 0 && p.debt_amount >= 0,
                m == overlaid(self@, user@, over),
                order == self@.asset_order,
                n == order.len(),
                i <= n,
                cu >= 0,
                du >= 0,
                w >= 0,
                m.account_totals(oracle.book(), user@, now, order.take(i as int)) == Ok::<
                    (int, int, int),
                    LendingError,
                >((cu as int, du as int, w as int)),
            decreases n - i,
        {
            let k = self.assets.key_at(i);
            let st = self.assets.value_at(i);
            let mut pos = self.get_position(user, k);
            match over {
                Some((a, p)) => {
                    if *a == *k {
                        pos = p;
                    }
                },
                None => {},
            }
            proof {
                self.lemma_wf();
                assert(order.take(i + 1).drop_last() =~= order.take(i as int));
                assert(order.take(i + 1).last() == order[i as int]);
                assert(m.position(user@, k@) == pos);
                assert(m.assets == self@.assets);
                if self@.positions.contains_key((user@, k@)) {
                    assert(self@.positions_non_negative());
                }
            }
            if pos.collateral_amount != 0 || pos.debt_amount != 0 {
                let price = match oracle.get_price(k, now) {
                    Ok(p) => p,
                    Err(e) => {
                        proof {
                            lemma_totals_prefix_err(m, oracle.book(), user@, now, order, i + 1);
                        }
                        return Err(to_price_error(e));
                    },
                };
                let c = match usd(pos.collateral_amount, price) {
                    Some(v) => v,
                    None => {
                        proof {
                            lemma_totals_prefix_err(m, oracle.book(), user@, now, order, i + 1);
                        }
                        return Err(LendingError::MathOverflow);
                    },
                };
                let d = match usd(pos.debt_amount, price) {
                    Some(v) => v,
                    None => {
                        proof {
                            lemma_totals_prefix_err(m, oracle.book(), user@, now, order, i + 1);
                        }
                        return Err(LendingError::MathOverflow);
                    },
                };
                let lt = st.config.liquidation_threshold as i128;
                let cw = match c.checked_mul(lt) {
                    Some(v) => v,
                    None => {
                        proof {
                            lemma_totals_prefix_err(m, oracle.book(), user@, now, order, i + 1);
                        }
                        return Err(LendingError::MathOverflow);
                    },
                };
                assert(c * lt >= 0) by (nonlinear_arith)
                    requires
                        c >= 0,
                        lt >= 0,
                ;
                cu = match cu.checked_add(c) {
                    Some(v) => v,
                    None => {
                        proof {
                            lemma_totals_prefix_err(m, oracle.book(), user@, now, order, i + 1);
                        }
                        return Err(LendingError::MathOverflow);
                    },
                };
                du = match du.checked_add(d) {
                    Some(v) => v,
                    None => {
                        proof {
                            lemma_totals_prefix_err(m, oracle.book(), user@, now, order, i + 1);
                        }
                        return Err(LendingError::MathOverflow);
                    },
                };
                w = match w.checked_add(cw) {
                    Some(v) => v,
                    None => {
                        proof {
                            lemma_totals_prefix_err(m, oracle.book(), user@, now, order, i + 1);
                        }
                        return Err(LendingError::MathOverflow);
                    },
                };
            }
            i += 1;
        }
        proof {
            assert(order.take(n as int) =~= order);
        }
        Ok((cu, du, w))
    }

    /// Collateral and debt of `user` in USD over every configured asset,
    /// at the oracle's checked prices, with the resulting loan-to-value
    /// ratio and health factor.
    pub fn get_user_account_data(&self, oracle: &PriceOracle, user: &String, now: u64) -> (r: Result<
        UserAccountData,
        LendingError,
    >)
        requires
            self.wf(),
            oracle.wf(),
        ensures
            r == self@.account_data(oracle.book(), user@, now),
    {
        let (cu, du, w) = self.account_totals(oracle, user, now, None)?;
        make_snapshot(cu, du, w)
    }

    /// Lends `amount` of `asset` to `user`, provided the pool has the
    /// liquidity and the user's health factor after the loan is at least 1.
    pub fn borrow(
        &mut self,
        oracle: &PriceOracle,
        user: &String,
        asset: &String,
        amount: i128,
        now: u64,
    ) -> (r: Result<i128, LendingError>)
        requires
            old(self).wf(),
            oracle.wf(),
        ensures
            final(self).wf(),
            r == old(self)@.borrow_outcome(oracle.book(), user@, asset@, amount, now),
            r is Ok ==> final(self)@ == old(self)@.borrow_state(user@, asset@, amount, now),
            r is Err ==> final(self)@ == old(self)@,
            r is Ok ==> (final(self)@.account_data(oracle.book(), user@, now) matches Ok(d)
                && d.health_factor >= HEALTH_FACTOR_ONE),
            old(self)@.solvent() ==> final(self)@.solvent(),
    {
        let st = match self.assets.get(asset) {
            Some(st) => st,
            None => {
                return Err(LendingError::AssetNotConfigured);
            },
        };
        if !st.config.is_active {
            return Err(LendingError::AssetInactive);
        }
        if amount <= 0 {
            return Err(LendingError::InvalidAmount);
        }
        proof {
            self.lemma_wf();
        }
        if amount > st.pool.total_supplied - st.pool.total_borrowed {
            return Err(LendingError::InsufficientLiquidity);
        }
        let pos = self.get_position(user, asset);
        proof {
            if self@.positions.contains_key((user@, asset@)) {
                assert(self@.positions_non_negative());
            }
        }
        let debt = match pos.debt_amount.checked_add(amount) {
            Some(v) => v,
            None => {
                return Err(LendingError::MathOverflow);
            },
        };
        let borrowed = st.pool.total_borrowed + amount;
        if borrowed > i128::MAX / BPS {
            return Err(LendingError::MathOverflow);
        }
        let projected = Position { debt_amount: debt, ..pos };
        let (cu, du, w) = self.account_totals(oracle, user, now, Some((asset, projected)))?;
        let data = make_snapshot(cu, du, w)?;
        if data.health_factor < HEALTH_FACTOR_ONE {
            return Err(LendingError::LiquidationRisk);
        }
        self.put_position(user, asset, projected);
        self.refresh(asset, st.pool.total_supplied, borrowed, now);
        proof {
            let mid = old(self)@.with_position(user@, asset@, projected);
            assert forall|i: int| 0 <= i < self@.asset_order.len() implies self@.assets[#[trigger] self@.asset_order[i]].config.liquidation_threshold
                == mid.assets[self@.asset_order[i]].config.liquidation_threshold by {}
            lemma_totals_frame(self@, mid, oracle.book(), user@, now, self@.asset_order);
        }
        Ok(amount)
    }

    /// Most `user` may borrow, in USD, against its collateral in
    /// `collateral_asset`: the collateral's value times that asset's
    /// loan-to-value ratio; 0 without collateral.
    pub fn calculate_max_borrow(
        &self,
        oracle: &PriceOracle,
        user: &String,
        collateral_asset: &String,
        borrow_asset: &String,
        now: u64,
    ) -> (r: Result<i128, LendingError>)
        requires
            self.wf(),
            oracle.wf(),
        ensures
            r == self@.max_borrow_outcome(oracle.book(), user@, collateral_asset@, now),
    {
        let c = self.get_user_collateral(user, collateral_asset);
        if c == 0 {
            return Ok(0);
        }
        proof {
            if self@.positions.contains_key((user@, collateral_asset@)) {
                assert(self@.positions_non_negative());
            }
        }
        let st = match self.assets.get(collateral_asset) {
            Some(st) => st,
            None => {
                return Err(LendingError::AssetNotConfigured);
            },
        };
        let price = match oracle.get_price(collateral_asset, now) {
            Ok(p) => p,
            Err(e) => {
                return Err(to_price_error(e));
            },
        };
        let cu = match usd(c, price) {
            Some(v) => v,
            None => {
                return Err(LendingError::MathOverflow);
            },
        };
        let ltv = st.config.ltv_ratio as i128;
        match cu.checked_mul(ltv) {
            None => Err(LendingError::MathOverflow),
            Some(scaled) => Ok(scaled / BPS),
        }
    }

    /// Whether the debt of `user` in `borrow_asset` is covered by its
    /// collateral in `collateral_asset` at that collateral's liquidation
    /// threshold. True without debt; false with debt and no collateral.
    pub fn is_position_healthy(
        &self,
        oracle: &PriceOracle,
        user: &String,
        collateral_asset: &String,
        borrow_asset: &String,
        now: u64,
    ) -> (r: Result<bool, LendingError>)
        requires
            self.wf(),
            oracle.wf(),
        ensures
            r == self@.healthy_outcome(oracle.book(), user@, collateral_asset@, borrow_asset@, now),
    {
        let d = self.get_user_borrow(user, borrow_asset);
        if d == 0 {
            return Ok(true);
        }
        let c = self.get_user_collateral(user, collateral_asset);
        if c == 0 {
            return Ok(false);
        }
        proof {
            if self@.positions.contains_key((user@, collateral_asset@)) {
                assert(self@.positions_non_negative());
            }
            if self@.positions.contains_key((user@, borrow_asset@)) {
                assert(self@.positions_non_negative());
            }
        }
        let st = match self.assets.get(collateral_asset) {
            Some(st) => st,
            None => {
                return Err(LendingError::AssetNotConfigured);
            },
        };
        let pb = match oracle.get_price(borrow_asset, now) {
            Ok(p) => p,
            Err(e) => {
                return Err(to_price_error(e));
            },
        };
        let pc = match oracle.get_price(collateral_asset, now) {
            Ok(p) => p,
            Err(e) => {
                return Err(to_price_error(e));
            },
        };
        let du = match usd(d, pb) {
            Some(v) => v,
            None => {
                return Err(LendingError::MathOverflow);
            },
        };
        let cu = match usd(c, pc) {
            Some(v) => v,
            None => {
                return Err(LendingError::MathOverflow);
            },
        };
        let lt = st.config.liquidation_threshold as i128;
        match cu.checked_mul(lt) {
            None => Err(LendingError::MathOverflow),
            Some(scaled) => Ok(du <= scaled / BPS),
        }
    }

    /// The configuration of `asset`.
    pub fn get_asset_config(&self, asset: &String) -> (r: Result<AssetConfig, LendingError>)
        requires
            self.wf(),
        ensures
            r == (if self@.assets.contains_key(asset@) {
                Ok(self@.assets[asset@].config)
            } else {
                Err(LendingError::AssetNotConfigured)
            }),
    {
        match self.assets.get(asset) {
            Some(st) => Ok(st.config),
            None => Err(LendingError::AssetNotConfigured),
        }
    }

    /// `(total_supplied, total_borrowed, utilization_rate)` of `asset`,
    /// zeros when it is not configured.
    pub fn get_pool_info(&self, asset: &String) -> (r: (i128, i128, u32))
        requires
            self.wf(),
        ensures
            r == self@.pool_info(asset@),
    {
        match self.assets.get(asset) {
            Some(st) => (st.pool.total_supplied, st.pool.total_borrowed, st.pool.utilization_rate),
            None => (0, 0, 0),
        }
    }

    /// The position of `user` in `asset`, zeros when there is none.
    pub fn get_position(&self, user: &String, asset: &String) -> (p: Position)
        requires
            self.wf(),
        ensures
            p == self@.position(user@, asset@),
    {
        match self.positions.get(user, asset) {
            Some(p) => p,
            None => Position { collateral_amount: 0, debt_amount: 0, supplied_amount: 0 },
        }
    }

    /// Collateral `user` holds in `asset`.
    pub fn get_user_collateral(&self, user: &String, asset: &String) -> (r: i128)
        requires
            self.wf(),
        ensures
            r == self@.position(user@, asset@).collateral_amount,
    {
        self.get_position(user, asset).collateral_amount
    }

    /// Debt `user` owes in `asset`.
    pub fn get_user_borrow(&self, user: &String, asset: &String) -> (r: i128)
        requires
            self.wf(),
        ensures
            r == self@.position(user@, asset@).debt_amount,
    {
        self.get_position(user, asset).debt_amount
    }
}

} // verus!

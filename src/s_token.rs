//! Receipt-token ledger: balances of the tokens that stand for shares of
//! the pooled liquidity, minted and burned only by the lending pool, and
//! their exchange rate against the underlying asset.
use vstd::prelude::*;

use crate::table::Table;

verus! {

/// Exchange rate 1.0, in fixed point with seven decimals.
pub const RATE_UNIT: i128 = 10_000_000;

#[derive(Clone, Copy, Debug, PartialEq, Eq, Structural)]
pub enum TokenError {
    AlreadyInitialized,
    NotInitialized,
    Unauthorized,
    InvalidAmount,
    InsufficientBalance,
    InvalidExchangeRate,
    MathOverflow,
}

/// Sum of the values of `m` under `keys`.
pub open spec fn sum_over(m: Map<Seq<char>, i128>, keys: Seq<Seq<char>>) -> int
    decreases keys.len(),
{
    if keys.len() == 0 {
        0
    } else {
        sum_over(m, keys.drop_last()) + m[keys.last()]
    }
}

/// Changing a value under a key not in `keys` leaves the sum alone.
proof fn lemma_sum_other(m: Map<Seq<char>, i128>, keys: Seq<Seq<char>>, k: Seq<char>, v: i128)
    requires
        !keys.contains(k),
    ensures
        sum_over(m.insert(k, v), keys) == sum_over(m, keys),
    decreases keys.len(),
{
    if keys.len() > 0 {
        assert(keys.drop_last().contains(k) ==> keys.contains(k));
        lemma_sum_other(m, keys.drop_last(), k, v);
        assert(keys.last() == keys[keys.len() - 1]);
    }
}

/// Replacing the value under a listed key moves the sum by the difference.
proof fn lemma_sum_update(m: Map<Seq<char>, i128>, keys: Seq<Seq<char>>, k: Seq<char>, v: i128)
    requires
        keys.no_duplicates(),
        keys.contains(k),
    ensures
        sum_over(m.insert(k, v), keys) == sum_over(m, keys) - m[k] + v,
    decreases keys.len(),
{
    let rest = keys.drop_last();
    assert(rest.no_duplicates());
    if keys.last() == k {
        assert(!rest.contains(k)) by {
            if rest.contains(k) {
                let i = choose|i: int| 0 <= i < rest.len() && rest[i] == k;
                assert(keys[i] == keys[keys.len() - 1]);
            }
        }
        lemma_sum_other(m, rest, k, v);
    } else {
        let i = choose|i: int| 0 <= i < keys.len() && keys[i] == k;
        assert(rest[i] == k);
        lemma_sum_update(m, rest, k, v);
    }
}

/// With no negative values, no listed value exceeds the sum.
proof fn lemma_sum_bounds(m: Map<Seq<char>, i128>, keys: Seq<Seq<char>>, k: Seq<char>)
    requires
        forall|i: int| 0 <= i < keys.len() ==> m[#[trigger] keys[i]] >= 0,
    ensures
        sum_over(m, keys) >= 0,
        keys.contains(k) ==> m[k] <= sum_over(m, keys),
    decreases keys.len(),
{
    if keys.len() > 0 {
        let rest = keys.drop_last();
        assert forall|i: int| 0 <= i < rest.len() implies m[#[trigger] rest[i]] >= 0 by {
            assert(rest[i] == keys[i]);
        }
        lemma_sum_bounds(m, rest, k);
        assert(m[keys[keys.len() - 1]] >= 0);
        if keys.contains(k) && keys.last() != k {
            let i = choose|i: int| 0 <= i < keys.len() && keys[i] == k;
            assert(rest[i] == k);
        }
    }
}

pub struct SToken {
    admin: Option<String>,
    lending_pool: String,
    underlying_asset: String,
    name: String,
    symbol: String,
    decimals: u32,
    total_supply: i128,
    balances: Table<i128>,
    exchange_rate: i128,
}

impl SToken {
    pub closed spec fn initialized(&self) -> bool {
        self.admin is Some
    }

    /// The account allowed to mint, burn and set the rate.
    pub closed spec fn lending_pool_view(&self) -> Seq<char> {
        self.lending_pool@
    }

    pub closed spec fn balances_view(&self) -> Map<Seq<char>, i128> {
        self.balances@
    }

    pub closed spec fn supply_view(&self) -> i128 {
        self.total_supply
    }

    pub closed spec fn rate_view(&self) -> i128 {
        self.exchange_rate
    }

    pub closed spec fn metadata_view(&self) -> (Seq<char>, Seq<char>, u32, Seq<char>) {
        (self.name@, self.symbol@, self.decimals, self.underlying_asset@)
    }

    /// The balance of `who`, zero when it never held any.
    pub open spec fn balance_of(&self, who: Seq<char>) -> i128 {
        if self.balances_view().contains_key(who) {
            self.balances_view()[who]
        } else {
            0
        }
    }

    /// What `mint` answers when `caller` asks for `amount` new tokens.
    pub open spec fn mint_outcome(&self, caller: Seq<char>, amount: i128) -> Result<(), TokenError> {
        if !self.initialized() {
            Err(TokenError::NotInitialized)
        } else if self.lending_pool_view() != caller {
            Err(TokenError::Unauthorized)
        } else if amount <= 0 {
            Err(TokenError::InvalidAmount)
        } else if self.supply_view() + amount > i128::MAX {
            Err(TokenError::MathOverflow)
        } else {
            Ok(())
        }
    }

    /// What `burn` answers when `caller` asks to destroy `amount` of the
    /// tokens of `from`.
    pub open spec fn burn_outcome(&self, caller: Seq<char>, from: Seq<char>, amount: i128) -> Result<
        (),
        TokenError,
    > {
        if !self.initialized() {
            Err(TokenError::NotInitialized)
        } else if self.lending_pool_view() != caller {
            Err(TokenError::Unauthorized)
        } else if amount <= 0 {
            Err(TokenError::InvalidAmount)
        } else if self.balance_of(from) < amount {
            Err(TokenError::InsufficientBalance)
        } else {
            Ok(())
        }
    }

    pub closed spec fn wf(&self) -> bool {
        &&& self.balances.wf()
        &&& self.exchange_rate > 0
        &&& forall|k: Seq<char>| #[trigger] self.balances@.contains_key(k) ==> self.balances@[k] >= 0
        &&& self.total_supply == sum_over(self.balances@, self.balances.key_seq())
        &&& self.admin is None ==> self.total_supply == 0
    }

    /// The exchange rate is positive, no balance is negative, and the total
    /// supply, being the sum of all balances, is at least any one of them.
    pub proof fn lemma_wf(&self)
        requires
            self.wf(),
        ensures
            self.rate_view() > 0,
            self.supply_view() >= 0,
            forall|k: Seq<char>| 0 <= #[trigger] self.balance_of(k) <= self.supply_view(),
    {
        self.balances.lemma_keys();
        let keys = self.balances.key_seq();
        assert forall|i: int| 0 <= i < keys.len() implies self.balances@[#[trigger] keys[i]] >= 0 by {
            assert(self.balances@.contains_key(keys[i]));
        }
        lemma_sum_bounds(self.balances@, keys, Seq::empty());
        assert forall|k: Seq<char>| 0 <= #[trigger] self.balance_of(k) <= self.supply_view() by {
            lemma_sum_bounds(self.balances@, keys, k);
        }
    }

    /// Stores `v` as the balance of `who` and moves the supply to match.
    fn set_balance(&mut self, who: &String, v: i128, supply: i128)
        requires
            old(self).wf(),
            old(self).initialized(),
            v >= 0,
            supply == old(self).total_supply - old(self).balance_of(who@) + v,
        ensures
            final(self).wf(),
            final(self).balances_view() == old(self).balances_view().insert(who@, v),
            final(self).supply_view() == supply,
            final(self).initialized() == old(self).initialized(),
            final(self).lending_pool_view() == old(self).lending_pool_view(),
            final(self).metadata_view() == old(self).metadata_view(),
            final(self).rate_view() == old(self).rate_view(),
    {
        proof {
            self.balances.lemma_keys();
            let keys = self.balances.key_seq();
            if self.balances@.contains_key(who@) {
                lemma_sum_update(self.balances@, keys, who@, v);
            } else {
                lemma_sum_other(self.balances@, keys, who@, v);
                let pushed = keys.push(who@);
                assert(pushed.drop_last() =~= keys);
            }
        }
        self.balances.insert(who, v);
        self.total_supply = supply;
    }

    /// A ledger not yet initialised: no balances, rate 1.0.
    pub fn new() -> (t: Self)
        ensures
            t.wf(),
            !t.initialized(),
            t.supply_view() == 0,
            t.rate_view() == RATE_UNIT,
            t.balances_view() == Map::<Seq<char>, i128>::empty(),
    {
        SToken {
            admin: None,
            lending_pool: String::new(),
            underlying_asset: String::new(),
            name: String::new(),
            symbol: String::new(),
            decimals: 0,
            total_supply: 0,
            balances: Table::new(),
            exchange_rate: RATE_UNIT,
        }
    }

    /// Sets the admin, the lending pool, the underlying asset and the
    /// metadata, once; supply starts at zero and the rate at 1.0.
    pub fn initialize(
        &mut self,
        admin: &String,
        lending_pool: &String,
        underlying_asset: &String,
        name: &String,
        symbol: &String,
        decimals: u32,
    ) -> (r: Result<(), TokenError>)
        requires
            old(self).wf(),
        ensures
            final(self).wf(),
            old(self).initialized() ==> r == Err::<(), TokenError>(TokenError::AlreadyInitialized)
                && *final(self) == *old(self),
            !old(self).initialized() ==> r is Ok && final(self).initialized()
                && final(self).lending_pool_view() == lending_pool@ && final(self).metadata_view() == (
            name@, symbol@, decimals, underlying_asset@) && final(self).supply_view() == 0
                && final(self).rate_view() == RATE_UNIT && final(self).balances_view() == old(
                self,
            ).balances_view(),
    {
        if self.admin.is_some() {
            return Err(TokenError::AlreadyInitialized);
        }
        self.admin = Some(admin.clone());
        self.lending_pool = lending_pool.clone();
        self.underlying_asset = underlying_asset.clone();
        self.name = name.clone();
        self.symbol = symbol.clone();
        self.decimals = decimals;
        self.exchange_rate = RATE_UNIT;
        Ok(())
    }

    /// Checks that the ledger is initialised and `caller` is the lending pool.
    fn authorize(&self, caller: &String) -> (r: Result<(), TokenError>)
        ensures
            r == (if !self.initialized() {
                Err(TokenError::NotInitialized)
            } else if self.lending_pool_view() != caller@ {
                Err(TokenError::Unauthorized)
            } else {
                Ok(())
            }),
    {
        if self.admin.is_none() {
            return Err(TokenError::NotInitialized);
        }
        if self.lending_pool != *caller {
            return Err(TokenError::Unauthorized);
        }
        Ok(())
    }

    /// Whether `mint` would accept, without minting.
    pub fn check_mint(&self, caller: &String, amount: i128) -> (r: Result<(), TokenError>)
        requires
            self.wf(),
        ensures
            r == self.mint_outcome(caller@, amount),
    {
        self.authorize(caller)?;
        if amount <= 0 {
            return Err(TokenError::InvalidAmount);
        }
        if self.total_supply.checked_add(amount).is_none() {
            return Err(TokenError::MathOverflow);
        }
        Ok(())
    }

    /// Whether `burn` would accept, without burning.
    pub fn check_burn(&self, caller: &String, from: &String, amount: i128) -> (r: Result<
        (),
        TokenError,
    >)
        requires
            self.wf(),
        ensures
            r == self.burn_outcome(caller@, from@, amount),
    {
        self.authorize(caller)?;
        if amount <= 0 {
            return Err(TokenError::InvalidAmount);
        }
        if self.balance(from) < amount {
            return Err(TokenError::InsufficientBalance);
        }
        Ok(())
    }

    /// Creates `amount` tokens for `to`; lending pool only.
    pub fn mint(&mut self, caller: &String, to: &String, amount: i128) -> (r: Result<(), TokenError>)
        requires
            old(self).wf(),
        ensures
            final(self).wf(),
            final(self).initialized() == old(self).initialized(),
            final(self).lending_pool_view() == old(self).lending_pool_view(),
            final(self).metadata_view() == old(self).metadata_view(),
            final(self).rate_view() == old(self).rate_view(),
            r == old(self).mint_outcome(caller@, amount),
            r is Ok ==> final(self).balances_view() == old(self).balances_view().insert(
                to@,
                (old(self).balance_of(to@) + amount) as i128,
            ) && final(self).supply_view() == old(self).supply_view() + amount,
            r is Err ==> *final(self) == *old(self),
    {
        self.authorize(caller)?;
        if amount <= 0 {
            return Err(TokenError::InvalidAmount);
        }
        let supply = match self.total_supply.checked_add(amount) {
            Some(v) => v,
            None => {
                return Err(TokenError::MathOverflow);
            },
        };
        let bal = self.balance(to);
        proof {
            self.lemma_wf();
        }
        self.set_balance(to, bal + amount, supply);
        Ok(())
    }

    /// Destroys `amount` tokens of `from`; lending pool only, and no more
    /// than `from` holds.
    pub fn burn(&mut self, caller: &String, from: &String, amount: i128) -> (r: Result<(), TokenError>)
        requires
            old(self).wf(),
        ensures
            final(self).wf(),
            final(self).initialized() == old(self).initialized(),
            final(self).lending_pool_view() == old(self).lending_pool_view(),
            final(self).metadata_view() == old(self).metadata_view(),
            final(self).rate_view() == old(self).rate_view(),
            r == old(self).burn_outcome(caller@, from@, amount),
            r is Ok ==> final(self).balances_view() == old(self).balances_view().insert(
                from@,
                (old(self).balance_of(from@) - amount) as i128,
            ) && final(self).supply_view() == old(self).supply_view() - amount,
            r is Err ==> *final(self) == *old(self),
    {
        self.authorize(caller)?;
        if amount <= 0 {
            return Err(TokenError::InvalidAmount);
        }
        let bal = self.balance(from);
        if bal < amount {
            return Err(TokenError::InsufficientBalance);
        }
        proof {
            self.lemma_wf();
        }
        self.set_balance(from, bal - amount, self.total_supply - amount);
        Ok(())
    }

    /// Tokens held by `id`.
    pub fn balance(&self, id: &String) -> (r: i128)
        requires
            self.wf(),
        ensures
            r == self.balance_of(id@),
    {
        match self.balances.get(id) {
            Some(b) => b,
            None => 0,
        }
    }

    pub fn total_supply(&self) -> (r: i128)
        ensures
            r == self.supply_view(),
    {
        self.total_supply
    }

    pub fn name(&self) -> (r: String)
        ensures
            r@ == self.metadata_view().0,
    {
        self.name.clone()
    }

    pub fn symbol(&self) -> (r: String)
        ensures
            r@ == self.metadata_view().1,
    {
        self.symbol.clone()
    }

    pub fn decimals(&self) -> (r: u32)
        ensures
            r == self.metadata_view().2,
    {
        self.decimals
    }

    pub fn underlying_asset(&self) -> (r: String)
        ensures
            r@ == self.metadata_view().3,
    {
        self.underlying_asset.clone()
    }

    /// Sets how much underlying one token is worth, seven decimals; lending
    /// pool only, and positive.
    pub fn update_exchange_rate(&mut self, caller: &String, new_rate: i128) -> (r: Result<
        (),
        TokenError,
    >)
        requires
            old(self).wf(),
        ensures
            final(self).wf(),
            r == (if !old(self).initialized() {
                Err(TokenError::NotInitialized)
            } else if old(self).lending_pool_view() != caller@ {
                Err(TokenError::Unauthorized)
            } else if new_rate <= 0 {
                Err(TokenError::InvalidExchangeRate)
            } else {
                Ok(())
            }),
            r is Ok ==> final(self).rate_view() == new_rate,
            r is Ok ==> final(self).balances_view() == old(self).balances_view()
                && final(self).supply_view() == old(self).supply_view()
                && final(self).initialized() == old(self).initialized()
                && final(self).lending_pool_view() == old(self).lending_pool_view()
                && final(self).metadata_view() == old(self).metadata_view(),
            r is Err ==> *final(self) == *old(self),
    {
        self.authorize(caller)?;
        if new_rate <= 0 {
            return Err(TokenError::InvalidExchangeRate);
        }
        self.exchange_rate = new_rate;
        Ok(())
    }

    pub fn exchange_rate(&self) -> (r: i128)
        ensures
            r == self.rate_view(),
    {
        self.exchange_rate
    }

    /// Underlying worth `s_token_amount` tokens at the current rate.
    pub fn s_token_to_underlying(&self, s_token_amount: i128) -> (r: Result<i128, TokenError>)
        requires
            self.wf(),
            s_token_amount >= 0,
        ensures
            r == (if s_token_amount * self.rate_view() > i128::MAX {
                Err(TokenError::MathOverflow)
            } else {
                Ok((s_token_amount * self.rate_view() / RATE_UNIT as int) as i128)
            }),
    {
        match s_token_amount.checked_mul(self.exchange_rate) {
            None => Err(TokenError::MathOverflow),
            Some(v) => Ok(v / RATE_UNIT),
        }
    }

    /// Tokens worth `underlying_amount` of the underlying at the current rate.
    pub fn underlying_to_s_token(&self, underlying_amount: i128) -> (r: Result<i128, TokenError>)
        requires
            self.wf(),
            underlying_amount >= 0,
        ensures
            r == (if underlying_amount * RATE_UNIT > i128::MAX {
                Err(TokenError::MathOverflow)
            } else {
                Ok((underlying_amount * RATE_UNIT / self.rate_view() as int) as i128)
            }),
    {
        match underlying_amount.checked_mul(RATE_UNIT) {
            None => Err(TokenError::MathOverflow),
            Some(v) => Ok(v / self.exchange_rate),
        }
    }
}

} // verus!

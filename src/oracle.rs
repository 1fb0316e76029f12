//! Price oracle: USD prices per asset symbol, in fixed point with seven
//! decimals, each stamped with the time it was set.
use vstd::prelude::*;

use crate::table::Table;

verus! {

/// One unit in fixed point with seven decimals.
pub const PRICE_UNIT: i128 = 10_000_000;

/// How long, in seconds, a price stays fresh for `get_price` until the
/// admin sets another window.
pub const PRICE_MAX_AGE: u64 = 3600;

#[derive(Clone, Copy, Debug, PartialEq, Eq, Structural)]
pub struct PriceData {
    /// USD price of one unit of the asset, seven decimals.
    pub price: i128,
    /// When the price was set.
    pub timestamp: u64,
}

#[derive(Clone, Copy, Debug, PartialEq, Eq, Structural)]
pub enum OracleError {
    AlreadyInitialized,
    NotInitialized,
    Unauthorized,
    InvalidPrice,
    LengthMismatch,
    PriceNotSet,
    PriceStale,
    MathOverflow,
}

/// A price set at `data.timestamp` is fresh at `now` for a window of
/// `max_age` seconds.
pub open spec fn is_fresh(data: PriceData, max_age: u64, now: u64) -> bool {
    now <= data.timestamp + max_age
}

/// What the oracle answers checked price reads from: its prices and its
/// freshness window in seconds.
pub struct PriceBook {
    pub prices: Map<Seq<char>, PriceData>,
    pub max_age: u64,
}

/// What a checked price read returns for `asset` at time `now`.
pub open spec fn price_lookup(book: PriceBook, asset: Seq<char>, now: u64) -> Result<
    i128,
    OracleError,
> {
    if !book.prices.contains_key(asset) {
        Err(OracleError::PriceNotSet)
    } else if !is_fresh(book.prices[asset], book.max_age, now) {
        Err(OracleError::PriceStale)
    } else {
        Ok(book.prices[asset].price)
    }
}

/// USD value of `amount` units at `price`, both seven decimals.
pub open spec fn usd_value(amount: int, price: int) -> int {
    amount * price / PRICE_UNIT as int
}

/// Asset units worth `usd` at `price`, both seven decimals.
pub open spec fn asset_amount(usd: int, price: int) -> int {
    usd * PRICE_UNIT as int / price
}

/// The prices seeded by `initialize`: stETH at 1500, XLM at 0.12 and USDC
/// at 1 dollar.
pub open spec fn seeded_prices(now: u64) -> Map<Seq<char>, PriceData> {
    Map::empty().insert("stETH"@, PriceData { price: 1500_0000000, timestamp: now }).insert(
        "XLM"@,
        PriceData { price: 1200000, timestamp: now },
    ).insert("USDC"@, PriceData { price: 1_0000000, timestamp: now })
}

/// `prices` after setting each `assets[i]` to `values[i]`, in order, at `now`.
pub open spec fn with_prices(
    prices: Map<Seq<char>, PriceData>,
    assets: Seq<Seq<char>>,
    values: Seq<i128>,
    now: u64,
) -> Map<Seq<char>, PriceData>
    decreases assets.len(),
{
    if assets.len() == 0 || values.len() == 0 {
        prices
    } else {
        with_prices(prices, assets.drop_last(), values.drop_last(), now).insert(
            assets.last(),
            PriceData { price: values.last(), timestamp: now },
        )
    }
}

pub open spec fn symbols(v: Seq<String>) -> Seq<Seq<char>> {
    v.map_values(|s: String| s@)
}

pub struct PriceOracle {
    admin: Option<String>,
    prices: Table<PriceData>,
    max_age: u64,
}

impl PriceOracle {
    pub closed spec fn admin_view(&self) -> Option<Seq<char>> {
        match self.admin {
            Some(a) => Some(a@),
            None => None,
        }
    }

    pub closed spec fn view(&self) -> Map<Seq<char>, PriceData> {
        self.prices@
    }

    /// How long, in seconds, a price stays fresh for `get_price`.
    pub closed spec fn max_age_view(&self) -> u64 {
        self.max_age
    }

    pub open spec fn book(&self) -> PriceBook {
        PriceBook { prices: self@, max_age: self.max_age_view() }
    }

    pub closed spec fn wf(&self) -> bool {
        &&& self.prices.wf()
        &&& forall|k: Seq<char>| #[trigger] self.prices@.contains_key(k) ==> self.prices@[k].price > 0
    }

    /// An oracle with no admin and no prices.
    pub fn new() -> (o: Self)
        ensures
            o.wf(),
            o.admin_view() is None,
            o@ == Map::<Seq<char>, PriceData>::empty(),
            o.max_age_view() == PRICE_MAX_AGE,
    {
        PriceOracle { admin: None, prices: Table::new(), max_age: PRICE_MAX_AGE }
    }

    /// Records the admin and seeds the default prices, once.
    pub fn initialize(&mut self, admin: &String, now: u64) -> (r: Result<(), OracleError>)
        requires
            old(self).wf(),
        ensures
            final(self).wf(),
            final(self).max_age_view() == old(self).max_age_view(),
            old(self).admin_view() is Some ==> r == Err::<(), OracleError>(
                OracleError::AlreadyInitialized,
            ) && *final(self) == *old(self),
            old(self).admin_view() is None ==> r is Ok && final(self).admin_view() == Some(admin@)
                && final(self)@ == old(self)@.union_prefer_right(seeded_prices(now)),
    {
        if self.admin.is_some() {
            return Err(OracleError::AlreadyInitialized);
        }
        self.admin = Some(admin.clone());
        let steth = String::from_str("stETH");
        let xlm = String::from_str("XLM");
        let usdc = String::from_str("USDC");
        proof {
            reveal_strlit("stETH");
            reveal_strlit("XLM");
            reveal_strlit("USDC");
        }
        self.prices.insert(&steth, PriceData { price: 1500_0000000, timestamp: now });
        self.prices.insert(&xlm, PriceData { price: 1200000, timestamp: now });
        self.prices.insert(&usdc, PriceData { price: 1_0000000, timestamp: now });
        assert(self.prices@ =~= old(self).prices@.union_prefer_right(seeded_prices(now)));
        Ok(())
    }

    /// Checks that `caller` is the admin.
    fn authorize(&self, caller: &String) -> (r: Result<(), OracleError>)
        ensures
            r == (match self.admin_view() {
                None => Err(OracleError::NotInitialized),
                Some(a) => if a == caller@ {
                    Ok(())
                } else {
                    Err(OracleError::Unauthorized)
                },
            }),
    {
        match &self.admin {
            None => Err(OracleError::NotInitialized),
            Some(a) => if *a == *caller {
                Ok(())
            } else {
                Err(OracleError::Unauthorized)
            },
        }
    }

    /// Sets the price of `asset`, stamped `now`; admin only, price positive.
    pub fn set_price(&mut self, caller: &String, asset: &String, price: i128, now: u64) -> (r: Result<
        (),
        OracleError,
    >)
        requires
            old(self).wf(),
        ensures
            final(self).wf(),
            final(self).max_age_view() == old(self).max_age_view(),
            final(self).admin_view() == old(self).admin_view(),
            r == (match old(self).admin_view() {
                None => Err(OracleError::NotInitialized),
                Some(a) => if a != caller@ {
                    Err(OracleError::Unauthorized)
                } else if price <= 0 {
                    Err(OracleError::InvalidPrice)
                } else {
                    Ok(())
                },
            }),
            r is Ok ==> final(self)@ == old(self)@.insert(
                asset@,
                PriceData { price, timestamp: now },
            ),
            r is Err ==> final(self)@ == old(self)@,
    {
        self.authorize(caller)?;
        if price <= 0 {
            return Err(OracleError::InvalidPrice);
        }
        self.prices.insert(asset, PriceData { price, timestamp: now });
        Ok(())
    }
    /// Sets `prices[i]` for each `assets[i]`, all or none: admin only, equal
    /// lengths, every price positive.
    pub fn set_prices(
        &mut self,
        caller: &String,
        assets: &Vec<String>,
        prices: &Vec<i128>,
        now: u64,
    ) -> (r: Result<(), OracleError>)
        requires
            old(self).wf(),
        ensures
            final(self).wf(),
            final(self).max_age_view() == old(self).max_age_view(),
            final(self).admin_view() == old(self).admin_view(),
            r == (match old(self).admin_view() {
                None => Err(OracleError::NotInitialized),
                Some(a) => if a != caller@ {
                    Err(OracleError::Unauthorized)
                } else if assets@.len() != prices@.len() {
                    Err(OracleError::LengthMismatch)
                } else if exists|i: int| 0 <= i < prices@.len() && prices@[i] <= 0 {
                    Err(OracleError::InvalidPrice)
                } else {
                    Ok(())
                },
            }),
            r is Ok ==> final(self)@ == with_prices(old(self)@, symbols(assets@), prices@, now),
            r is Err ==> final(self)@ == old(self)@,
    {
        self.authorize(caller)?;
        if assets.len() != prices.len() {
            return Err(OracleError::LengthMismatch);
        }
        let mut i: usize = 0;
        while i < prices.len()
            invariant
                self.wf(),
                *self == *old(self),
                old(self).admin_view() == Some(caller@),
                assets@.len() == prices@.len(),
                i <= prices@.len(),
                forall|j: int| 0 <= j < i ==> prices@[j] > 0,
            decreases prices@.len() - i,
        {
            if prices[i] <= 0 {
                return Err(OracleError::InvalidPrice);
            }
            i += 1;
        }
        let mut i: usize = 0;
        while i < assets.len()
            invariant
                self.wf(),
                self.admin_view() == old(self).admin_view(),
                self.max_age_view() == old(self).max_age_view(),
                assets@.len() == prices@.len(),
                i <= assets@.len(),
                forall|j: int| 0 <= j < prices@.len() ==> prices@[j] > 0,
                self@ == with_prices(
                    old(self)@,
                    symbols(assets@).take(i as int),
                    prices@.take(i as int),
                    now,
                ),
            decreases assets@.len() - i,
        {
            self.prices.insert(&assets[i], PriceData { price: prices[i], timestamp: now });
            proof {
                let n = i as int;
                assert(symbols(assets@).take(n + 1).drop_last() =~= symbols(assets@).take(n));
                assert(prices@.take(n + 1).drop_last() =~= prices@.take(n));
            }
            i += 1;
        }
        assert(symbols(assets@).take(assets@.len() as int) =~= symbols(assets@));
        assert(prices@.take(prices@.len() as int) =~= prices@);
        Ok(())
    }

    /// Sets how long, in seconds, a price stays fresh for `get_price`;
    /// admin only.
    pub fn set_max_age(&mut self, caller: &String, max_age: u64) -> (r: Result<(), OracleError>)
        requires
            old(self).wf(),
        ensures
            final(self).wf(),
            final(self).admin_view() == old(self).admin_view(),
            final(self)@ == old(self)@,
            r == (match old(self).admin_view() {
                None => Err(OracleError::NotInitialized),
                Some(a) => if a != caller@ {
                    Err(OracleError::Unauthorized)
                } else {
                    Ok(())
                },
            }),
            r is Ok ==> final(self).max_age_view() == max_age,
            r is Err ==> final(self).max_age_view() == old(self).max_age_view(),
    {
        self.authorize(caller)?;
        self.max_age = max_age;
        Ok(())
    }

    /// How long, in seconds, a price stays fresh for `get_price`.
    pub fn max_age(&self) -> (r: u64)
        ensures
            r == self.max_age_view(),
    {
        self.max_age
    }

    /// The price of `asset`, refused when unset or older than the freshness
    /// window.
    pub fn get_price(&self, asset: &String, now: u64) -> (r: Result<i128, OracleError>)
        requires
            self.wf(),
        ensures
            r == price_lookup(self.book(), asset@, now),
            r matches Ok(p) ==> p > 0,
    {
        match self.prices.get(asset) {
            None => Err(OracleError::PriceNotSet),
            Some(data) => {
                if now > data.timestamp && now - data.timestamp > self.max_age {
                    Err(OracleError::PriceStale)
                } else {
                    Ok(data.price)
                }
            },
        }
    }

    /// The price of `asset` whatever its age.
    pub fn get_price_unchecked(&self, asset: &String) -> (r: Result<i128, OracleError>)
        requires
            self.wf(),
        ensures
            r == (if self@.contains_key(asset@) {
                Ok(self@[asset@].price)
            } else {
                Err(OracleError::PriceNotSet)
            }),
    {
        match self.prices.get(asset) {
            None => Err(OracleError::PriceNotSet),
            Some(data) => Ok(data.price),
        }
    }

    /// The checked price of each asset in turn; the first refusal is returned.
    pub fn get_prices(&self, assets: &Vec<String>, now: u64) -> (r: Result<Vec<i128>, OracleError>)
        requires
            self.wf(),
        ensures
            r matches Ok(v) ==> v@.len() == assets@.len() && forall|i: int|
                0 <= i < assets@.len() ==> price_lookup(self.book(), #[trigger] assets@[i]@, now) == Ok::<
                    i128,
                    OracleError,
                >(v@[i]),
            r matches Err(e) ==> exists|i: int|
                0 <= i < assets@.len() && price_lookup(self.book(), #[trigger] assets@[i]@, now) == Err::<
                    i128,
                    OracleError,
                >(e) && forall|j: int| 0 <= j < i ==> price_lookup(self.book(), #[trigger] assets@[j]@, now) is Ok,
    {
        let mut out: Vec<i128> = Vec::new();
        let mut i: usize = 0;
        while i < assets.len()
            invariant
                self.wf(),
                i <= assets@.len(),
                out@.len() == i,
                forall|j: int|
                    0 <= j < i ==> price_lookup(self.book(), #[trigger] assets@[j]@, now) == Ok::<
                        i128,
                        OracleError,
                    >(out@[j]),
            decreases assets@.len() - i,
        {
            let p = self.get_price(&assets[i], now)?;
            out.push(p);
            i += 1;
        }
        Ok(out)
    }

    /// USD value of `amount` units of `asset`, at its checked price.
    pub fn convert_to_usd(&self, asset: &String, amount: i128, now: u64) -> (r: Result<i128, OracleError>)
        requires
            self.wf(),
            amount >= 0,
        ensures
            r == (match price_lookup(self.book(), asset@, now) {
                Err(e) => Err(e),
                Ok(p) => if amount * p > i128::MAX {
                    Err(OracleError::MathOverflow)
                } else {
                    Ok(usd_value(amount as int, p as int) as i128)
                },
            }),
    {
        let price = self.get_price(asset, now)?;
        match amount.checked_mul(price) {
            None => Err(OracleError::MathOverflow),
            Some(v) => Ok(v / PRICE_UNIT),
        }
    }

    /// Units of `asset` worth `usd_amount`, at its checked price.
    pub fn convert_from_usd(&self, asset: &String, usd_amount: i128, now: u64) -> (r: Result<
        i128,
        OracleError,
    >)
        requires
            self.wf(),
            usd_amount >= 0,
        ensures
            r == (match price_lookup(self.book(), asset@, now) {
                Err(e) => Err(e),
                Ok(p) => if usd_amount * PRICE_UNIT > i128::MAX {
                    Err(OracleError::MathOverflow)
                } else {
                    Ok(asset_amount(usd_amount as int, p as int) as i128)
                },
            }),
    {
        let price = self.get_price(asset, now)?;
        match usd_amount.checked_mul(PRICE_UNIT) {
            None => Err(OracleError::MathOverflow),
            Some(v) => Ok(v / price),
        }
    }

    /// When the price of `asset` was last set.
    pub fn get_last_updated(&self, asset: &String) -> (r: Result<u64, OracleError>)
        requires
            self.wf(),
        ensures
            r == (if self@.contains_key(asset@) {
                Ok(self@[asset@].timestamp)
            } else {
                Err(OracleError::PriceNotSet)
            }),
    {
        match self.prices.get(asset) {
            None => Err(OracleError::PriceNotSet),
            Some(data) => Ok(data.timestamp),
        }
    }

    /// Whether a price for `asset` is set and no older than `max_age` at `now`.
    pub fn is_price_fresh(&self, asset: &String, max_age: u64, now: u64) -> (b: bool)
        requires
            self.wf(),
        ensures
            b == (self@.contains_key(asset@) && is_fresh(self@[asset@], max_age, now)),
    {
        match self.prices.get(asset) {
            None => false,
            Some(data) => now <= data.timestamp || now - data.timestamp <= max_age,
        }
    }
}

} // verus!

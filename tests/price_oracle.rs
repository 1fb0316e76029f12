use paralyx_protocol::{OracleError, PriceOracle};

const NOW: u64 = 1_000;

fn s(v: &str) -> String {
    String::from(v)
}

fn oracle_with_admin(admin: &str) -> PriceOracle {
    let mut oracle = PriceOracle::new();
    oracle.initialize(&s(admin), NOW).unwrap();
    oracle
}

#[test]
fn test_oracle_initialize() {
    let mut oracle = PriceOracle::new();
    assert_eq!(oracle.initialize(&s("admin"), NOW), Ok(()));
    assert_eq!(oracle.get_price(&s("stETH"), NOW), Ok(1500_0000000));
    assert_eq!(oracle.get_price(&s("XLM"), NOW), Ok(0_1200000));
    assert_eq!(oracle.get_price(&s("USDC"), NOW), Ok(1_0000000));
}

#[test]
fn test_double_initialize() {
    let mut oracle = oracle_with_admin("admin");
    assert_eq!(oracle.initialize(&s("admin"), NOW), Err(OracleError::AlreadyInitialized));
}

#[test]
fn test_set_and_get_price() {
    let mut oracle = oracle_with_admin("admin");
    let asset = s("stETH");
    let price: i128 = 1500_0000000;
    assert_eq!(oracle.set_price(&s("admin"), &asset, price, NOW + 5), Ok(()));
    assert_eq!(oracle.get_price(&asset, NOW + 5), Ok(price));
    assert!(oracle.get_last_updated(&asset).unwrap() > 0);
    assert_eq!(oracle.get_last_updated(&asset), Ok(NOW + 5));
}

#[test]
fn test_set_negative_price() {
    let mut oracle = oracle_with_admin("admin");
    let asset = s("stETH");
    assert_eq!(
        oracle.set_price(&s("admin"), &asset, -100_0000000, NOW),
        Err(OracleError::InvalidPrice)
    );
    assert_eq!(oracle.get_price(&asset, NOW), Ok(1500_0000000));
}

#[test]
fn test_get_unset_price() {
    let oracle = oracle_with_admin("admin");
    assert_eq!(oracle.get_price(&s("ETH"), NOW), Err(OracleError::PriceNotSet));
}

#[test]
fn test_batch_set_prices() {
    let mut oracle = oracle_with_admin("admin");
    let assets = vec![s("stETH"), s("XLM"), s("USDC")];
    let prices: Vec<i128> = vec![1500_0000000, 0_1200000, 1_0000000];
    assert_eq!(oracle.set_prices(&s("admin"), &assets, &prices, NOW), Ok(()));
    assert_eq!(oracle.get_price(&s("stETH"), NOW), Ok(1500_0000000));
    assert_eq!(oracle.get_price(&s("XLM"), NOW), Ok(0_1200000));
    assert_eq!(oracle.get_price(&s("USDC"), NOW), Ok(1_0000000));
}

#[test]
fn test_batch_set_prices_length_mismatch() {
    let mut oracle = oracle_with_admin("admin");
    let assets = vec![s("stETH")];
    let prices: Vec<i128> = vec![1500_0000000, 0_1200000];
    assert_eq!(
        oracle.set_prices(&s("admin"), &assets, &prices, NOW),
        Err(OracleError::LengthMismatch)
    );
}

#[test]
fn test_price_freshness() {
    let mut oracle = oracle_with_admin("admin");
    let asset = s("stETH");
    let price: i128 = 1500_0000000;
    oracle.set_price(&s("admin"), &asset, price, NOW).unwrap();
    assert!(oracle.is_price_fresh(&asset, 100, NOW));
    assert_eq!(oracle.get_price(&asset, NOW + 100), Ok(price));
}

#[test]
fn test_usd_conversions() {
    let mut oracle = oracle_with_admin("admin");
    let asset = s("stETH");
    oracle.set_price(&s("admin"), &asset, 1500_0000000, NOW).unwrap();
    assert_eq!(oracle.convert_to_usd(&asset, 2_0000000, NOW), Ok(3000_0000000));
    assert_eq!(oracle.convert_from_usd(&asset, 750_0000000, NOW), Ok(0_5000000));
}

#[test]
fn oracle_rejects_stale_prices() {
    let oracle = oracle_with_admin("admin");
    let asset = s("XLM");
    assert_eq!(oracle.get_price(&asset, NOW + 3600), Ok(0_1200000));
    assert_eq!(oracle.get_price(&asset, NOW + 3601), Err(OracleError::PriceStale));
    assert_eq!(oracle.get_price_unchecked(&asset), Ok(0_1200000));
    assert!(!oracle.is_price_fresh(&asset, 100, NOW + 101));
    assert!(oracle.is_price_fresh(&asset, 100, NOW + 100));
    assert!(!oracle.is_price_fresh(&s("ETH"), 100, NOW));
}

#[test]
fn oracle_admin_checks() {
    let mut fresh = PriceOracle::new();
    assert_eq!(fresh.set_price(&s("admin"), &s("XLM"), 1, NOW), Err(OracleError::NotInitialized));
    let mut oracle = oracle_with_admin("admin");
    assert_eq!(oracle.set_price(&s("mallory"), &s("XLM"), 1, NOW), Err(OracleError::Unauthorized));
    assert_eq!(oracle.get_price(&s("XLM"), NOW), Ok(0_1200000));
}

#[test]
fn oracle_batch_is_all_or_nothing() {
    let mut oracle = oracle_with_admin("admin");
    let assets = vec![s("XLM"), s("USDC")];
    let prices: Vec<i128> = vec![2_0000000, 0];
    assert_eq!(oracle.set_prices(&s("admin"), &assets, &prices, NOW), Err(OracleError::InvalidPrice));
    assert_eq!(oracle.get_price(&s("XLM"), NOW), Ok(0_1200000));
}

#[test]
fn oracle_get_prices_in_order() {
    let oracle = oracle_with_admin("admin");
    let assets = vec![s("USDC"), s("stETH")];
    assert_eq!(oracle.get_prices(&assets, NOW), Ok(vec![1_0000000, 1500_0000000]));
    let missing = vec![s("USDC"), s("ETH")];
    assert_eq!(oracle.get_prices(&missing, NOW), Err(OracleError::PriceNotSet));
}

#[test]
fn oracle_conversion_overflow() {
    let oracle = oracle_with_admin("admin");
    assert_eq!(oracle.convert_to_usd(&s("stETH"), i128::MAX / 2, NOW), Err(OracleError::MathOverflow));
}

#[test]
fn oracle_freshness_window_is_configurable() {
    let mut oracle = oracle_with_admin("admin");
    let asset = s("XLM");
    assert_eq!(oracle.max_age(), 3600);
    assert_eq!(oracle.set_max_age(&s("mallory"), 60), Err(OracleError::Unauthorized));
    assert_eq!(oracle.set_max_age(&s("admin"), 60), Ok(()));
    assert_eq!(oracle.max_age(), 60);
    assert_eq!(oracle.get_price(&asset, NOW + 60), Ok(0_1200000));
    assert_eq!(oracle.get_price(&asset, NOW + 61), Err(OracleError::PriceStale));
}

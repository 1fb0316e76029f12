use paralyx_protocol::rates::{borrow_rate_at, supply_rate_at, utilization_rate};
use paralyx_protocol::{LendingError, LendingPool, PriceOracle};

const NOW: u64 = 1_000;

fn s(v: &str) -> String {
    String::from(v)
}

fn setup() -> (LendingPool, PriceOracle) {
    let mut pool = LendingPool::new();
    pool.initialize(&s("admin"), &s("stoken"), &s("oracle")).unwrap();
    let mut oracle = PriceOracle::new();
    oracle.initialize(&s("oracle-admin"), NOW).unwrap();
    (pool, oracle)
}

#[test]
fn rate_model_values() {
    assert_eq!(utilization_rate(1000, 250), 2500);
    assert_eq!(utilization_rate(0, 0), 0);
    assert_eq!(utilization_rate(3, 1), 3333);
    assert_eq!(borrow_rate_at(0), 200_000);
    assert_eq!(borrow_rate_at(2500), 325_000);
    assert_eq!(borrow_rate_at(10_000), 700_000);
    assert_eq!(supply_rate_at(325_000, 2500), 81_250);
}

#[test]
fn scenario_deposit_records_supply_and_mint() {
    let (mut pool, _) = setup();
    let xlm = s("XLM");
    pool.configure_asset(&s("admin"), &xlm, 6000, 8000, 1000, NOW).unwrap();
    let minted = pool.deposit(&s("user"), &xlm, 1000_0000000, NOW);
    assert_eq!(minted, Ok(1000_0000000));
    assert_eq!(pool.get_pool_info(&xlm), (1000_0000000, 0, 0));
    let config = pool.get_asset_config(&xlm).unwrap();
    assert_eq!(config.ltv_ratio, 6000);
    assert_eq!(config.liquidation_threshold, 8000);
    assert_eq!(config.reserve_factor, 1000);
    assert!(config.is_active && config.is_collateral);
}

#[test]
fn scenario_collateral_value_without_debt() {
    let (mut pool, mut oracle) = setup();
    let steth = s("stETH");
    let user = s("user");
    oracle.set_price(&s("oracle-admin"), &steth, 1500_0000000, NOW).unwrap();
    pool.configure_asset(&s("admin"), &steth, 7000, 8000, 1000, NOW).unwrap();
    pool.deposit_collateral(&user, &steth, 1_0000000).unwrap();
    let data = pool.get_user_account_data(&oracle, &user, NOW).unwrap();
    assert_eq!(data.total_collateral_usd, 1500_0000000);
    assert_eq!(data.total_debt_usd, 0);
    assert_eq!(data.ltv, 0);
    assert_eq!(data.health_factor, i128::MAX);
    assert_eq!(pool.is_position_healthy(&oracle, &user, &steth, &s("USDC"), NOW), Ok(true));
    assert_eq!(
        pool.calculate_max_borrow(&oracle, &user, &steth, &s("USDC"), NOW),
        Ok(1050_0000000)
    );
}

#[test]
fn scenario_borrow_limited_by_liquidation_threshold() {
    let (mut pool, oracle) = setup();
    let xlm = s("XLM");
    let user = s("user");
    pool.configure_asset(&s("admin"), &xlm, 6000, 8000, 1000, NOW).unwrap();
    pool.deposit(&s("lender"), &xlm, 1000_0000000, NOW).unwrap();
    pool.deposit_collateral(&user, &xlm, 100_0000000).unwrap();
    let data = pool.get_user_account_data(&oracle, &user, NOW).unwrap();
    assert_eq!(data.total_collateral_usd, 12_0000000);

    // 81 XLM is 9.72 USD, above the 9.6 USD that 12 USD at 80% covers.
    assert_eq!(pool.borrow(&oracle, &user, &xlm, 81_0000000, NOW), Err(LendingError::LiquidationRisk));
    assert_eq!(pool.get_user_borrow(&user, &xlm), 0);
    assert_eq!(pool.get_pool_info(&xlm), (1000_0000000, 0, 0));

    // 80 XLM is exactly 9.6 USD.
    assert_eq!(pool.borrow(&oracle, &user, &xlm, 80_0000000, NOW), Ok(80_0000000));
    let data = pool.get_user_account_data(&oracle, &user, NOW).unwrap();
    assert_eq!(data.total_debt_usd, 9_6000000);
    assert_eq!(data.ltv, 8000);
    assert_eq!(data.health_factor, 1_0000000);
    assert_eq!(pool.get_pool_info(&xlm), (1000_0000000, 80_0000000, 800));
    assert_eq!(pool.is_position_healthy(&oracle, &user, &xlm, &xlm, NOW), Ok(true));
}

#[test]
fn scenario_repay_is_capped_at_debt() {
    let (mut pool, oracle) = setup();
    let xlm = s("XLM");
    let user = s("user");
    pool.configure_asset(&s("admin"), &xlm, 6000, 8000, 1000, NOW).unwrap();
    pool.deposit(&s("lender"), &xlm, 1000_0000000, NOW).unwrap();
    pool.deposit_collateral(&user, &xlm, 100_0000000).unwrap();
    pool.borrow(&oracle, &user, &xlm, 50_0000000, NOW).unwrap();
    assert_eq!(pool.repay(&user, &xlm, 70_0000000, NOW), Ok(50_0000000));
    assert_eq!(pool.get_user_borrow(&user, &xlm), 0);
    assert_eq!(pool.get_pool_info(&xlm), (1000_0000000, 0, 0));
    assert_eq!(pool.repay(&user, &xlm, 0, NOW), Err(LendingError::InvalidAmount));
}

#[test]
fn configure_asset_ratio_boundary() {
    let (mut pool, _) = setup();
    let a = s("XLM");
    assert_eq!(
        pool.configure_asset(&s("admin"), &a, 9501, 8000, 1000, NOW),
        Err(LendingError::InvalidConfiguration)
    );
    assert_eq!(pool.get_asset_config(&a), Err(LendingError::AssetNotConfigured));
    assert_eq!(
        pool.configure_asset(&s("admin"), &a, 9500, 9501, 1000, NOW),
        Err(LendingError::InvalidConfiguration)
    );
    assert_eq!(
        pool.configure_asset(&s("admin"), &a, 9500, 9500, 5001, NOW),
        Err(LendingError::InvalidConfiguration)
    );
    assert_eq!(pool.configure_asset(&s("admin"), &a, 9500, 9500, 5000, NOW), Ok(()));
    assert_eq!(pool.get_asset_config(&a).unwrap().ltv_ratio, 9500);
}

#[test]
fn borrowed_never_exceeds_supplied() {
    let (mut pool, oracle) = setup();
    let usdc = s("USDC");
    let steth = s("stETH");
    let user = s("user");
    pool.configure_asset(&s("admin"), &usdc, 8000, 9000, 1000, NOW).unwrap();
    pool.configure_asset(&s("admin"), &steth, 7000, 8000, 1000, NOW).unwrap();
    pool.deposit(&s("lender"), &usdc, 100_0000000, NOW).unwrap();
    pool.deposit_collateral(&user, &steth, 1_0000000).unwrap();
    assert_eq!(
        pool.borrow(&oracle, &user, &usdc, 100_0000001, NOW),
        Err(LendingError::InsufficientLiquidity)
    );
    assert_eq!(pool.borrow(&oracle, &user, &usdc, 100_0000000, NOW), Ok(100_0000000));
    let (supplied, borrowed, utilization) = pool.get_pool_info(&usdc);
    assert!(borrowed <= supplied);
    assert_eq!(utilization, 10_000);
    assert_eq!(pool.borrow(&oracle, &user, &usdc, 1, NOW), Err(LendingError::InsufficientLiquidity));
    let data = pool.get_user_account_data(&oracle, &user, NOW).unwrap();
    assert_eq!(data.total_collateral_usd, 1500_0000000);
    assert_eq!(data.total_debt_usd, 100_0000000);
    assert_eq!(data.ltv, 666);
    assert_eq!(data.health_factor, 12_0000000);
}

#[test]
fn positions_stay_non_negative() {
    let (mut pool, oracle) = setup();
    let xlm = s("XLM");
    let user = s("user");
    pool.configure_asset(&s("admin"), &xlm, 6000, 8000, 1000, NOW).unwrap();
    pool.deposit(&user, &xlm, 10_0000000, NOW).unwrap();
    assert_eq!(pool.repay(&user, &xlm, 5, NOW), Ok(0));
    assert_eq!(pool.withdraw(&user, &xlm, 10_0000001, NOW), Err(LendingError::InsufficientBalance));
    let p = pool.get_position(&user, &xlm);
    assert_eq!(p.debt_amount, 0);
    assert_eq!(p.collateral_amount, 0);
    assert_eq!(p.supplied_amount, 10_0000000);
    assert_eq!(pool.borrow(&oracle, &user, &xlm, 1_0000000, NOW), Err(LendingError::LiquidationRisk));
}

#[test]
fn pool_info_reads_are_stable() {
    let (mut pool, _) = setup();
    let xlm = s("XLM");
    pool.configure_asset(&s("admin"), &xlm, 6000, 8000, 1000, NOW).unwrap();
    pool.deposit(&s("user"), &xlm, 42_0000000, NOW).unwrap();
    let first = pool.get_pool_info(&xlm);
    let second = pool.get_pool_info(&xlm);
    assert_eq!(first, second);
}

#[test]
fn deposit_then_withdraw_is_net_zero() {
    let (mut pool, _) = setup();
    let xlm = s("XLM");
    let user = s("user");
    pool.configure_asset(&s("admin"), &xlm, 6000, 8000, 1000, NOW).unwrap();
    pool.deposit(&s("other"), &xlm, 7_0000000, NOW).unwrap();
    let before = pool.get_pool_info(&xlm);
    assert_eq!(pool.deposit(&user, &xlm, 3_0000000, NOW), Ok(3_0000000));
    assert_eq!(pool.get_pool_info(&xlm).0, 10_0000000);
    assert_eq!(pool.withdraw(&user, &xlm, 3_0000000, NOW + 1), Ok(3_0000000));
    assert_eq!(pool.get_pool_info(&xlm), before);
}

#[test]
fn admin_and_initialization_errors() {
    let mut pool = LendingPool::new();
    let xlm = s("XLM");
    assert_eq!(
        pool.configure_asset(&s("admin"), &xlm, 6000, 8000, 1000, NOW),
        Err(LendingError::NotInitialized)
    );
    pool.initialize(&s("admin"), &s("stoken"), &s("oracle")).unwrap();
    assert_eq!(
        pool.initialize(&s("admin"), &s("stoken"), &s("oracle")),
        Err(LendingError::AlreadyInitialized)
    );
    assert_eq!(
        pool.configure_asset(&s("mallory"), &xlm, 6000, 8000, 1000, NOW),
        Err(LendingError::Unauthorized)
    );
    assert_eq!(pool.deposit(&s("user"), &xlm, 1, NOW), Err(LendingError::AssetNotConfigured));
}

#[test]
fn asset_status_gates_operations() {
    let (mut pool, oracle) = setup();
    let xlm = s("XLM");
    let user = s("user");
    pool.configure_asset(&s("admin"), &xlm, 6000, 8000, 1000, NOW).unwrap();
    pool.deposit(&user, &xlm, 10_0000000, NOW).unwrap();
    assert_eq!(pool.set_asset_status(&s("admin"), &xlm, false, false), Ok(()));
    assert_eq!(pool.deposit(&user, &xlm, 1, NOW), Err(LendingError::AssetInactive));
    assert_eq!(pool.withdraw(&user, &xlm, 1, NOW), Err(LendingError::AssetInactive));
    assert_eq!(pool.borrow(&oracle, &user, &xlm, 1, NOW), Err(LendingError::AssetInactive));
    assert_eq!(
        pool.deposit_collateral(&user, &xlm, 1),
        Err(LendingError::AssetNotCollateralEligible)
    );
    assert_eq!(pool.get_pool_info(&xlm).0, 10_0000000);
    assert_eq!(
        pool.set_asset_status(&s("admin"), &s("ETH"), true, true),
        Err(LendingError::AssetNotConfigured)
    );
}

#[test]
fn risk_params_update_keeps_pool() {
    let (mut pool, _) = setup();
    let xlm = s("XLM");
    pool.configure_asset(&s("admin"), &xlm, 6000, 8000, 1000, NOW).unwrap();
    pool.deposit(&s("user"), &xlm, 10_0000000, NOW).unwrap();
    assert_eq!(pool.update_risk_params(&s("admin"), &xlm, 5000, 7000, 500), Ok(()));
    assert_eq!(pool.get_pool_info(&xlm).0, 10_0000000);
    assert_eq!(pool.get_asset_config(&xlm).unwrap().liquidation_threshold, 7000);
    // configure_asset, by contrast, starts the pool over.
    pool.configure_asset(&s("admin"), &xlm, 6000, 8000, 1000, NOW).unwrap();
    assert_eq!(pool.get_pool_info(&xlm), (0, 0, 0));
    assert_eq!(pool.get_position(&s("user"), &xlm).supplied_amount, 10_0000000);
    assert_eq!(
        pool.withdraw(&s("user"), &xlm, 1, NOW),
        Err(LendingError::InsufficientLiquidity)
    );
}

#[test]
fn price_errors_abort_borrow() {
    let (mut pool, oracle) = setup();
    let eth = s("ETH");
    let xlm = s("XLM");
    let user = s("user");
    pool.configure_asset(&s("admin"), &eth, 6000, 8000, 1000, NOW).unwrap();
    pool.configure_asset(&s("admin"), &xlm, 6000, 8000, 1000, NOW).unwrap();
    pool.deposit(&s("lender"), &xlm, 100_0000000, NOW).unwrap();
    pool.deposit_collateral(&user, &eth, 1_0000000).unwrap();
    assert_eq!(
        pool.borrow(&oracle, &user, &xlm, 1_0000000, NOW),
        Err(LendingError::PriceUnavailable)
    );
    assert_eq!(
        pool.get_user_account_data(&oracle, &user, NOW),
        Err(LendingError::PriceUnavailable)
    );
    let user2 = s("user2");
    pool.deposit_collateral(&user2, &xlm, 50_0000000).unwrap();
    assert_eq!(
        pool.borrow(&oracle, &user2, &xlm, 1_0000000, NOW + 4000),
        Err(LendingError::PriceStale)
    );
    assert_eq!(pool.get_user_borrow(&user2, &xlm), 0);
    assert_eq!(pool.get_pool_info(&xlm), (100_0000000, 0, 0));
}

#[test]
fn deposit_overflow_is_refused() {
    let (mut pool, _) = setup();
    let xlm = s("XLM");
    pool.configure_asset(&s("admin"), &xlm, 6000, 8000, 1000, NOW).unwrap();
    pool.deposit(&s("a"), &xlm, i128::MAX, NOW).unwrap();
    assert_eq!(pool.deposit(&s("b"), &xlm, 1, NOW), Err(LendingError::MathOverflow));
    assert_eq!(pool.get_pool_info(&xlm).0, i128::MAX);
}

#[test]
fn bridge_deposit_supplies_like_deposit() {
    let (mut pool, _) = setup();
    let xlm = s("XLM");
    pool.configure_asset(&s("admin"), &xlm, 6000, 8000, 1000, NOW).unwrap();
    assert_eq!(pool.bridge_deposit(&s("user"), &xlm, 5_0000000, 77, NOW), Ok((77, 5_0000000)));
    assert_eq!(pool.get_pool_info(&xlm).0, 5_0000000);
    assert_eq!(pool.bridge_deposit(&s("user"), &xlm, 0, 78, NOW), Err(LendingError::InvalidAmount));
}

#[test]
fn max_borrow_and_health_with_debt() {
    let (mut pool, oracle) = setup();
    let steth = s("stETH");
    let usdc = s("USDC");
    let user = s("user");
    pool.configure_asset(&s("admin"), &steth, 7000, 8000, 1000, NOW).unwrap();
    pool.configure_asset(&s("admin"), &usdc, 8000, 9000, 1000, NOW).unwrap();
    pool.deposit(&s("lender"), &usdc, 5000_0000000, NOW).unwrap();
    assert_eq!(pool.is_position_healthy(&oracle, &user, &steth, &usdc, NOW), Ok(true));
    pool.deposit_collateral(&user, &steth, 2_0000000).unwrap();
    assert_eq!(pool.calculate_max_borrow(&oracle, &user, &steth, &usdc, NOW), Ok(2100_0000000));
    pool.borrow(&oracle, &user, &usdc, 2400_0000000, NOW).unwrap();
    assert_eq!(pool.is_position_healthy(&oracle, &user, &steth, &usdc, NOW), Ok(true));
    assert_eq!(pool.is_position_healthy(&oracle, &user, &usdc, &usdc, NOW), Ok(false));
    assert_eq!(
        pool.borrow(&oracle, &user, &usdc, 1, NOW),
        Err(LendingError::LiquidationRisk)
    );
}

#[test]
fn withdraw_leaves_lent_out_liquidity() {
    let (mut pool, oracle) = setup();
    let xlm = s("XLM");
    let lender = s("lender");
    let user = s("user");
    pool.configure_asset(&s("admin"), &xlm, 6000, 8000, 1000, NOW).unwrap();
    pool.deposit(&lender, &xlm, 1000_0000000, NOW).unwrap();
    pool.deposit_collateral(&user, &xlm, 100_0000000).unwrap();
    pool.borrow(&oracle, &user, &xlm, 80_0000000, NOW).unwrap();
    assert_eq!(
        pool.withdraw(&lender, &xlm, 1000_0000000, NOW),
        Err(LendingError::InsufficientLiquidity)
    );
    assert_eq!(
        pool.withdraw(&lender, &xlm, 950_0000000, NOW),
        Err(LendingError::InsufficientLiquidity)
    );
    assert_eq!(pool.get_pool_info(&xlm), (1000_0000000, 80_0000000, 800));
    assert_eq!(pool.withdraw(&lender, &xlm, 920_0000000, NOW), Ok(920_0000000));
    let (supplied, borrowed, utilization) = pool.get_pool_info(&xlm);
    assert_eq!((supplied, borrowed), (80_0000000, 80_0000000));
    assert_eq!(utilization, 10_000);
}

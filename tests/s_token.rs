use paralyx_protocol::{SToken, TokenError};

fn s(v: &str) -> String {
    String::from(v)
}

fn token() -> SToken {
    let mut t = SToken::new();
    t.initialize(&s("admin"), &s("pool"), &s("underlying"), &s("Test sToken"), &s("sTest"), 7)
        .unwrap();
    t
}

#[test]
fn test_test_initialize() {
    let mut t = SToken::new();
    let r = t.initialize(&s("admin"), &s("pool"), &s("underlying"), &s("Test sToken"), &s("sTest"), 7);
    assert_eq!(r, Ok(()));
    assert_eq!(t.name(), s("Test sToken"));
    assert_eq!(t.symbol(), s("sTest"));
    assert_eq!(t.decimals(), 7);
    assert_eq!(t.total_supply(), 0);
    assert_eq!(t.underlying_asset(), s("underlying"));
    assert_eq!(t.exchange_rate(), 1_0000000);
}

#[test]
fn test_test_double_initialize() {
    let mut t = token();
    let r = t.initialize(&s("admin"), &s("pool"), &s("underlying"), &s("Test sToken"), &s("sTest"), 7);
    assert_eq!(r, Err(TokenError::AlreadyInitialized));
}

#[test]
fn test_mint() {
    let mut t = token();
    let user = s("user");
    let mint_amount: i128 = 1000_0000000;
    assert_eq!(t.mint(&s("pool"), &user, mint_amount), Ok(()));
    assert_eq!(t.balance(&user), mint_amount);
    assert_eq!(t.total_supply(), mint_amount);
}

#[test]
fn test_burn() {
    let mut t = token();
    let user = s("user");
    let mint_amount: i128 = 1000_0000000;
    let burn_amount: i128 = 300_0000000;
    t.mint(&s("pool"), &user, mint_amount).unwrap();
    assert_eq!(t.burn(&s("pool"), &user, burn_amount), Ok(()));
    let expected_balance = mint_amount - burn_amount;
    assert_eq!(t.balance(&user), expected_balance);
    assert_eq!(t.total_supply(), expected_balance);
}

#[test]
fn test_burn_insufficient_balance() {
    let mut t = token();
    let user = s("user");
    assert_eq!(t.burn(&s("pool"), &user, 1000_0000000), Err(TokenError::InsufficientBalance));
    assert_eq!(t.balance(&user), 0);
}

#[test]
fn test_exchange_rate_conversion() {
    let mut t = token();
    let underlying_amount: i128 = 1000_0000000;
    let s_token_amount = t.underlying_to_s_token(underlying_amount).unwrap();
    assert_eq!(s_token_amount, underlying_amount);
    assert_eq!(t.s_token_to_underlying(s_token_amount), Ok(underlying_amount));

    let new_rate: i128 = 1_5000000;
    assert_eq!(t.update_exchange_rate(&s("pool"), new_rate), Ok(()));
    assert_eq!(t.exchange_rate(), new_rate);

    let s_token_amount_new = t.underlying_to_s_token(underlying_amount).unwrap();
    let expected_s_tokens: i128 = 666_6666666;
    let diff = (s_token_amount_new - expected_s_tokens).abs();
    assert!(diff <= 10);
    assert_eq!(s_token_amount_new, 666_6666666);
    assert_eq!(t.s_token_to_underlying(666_6666666), Ok(999_9999999));
}

#[test]
fn token_only_pool_mints() {
    let mut fresh = SToken::new();
    assert_eq!(fresh.mint(&s("pool"), &s("user"), 5), Err(TokenError::NotInitialized));
    let mut t = token();
    assert_eq!(t.mint(&s("admin"), &s("user"), 5), Err(TokenError::Unauthorized));
    assert_eq!(t.mint(&s("pool"), &s("user"), 0), Err(TokenError::InvalidAmount));
    assert_eq!(t.update_exchange_rate(&s("pool"), 0), Err(TokenError::InvalidExchangeRate));
    assert_eq!(t.exchange_rate(), 1_0000000);
    assert_eq!(t.total_supply(), 0);
}

#[test]
fn token_mint_overflow() {
    let mut t = token();
    t.mint(&s("pool"), &s("a"), i128::MAX).unwrap();
    assert_eq!(t.mint(&s("pool"), &s("b"), 1), Err(TokenError::MathOverflow));
    assert_eq!(t.balance(&s("b")), 0);
}

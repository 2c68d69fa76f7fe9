use puzzle_contracts::oracle_price_feed::{OraclePriceFeed, PriceFeedError, PriceSnapshot};

const ADMIN: u64 = 1;
const TOKEN_A: u64 = 2;
const TOKEN_B: u64 = 3;

fn pair() -> String {
    "XLM_USDC".to_string()
}

fn setup(providers: &[u64]) -> OraclePriceFeed {
    let mut c = OraclePriceFeed::new();
    c.initialize(ADMIN, 300).unwrap();
    c.register_pair(pair(), TOKEN_A, TOKEN_B).unwrap();
    for p in providers {
        c.add_provider(pair(), *p).unwrap();
    }
    c
}

#[test]
fn oracle_test_initialize() {
    let mut c = OraclePriceFeed::new();
    c.initialize(ADMIN, 300).unwrap();
    assert_eq!(c.initialize(ADMIN, 300), Err(PriceFeedError::AlreadyInitialized));
}

#[test]
fn test_register_pair() {
    let mut c = setup(&[]);
    assert!(c.register_pair(pair(), TOKEN_A, TOKEN_B).is_err());
}

#[test]
fn test_provider_management() {
    let mut c = setup(&[11, 12]);
    assert_eq!(c.get_providers(pair()).unwrap(), vec![11, 12]);
    assert_eq!(c.add_provider(pair(), 11), Err(PriceFeedError::ProviderAlreadyExists));
    c.remove_provider(pair(), 11).unwrap();
    assert_eq!(c.get_providers(pair()).unwrap(), vec![12]);
    assert_eq!(c.remove_provider(pair(), 11), Err(PriceFeedError::ProviderNotFound));
}

#[test]
fn test_submit_price_odd_providers() {
    let mut c = setup(&[11, 12, 13]);
    c.submit_price(pair(), 11, 100, 0).unwrap();
    c.submit_price(pair(), 12, 200, 0).unwrap();
    c.submit_price(pair(), 13, 300, 0).unwrap();
    assert_eq!(c.get_price(pair(), 0), Ok((200, 0)));
}

#[test]
fn test_submit_price_even_providers() {
    let mut c = setup(&[11, 12]);
    c.submit_price(pair(), 11, 100, 0).unwrap();
    c.submit_price(pair(), 12, 200, 0).unwrap();
    assert_eq!(c.get_price(pair(), 0).unwrap().0, 150);
}

#[test]
fn test_unauthorized_provider() {
    let mut c = setup(&[11]);
    assert!(c.submit_price(pair(), 99, 100, 0).is_err());
}

#[test]
fn test_invalid_price() {
    let mut c = setup(&[11]);
    assert_eq!(c.submit_price(pair(), 11, 0, 0), Err(PriceFeedError::InvalidPrice));
    assert_eq!(c.submit_price(pair(), 11, -100, 0), Err(PriceFeedError::InvalidPrice));
}

#[test]
fn test_stale_price() {
    let mut c = setup(&[11]);
    c.submit_price(pair(), 11, 100, 1000).unwrap();
    assert_eq!(c.get_price(pair(), 2000), Err(PriceFeedError::StalePrice));
}

#[test]
fn test_price_history() {
    let mut c = setup(&[11, 12]);
    c.submit_price(pair(), 11, 100, 1000).unwrap();
    c.submit_price(pair(), 12, 200, 1000).unwrap();
    c.submit_price(pair(), 11, 150, 2000).unwrap();
    c.submit_price(pair(), 12, 250, 2000).unwrap();
    let history = c.get_price_history(pair(), 10).unwrap();
    assert_eq!(history.len(), 4);
    assert_eq!(history[3], PriceSnapshot { median_price: 200, timestamp: 2000 });
    assert_eq!(c.get_price_history(pair(), 1).unwrap(), vec![PriceSnapshot { median_price: 200, timestamp: 2000 }]);
}

#[test]
fn test_set_stale_threshold() {
    let mut c = setup(&[11]);
    c.set_stale_threshold(600).unwrap();
    c.submit_price(pair(), 11, 100, 1000).unwrap();
    assert_eq!(c.get_price(pair(), 1500).unwrap().0, 100);
}

#[test]
fn median_stays_within_submitted_prices() {
    let mut c = setup(&[11, 12, 13, 14]);
    let prices = [7i128, 1000, 3, 55];
    for (i, p) in prices.iter().enumerate() {
        c.submit_price(pair(), 11 + i as u64, *p, 0).unwrap();
    }
    let median = c.get_price(pair(), 0).unwrap().0;
    assert_eq!(median, 31);
    assert!(median >= 3 && median <= 1000);
}

#[test]
fn unknown_pair_is_reported() {
    let c = setup(&[]);
    assert_eq!(c.get_price("BTC_USDC".to_string(), 0), Err(PriceFeedError::PairNotFound));
    assert_eq!(c.get_providers("BTC_USDC".to_string()).err(), Some(PriceFeedError::PairNotFound));
}

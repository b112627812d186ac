use prediction_market::{initialize_market, place_bet, resolve_market, Bet, ErrorCode, Market};

const ADMIN: [u8; 32] = [7u8; 32];
const ALICE: [u8; 32] = [1u8; 32];
const BOB: [u8; 32] = [2u8; 32];
const MARKET_KEY: [u8; 32] = [9u8; 32];
const FEED: [u8; 32] = [3u8; 32];

fn open_market(now: i64, duration: i64, target_price: i64) -> Market {
    initialize_market(
        ADMIN,
        254,
        now,
        String::from("Will BTC go above $90,000?"),
        String::from("BTC"),
        duration,
        FEED,
        95,
        2,
        target_price,
    )
}

#[test]
fn new_market_records_its_terms() {
    let market = open_market(1_000, 60, 100);
    assert_eq!(market.admin, ADMIN);
    assert_eq!(market.question, "Will BTC go above $90,000?");
    assert_eq!(market.asset_symbol, "BTC");
    assert_eq!(market.feed_id, FEED);
    assert_eq!(market.target_price, 100);
    assert_eq!(market.start_price, 95);
    assert_eq!(market.price_conf, 2);
    assert_eq!(market.vault_bump, 254);
    assert_eq!(market.end_price, 0);
}

#[test]
fn new_market_ends_after_its_duration() {
    let market = open_market(1_000, 60, 100);
    assert_eq!(market.start_time, 1_000);
    assert_eq!(market.end_time, 1_060);
    assert_eq!(market.end_time, market.start_time + 60);
}

#[test]
fn new_market_is_open_and_empty() {
    let market = open_market(1_000, 60, 100);
    assert_eq!(market.total_up_pool, 0);
    assert_eq!(market.total_down_pool, 0);
    assert!(!market.resolved);
    assert_eq!(market.outcome, None);
    assert!(market.is_well_formed());
}

#[test]
fn new_market_with_shortest_duration() {
    let market = open_market(-5, 1, 100);
    assert_eq!(market.start_time, -5);
    assert_eq!(market.end_time, -4);
}

#[test]
fn new_market_may_end_at_the_last_second() {
    let market = open_market(i64::MAX - 10, 10, 100);
    assert_eq!(market.end_time, i64::MAX);
}

#[test]
fn accepted_bet_is_recorded() {
    let mut market = open_market(1_000, 60, 100);
    let bet = place_bet(&mut market, ALICE, MARKET_KEY, 1_001, true, 300);
    assert_eq!(
        bet,
        Ok(Bet { user: ALICE, market: MARKET_KEY, amount: 300, direction: true, claimed: false })
    );
}

#[test]
fn stake_on_up_grows_the_up_pool_only() {
    let mut market = open_market(1_000, 60, 100);
    let before = market.clone();
    place_bet(&mut market, ALICE, MARKET_KEY, 1_001, true, 300).unwrap();
    assert_eq!(market.total_up_pool, 300);
    assert_eq!(market.total_down_pool, 0);
    assert_eq!(market, Market { total_up_pool: 300, ..before });
}

#[test]
fn stake_on_down_grows_the_down_pool_only() {
    let mut market = open_market(1_000, 60, 100);
    let before = market.clone();
    place_bet(&mut market, BOB, MARKET_KEY, 1_001, false, 700).unwrap();
    assert_eq!(market.total_up_pool, 0);
    assert_eq!(market.total_down_pool, 700);
    assert_eq!(market, Market { total_down_pool: 700, ..before });
}

#[test]
fn pools_sum_the_accepted_stakes() {
    let mut market = open_market(1_000, 60, 100);
    let stakes: [(bool, u64, i64); 7] = [
        (true, 10, 1_000),
        (false, 5, 1_001),
        (true, 0, 1_002),
        (true, 32, 1_059),
        (false, 1, 1_060),
        (false, 8, 1_030),
        (true, 100, 2_000),
    ];
    let mut up: u64 = 0;
    let mut down: u64 = 0;
    for (direction, amount, now) in stakes {
        let taken = place_bet(&mut market, ALICE, MARKET_KEY, now, direction, amount);
        if now < 1_060 {
            assert!(taken.is_ok());
            if direction {
                up += amount;
            } else {
                down += amount;
            }
        } else {
            assert_eq!(taken, Err(ErrorCode::MarketClosed));
        }
        assert_eq!(market.total_up_pool, up);
        assert_eq!(market.total_down_pool, down);
    }
    assert_eq!(market.total_up_pool, 42);
    assert_eq!(market.total_down_pool, 13);
}

#[test]
fn stake_in_the_last_second_is_accepted() {
    let mut market = open_market(1_000, 60, 100);
    assert!(place_bet(&mut market, ALICE, MARKET_KEY, 1_059, true, 1).is_ok());
    assert_eq!(market.total_up_pool, 1);
}

#[test]
fn stake_at_the_deadline_is_refused() {
    let mut market = open_market(1_000, 60, 100);
    let before = market.clone();
    let refused = place_bet(&mut market, ALICE, MARKET_KEY, 1_060, true, 1);
    assert_eq!(refused, Err(ErrorCode::MarketClosed));
    assert_eq!(market, before);
}

#[test]
fn stake_after_the_deadline_is_refused() {
    let mut market = open_market(1_000, 60, 100);
    place_bet(&mut market, ALICE, MARKET_KEY, 1_010, false, 50).unwrap();
    let before = market.clone();
    let refused = place_bet(&mut market, BOB, MARKET_KEY, 5_000, false, 1);
    assert_eq!(refused, Err(ErrorCode::MarketClosed));
    assert_eq!(market, before);
}

#[test]
fn stake_of_zero_is_accepted() {
    let mut market = open_market(1_000, 60, 100);
    let bet = place_bet(&mut market, ALICE, MARKET_KEY, 1_001, false, 0);
    assert_eq!(
        bet,
        Ok(Bet { user: ALICE, market: MARKET_KEY, amount: 0, direction: false, claimed: false })
    );
    assert_eq!(market.total_up_pool, 0);
    assert_eq!(market.total_down_pool, 0);
}

#[test]
fn stake_that_overflows_the_up_pool_is_refused() {
    let mut market = open_market(1_000, 60, 100);
    place_bet(&mut market, ALICE, MARKET_KEY, 1_001, true, u64::MAX - 1).unwrap();
    let before = market.clone();
    let refused = place_bet(&mut market, BOB, MARKET_KEY, 1_002, true, 2);
    assert_eq!(refused, Err(ErrorCode::MathError));
    assert_eq!(market, before);
    assert!(place_bet(&mut market, BOB, MARKET_KEY, 1_003, true, 1).is_ok());
    assert_eq!(market.total_up_pool, u64::MAX);
}

#[test]
fn stake_that_overflows_the_down_pool_is_refused() {
    let mut market = open_market(1_000, 60, 100);
    place_bet(&mut market, ALICE, MARKET_KEY, 1_001, false, u64::MAX).unwrap();
    let before = market.clone();
    let refused = place_bet(&mut market, BOB, MARKET_KEY, 1_002, false, 1);
    assert_eq!(refused, Err(ErrorCode::MathError));
    assert_eq!(market, before);
    assert!(place_bet(&mut market, BOB, MARKET_KEY, 1_003, true, u64::MAX).is_ok());
}

#[test]
fn late_stake_that_would_overflow_is_refused_as_late() {
    let mut market = open_market(1_000, 60, 100);
    place_bet(&mut market, ALICE, MARKET_KEY, 1_001, true, u64::MAX).unwrap();
    let refused = place_bet(&mut market, BOB, MARKET_KEY, 1_060, true, 1);
    assert_eq!(refused, Err(ErrorCode::MarketClosed));
}

#[test]
fn resolution_before_the_deadline_is_refused() {
    let mut market = open_market(1_000, 60, 100);
    let before = market.clone();
    assert_eq!(resolve_market(&mut market, 1_059, 150), Err(ErrorCode::MarketNotEnded));
    assert_eq!(market, before);
}

#[test]
fn resolution_at_the_deadline_goes_ahead() {
    let mut market = open_market(1_000, 60, 100);
    let before = market.clone();
    assert_eq!(resolve_market(&mut market, 1_060, 150), Ok(true));
    assert_eq!(
        market,
        Market { resolved: true, outcome: Some(true), end_price: 150, ..before }
    );
    assert!(market.is_well_formed());
}

#[test]
fn price_above_target_resolves_up() {
    let mut market = open_market(1_000, 60, 100);
    assert_eq!(resolve_market(&mut market, 2_000, 101), Ok(true));
    assert_eq!(market.outcome, Some(true));
    assert_eq!(market.end_price, 101);
}

#[test]
fn price_below_target_resolves_down() {
    let mut market = open_market(1_000, 60, 100);
    assert_eq!(resolve_market(&mut market, 2_000, 99), Ok(false));
    assert!(market.resolved);
    assert_eq!(market.outcome, Some(false));
    assert_eq!(market.end_price, 99);
}

#[test]
fn price_equal_to_target_resolves_up() {
    let mut market = open_market(1_000, 60, 100);
    assert_eq!(resolve_market(&mut market, 1_060, 100), Ok(true));
    assert_eq!(market.outcome, Some(true));
    assert_eq!(market.end_price, 100);
}

#[test]
fn negative_prices_are_compared_as_signed() {
    let mut market = open_market(1_000, 60, -10);
    assert_eq!(resolve_market(&mut market, 1_060, -11), Ok(false));
    let mut other = open_market(1_000, 60, -10);
    assert_eq!(resolve_market(&mut other, 1_060, -10), Ok(true));
}

#[test]
fn second_resolution_is_refused() {
    let mut market = open_market(1_000, 60, 100);
    assert_eq!(resolve_market(&mut market, 1_060, 150), Ok(true));
    let resolved = market.clone();
    assert_eq!(resolve_market(&mut market, 1_060, 50), Err(ErrorCode::MarketAlreadyResolved));
    assert_eq!(resolve_market(&mut market, 9_999, 50), Err(ErrorCode::MarketAlreadyResolved));
    assert_eq!(market, resolved);
    assert_eq!(market.outcome, Some(true));
    assert_eq!(market.end_price, 150);
}

#[test]
fn resolution_before_the_deadline_is_refused_as_early_even_when_resolved() {
    let mut market = open_market(1_000, 60, 100);
    resolve_market(&mut market, 1_060, 150).unwrap();
    let resolved = market.clone();
    assert_eq!(resolve_market(&mut market, 1_000, 50), Err(ErrorCode::MarketNotEnded));
    assert_eq!(market, resolved);
}

#[test]
fn resolved_market_takes_no_stakes() {
    let mut market = open_market(1_000, 60, 100);
    place_bet(&mut market, ALICE, MARKET_KEY, 1_001, true, 300).unwrap();
    resolve_market(&mut market, 1_060, 150).unwrap();
    let resolved = market.clone();
    assert_eq!(
        place_bet(&mut market, BOB, MARKET_KEY, 1_060, false, 700),
        Err(ErrorCode::MarketClosed)
    );
    assert_eq!(market, resolved);
    assert_eq!(market.total_up_pool, 300);
    assert_eq!(market.total_down_pool, 0);
}

#[test]
fn unresolved_market_past_its_deadline_stays_open() {
    let mut market = open_market(1_000, 60, 100);
    assert_eq!(
        place_bet(&mut market, ALICE, MARKET_KEY, 50_000, true, 1),
        Err(ErrorCode::MarketClosed)
    );
    assert!(!market.resolved);
    assert_eq!(market.outcome, None);
    assert_eq!(resolve_market(&mut market, 50_001, 100), Ok(true));
}

#[test]
fn ill_formed_records_are_told_apart() {
    let market = open_market(1_000, 60, 100);
    assert!(market.is_well_formed());
    assert!(!Market { resolved: true, ..market.clone() }.is_well_formed());
    assert!(!Market { outcome: Some(false), ..market.clone() }.is_well_formed());
    assert!(Market { resolved: true, outcome: Some(false), ..market }.is_well_formed());
}

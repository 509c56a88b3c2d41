use surge::account::{AccountPosition, MarginAccountInfo, VirtualMarginAccount};
use surge::common::ComponentAddress;
use surge::config::{ExchangeConfig, PairConfig, VirtualConfig};
use surge::decimal::Decimal;
use surge::exchange::{calculate_fee, pool_value, settle_account, settle_funding, skew_ratio, update_pair};
use surge::map::AssocMap;
use surge::oracle::VirtualOracle;
use surge::pool::{PoolPosition, VirtualLiquidityPool};

const UNIT: i128 = 1_000_000_000_000_000_000;

fn d(x: i128) -> Decimal {
    Decimal::from_attos(x)
}

fn pair(id: &str) -> PairConfig {
    PairConfig {
        pair_id: id.to_string(),
        oi_max: d(1_000_000 * UNIT),
        trade_size_min: d(0),
        update_price_delta_ratio: d(UNIT / 100),
        update_period_seconds: 3600,
        margin_initial: d(UNIT / 10),
        margin_maintenance: d(UNIT / 20),
        funding_1: d(UNIT / 10),
        funding_2: d(UNIT / 10),
        funding_2_delta: d(UNIT / 10),
        funding_2_decay: d(UNIT / 10),
        funding_pool_0: d(0),
        funding_pool_1: d(0),
        funding_share: d(UNIT / 10),
        fee_0: d(UNIT / 1000),
        fee_1: d(UNIT / 10_000_000),
    }
}

fn pool_position(oi_long: i128, oi_short: i128) -> PoolPosition {
    PoolPosition {
        oi_long: d(oi_long * UNIT),
        oi_short: d(oi_short * UNIT),
        cost: d(0),
        skew_abs_snap: d(0),
        pnl_snap: d(0),
        funding_2_rate: d(0),
        funding_long_index: d(0),
        funding_short_index: d(0),
        last_update: 0,
        last_price: d(100 * UNIT),
    }
}

fn config() -> VirtualConfig {
    let mut pair_configs = AssocMap::new();
    pair_configs.insert("BTC/USD".to_string(), pair("BTC/USD"));
    VirtualConfig { exchange_config: ExchangeConfig::default(), pair_configs, collateral_configs: AssocMap::new() }
}

fn pool_with(position: PoolPosition) -> VirtualLiquidityPool {
    let mut positions = AssocMap::new();
    positions.insert("BTC/USD".to_string(), position);
    VirtualLiquidityPool::new(positions, d(1000 * UNIT), d(0), d(0), d(0), d(0))
}

fn oracle(price: i128) -> VirtualOracle {
    let mut prices = AssocMap::new();
    prices.insert("BTC/USD".to_string(), d(price * UNIT));
    VirtualOracle { prices, resource_map: AssocMap::new() }
}

fn account_with(amount: i128, funding_index: i128) -> VirtualMarginAccount {
    let mut positions = AssocMap::new();
    positions.insert(
        "BTC/USD".to_string(),
        AccountPosition { amount: d(amount * UNIT), cost: d(amount * 100 * UNIT), funding_index: d(funding_index) },
    );
    let info = MarginAccountInfo {
        positions,
        collateral_balances: AssocMap::new(),
        virtual_balance: d(50 * UNIT),
        requests_len: 0,
        active_requests_len: 0,
        valid_requests_start: 0,
    };
    VirtualMarginAccount::new(ComponentAddress { high: 1, low: 2 }, info, None, AssocMap::new())
}

#[test]
fn fee_adds_flat_and_skew_parts() {
    let ec = ExchangeConfig::default();
    let fee = calculate_fee(&ec, &pair("BTC/USD"), &pool_position(10, 4), d(UNIT), d(100 * UNIT), d(1000 * UNIT));
    // 1000 × 0.001 + 1000 × (2 × 600 + 1000) × 0.0000001
    assert!(fee.eq(d(1_220_000_000_000_000_000)));
}

#[test]
fn fee_is_clamped_to_the_maximum() {
    let ec = ExchangeConfig::default();
    let fee = calculate_fee(&ec, &pair("BTC/USD"), &pool_position(10, 4), d(100 * UNIT), d(100 * UNIT), d(1000 * UNIT));
    assert!(fee.eq(d(10 * UNIT)));
}

#[test]
fn fee_is_never_negative() {
    let ec = ExchangeConfig::default();
    let fee = calculate_fee(&ec, &pair("BTC/USD"), &pool_position(100, 0), d(UNIT), d(100 * UNIT), d(-1000 * UNIT));
    assert!(fee.is_zero());
}

#[test]
fn settling_moves_balance_between_pool_and_account() {
    let mut pool = pool_with(pool_position(1, 1));
    let mut account = account_with(1, 0);
    settle_account(&mut pool, &mut account, d(-7 * UNIT));
    assert!(pool.virtual_balance.eq(d(7 * UNIT)));
    assert!(account.virtual_balance.eq(d(43 * UNIT)));
}

#[test]
fn funding_is_settled_once() {
    let mut position = pool_position(3, 3);
    position.funding_long_index = d(UNIT / 2);
    let mut pool = pool_with(position);
    let mut account = account_with(2, 0);
    let pair_id = "BTC/USD".to_string();
    let first = settle_funding(&mut pool, &mut account, &pair_id);
    assert!(first.eq(d(-UNIT)));
    assert!(account.virtual_balance.eq(d(49 * UNIT)));
    assert!(pool.virtual_balance.eq(d(UNIT)));
    assert!(pool.unrealized_pool_funding.eq(d(-UNIT)));
    let second = settle_funding(&mut pool, &mut account, &pair_id);
    assert!(second.is_zero());
    assert!(account.virtual_balance.eq(d(49 * UNIT)));
    assert!(account.position(&pair_id).funding_index.eq(d(UNIT / 2)));
}

#[test]
fn pair_update_without_shorts_moves_no_funding() {
    let cfg = config();
    let mut pool = pool_with(pool_position(5, 0));
    let pair_id = "BTC/USD".to_string();
    let rewarded = update_pair(&cfg, &mut pool, &oracle(100), 3600, &pair_id);
    assert!(rewarded);
    let p = pool.position(&pair_id);
    assert!(p.funding_long_index.is_zero());
    assert!(p.funding_short_index.is_zero());
    assert_eq!(p.last_update, 3600);
    assert!(p.skew_abs_snap.eq(d(500 * UNIT)));
    assert!(p.pnl_snap.eq(d(-500 * UNIT)));
    assert!(pool.skew_abs_snap.eq(d(500 * UNIT)));
}

#[test]
fn pair_update_with_more_longs_charges_longs() {
    let cfg = config();
    let mut pool = pool_with(pool_position(10, 5));
    let pair_id = "BTC/USD".to_string();
    let rewarded = update_pair(&cfg, &mut pool, &oracle(100), 60, &pair_id);
    assert!(!rewarded);
    let p = pool.position(&pair_id);
    assert!(p.funding_long_index.is_positive());
    assert!(p.funding_short_index.is_negative());
}

#[test]
fn pool_value_and_skew_ratio() {
    let mut pool = pool_with(pool_position(1, 1));
    pool.add_virtual_balance(d(200 * UNIT));
    pool.add_skew_abs_snap(d(300 * UNIT));
    assert!(pool_value(&pool).eq(d(1200 * UNIT)));
    assert!(skew_ratio(&pool).eq(d(UNIT / 4)));
}

#[test]
fn funding_paid_by_one_side_reaches_the_other_and_the_pool() {
    let cfg = config();
    let mut pool = pool_with(pool_position(10, 5));
    let pair_id = "BTC/USD".to_string();
    update_pair(&cfg, &mut pool, &oracle(100), 86_400, &pair_id);
    let p = pool.position(&pair_id);
    // the longs pay through their index, the shorts receive through theirs
    let paid = p.funding_long_index.mul(d(10 * UNIT));
    let received = p.funding_short_index.neg().mul(d(5 * UNIT));
    let share = pool.unrealized_pool_funding;
    assert!(paid.is_positive() && received.is_positive() && share.is_positive());
    // the share is a tenth of what is paid; what is paid is received or kept, to within rounding
    assert!(paid.sub(received.add(share)).abs().le(d(100)));
    assert!(share.mul(d(10 * UNIT)).sub(paid).abs().le(d(1000)));
}

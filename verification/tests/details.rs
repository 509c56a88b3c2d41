use surge::account::{AccountPosition, KeeperRequest, MarginAccountInfo, VirtualMarginAccount};
use surge::common::{ComponentAddress, ResourceAddress};
use surge::config::{CollateralConfig, ExchangeConfig, PairConfig, VirtualConfig};
use surge::decimal::Decimal;
use surge::details::{account_details, pair_details, pairs_details, pool_details, requests_latest_first};
use surge::map::AssocMap;
use surge::pool::{PoolPosition, VirtualLiquidityPool};
use surge::requests::{Request, RequestRemoveCollateral, STATUS_ACTIVE, STATUS_EXECUTED};

const UNIT: i128 = 1_000_000_000_000_000_000;

fn d(x: i128) -> Decimal {
    Decimal::from_attos(x)
}

fn res(n: u128) -> ResourceAddress {
    ResourceAddress { high: 2, low: n }
}

fn pair(id: &str) -> PairConfig {
    PairConfig {
        pair_id: id.to_string(),
        oi_max: d(1000 * UNIT),
        trade_size_min: d(0),
        update_price_delta_ratio: d(UNIT / 100),
        update_period_seconds: 60,
        margin_initial: d(UNIT / 10),
        margin_maintenance: d(UNIT / 20),
        funding_1: d(0),
        funding_2: d(0),
        funding_2_delta: d(0),
        funding_2_decay: d(0),
        funding_pool_0: d(0),
        funding_pool_1: d(0),
        funding_share: d(0),
        fee_0: d(0),
        fee_1: d(0),
    }
}

fn pool_position(long_index: i128, short_index: i128) -> PoolPosition {
    PoolPosition {
        oi_long: d(5 * UNIT),
        oi_short: d(3 * UNIT),
        cost: d(0),
        skew_abs_snap: d(0),
        pnl_snap: d(0),
        funding_2_rate: d(0),
        funding_long_index: d(long_index),
        funding_short_index: d(short_index),
        last_update: 0,
        last_price: d(UNIT),
    }
}

fn setup() -> (VirtualConfig, VirtualLiquidityPool, VirtualMarginAccount) {
    let mut pair_configs = AssocMap::new();
    pair_configs.insert("BTC/USD".to_string(), pair("BTC/USD"));
    pair_configs.insert("ETH/USD".to_string(), pair("ETH/USD"));
    let mut collateral_configs = AssocMap::new();
    collateral_configs.insert(res(1), CollateralConfig { pair_id: "BTC/USD".to_string(), discount: d(UNIT / 2), margin: d(UNIT / 10) });
    collateral_configs.insert(res(2), CollateralConfig { pair_id: "ETH/USD".to_string(), discount: d(UNIT), margin: d(UNIT / 20) });
    let config = VirtualConfig { exchange_config: ExchangeConfig::default(), pair_configs, collateral_configs };
    let mut positions = AssocMap::new();
    positions.insert("BTC/USD".to_string(), pool_position(2 * UNIT, -UNIT));
    positions.insert("ETH/USD".to_string(), pool_position(0, UNIT / 2));
    let pool = VirtualLiquidityPool::new(positions, d(1000 * UNIT), d(-200 * UNIT), d(50 * UNIT), d(400 * UNIT), d(-50 * UNIT));
    let mut account_positions = AssocMap::new();
    account_positions.insert("BTC/USD".to_string(), AccountPosition { amount: d(3 * UNIT), cost: d(30 * UNIT), funding_index: d(UNIT) });
    account_positions.insert("ETH/USD".to_string(), AccountPosition { amount: d(-4 * UNIT), cost: d(-8 * UNIT), funding_index: d(0) });
    let mut balances = AssocMap::new();
    balances.insert(res(1), d(10 * UNIT));
    let info = MarginAccountInfo {
        positions: account_positions,
        collateral_balances: balances,
        virtual_balance: d(7 * UNIT),
        requests_len: 5,
        active_requests_len: 2,
        valid_requests_start: 1,
    };
    let account = VirtualMarginAccount::new(ComponentAddress { high: 1, low: 1 }, info, None, AssocMap::new());
    (config, pool, account)
}

fn kr(status: u8) -> KeeperRequest {
    KeeperRequest {
        request: Request::RemoveCollateral(RequestRemoveCollateral { target_account: ComponentAddress { high: 0, low: 0 }, claims: vec![] }),
        submission: 1,
        expiry: 2,
        status,
        effected_components: vec![],
    }
}

#[test]
fn account_details_show_positions_collateral_and_requests() {
    let (config, pool, account) = setup();
    let mut active = AssocMap::new();
    active.insert(2u64, kr(STATUS_ACTIVE));
    active.insert(4u64, kr(STATUS_ACTIVE));
    let history = vec![(4u64, kr(STATUS_ACTIVE)), (3u64, kr(STATUS_EXECUTED))];
    let details = account_details(&config, &pool, &account, &active, &history);
    assert!(details.virtual_balance.eq(d(7 * UNIT)));
    assert_eq!(details.positions.len(), 2);
    let btc = &details.positions[0];
    assert_eq!(btc.pair_id, "BTC/USD");
    // 3 × (2 − 1)
    assert!(btc.funding.eq(d(3 * UNIT)));
    assert!(btc.margin_initial.eq(d(3 * UNIT / 10)));
    assert!(btc.margin_maintenance.eq(d(3 * UNIT / 20)));
    let eth = &details.positions[1];
    // a short pays by the short index: 4 × (0.5 − 0)
    assert!(eth.funding.eq(d(2 * UNIT)));
    assert!(eth.margin_initial.eq(d(4 * UNIT / 10)));
    assert_eq!(details.collaterals.len(), 2);
    assert!(details.collaterals[0].amount.eq(d(10 * UNIT)));
    assert!(details.collaterals[0].margin.eq(d(UNIT)));
    assert!(details.collaterals[1].amount.is_zero());
    assert_eq!(details.collaterals[1].pair_id, "ETH/USD");
    assert_eq!(details.active_requests.iter().map(|r| r.index).collect::<Vec<u64>>(), vec![4, 2]);
    assert_eq!(details.requests_history.len(), 2);
    assert_eq!(details.requests_history[1].status, STATUS_EXECUTED);
    assert_eq!(details.requests_len, 5);
    assert_eq!(details.valid_requests_start, 1);
    assert!(details.referral.is_none());
}

#[test]
fn requests_come_latest_first() {
    let mut fetched = AssocMap::new();
    for i in [5u64, 1, 9, 3] {
        fetched.insert(i, kr(STATUS_ACTIVE));
    }
    let sorted = requests_latest_first(&fetched);
    assert_eq!(sorted.iter().map(|(i, _)| *i).collect::<Vec<u64>>(), vec![9, 5, 3, 1]);
    assert!(requests_latest_first(&AssocMap::new()).is_empty());
}

#[test]
fn pool_details_price_the_lp_token() {
    let (config, pool, _) = setup();
    let details = pool_details(&config, &pool, d(400 * UNIT));
    // (1000 − 200 + 50 − 50) / 400
    assert!(details.lp_price.eq(d(2 * UNIT)));
    // 400 / 800
    assert!(details.skew_ratio.eq(d(UNIT / 2)));
    assert!(details.skew_ratio_cap.eq(d(15 * UNIT / 100)));
    let first = pool_details(&config, &pool, d(0));
    assert!(first.lp_price.eq(d(UNIT)));
}

#[test]
fn pair_details_pair_settings_with_pool_position() {
    let (config, pool, _) = setup();
    let one = pair_details(&config, &pool, &"ETH/USD".to_string());
    assert_eq!(one.pair_id, "ETH/USD");
    assert!(one.pool_position.funding_short_index.eq(d(UNIT / 2)));
    assert!(one.pair_config.margin_initial.eq(d(UNIT / 10)));
    let all = pairs_details(&config, &pool, &vec!["BTC/USD".to_string(), "ETH/USD".to_string()]);
    assert_eq!(all.len(), 2);
    assert_eq!(all[0].pair_config.pair_id, "BTC/USD");
}

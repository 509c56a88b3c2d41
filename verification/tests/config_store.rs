use surge::common::ResourceAddress;
use surge::config::{CollateralConfig, ConfigError, ExchangeConfig, PairConfig, VirtualConfig};
use surge::config_store::Config;
use surge::d_float::DFloat16;
use surge::decimal::Decimal;

const UNIT: i128 = 1_000_000_000_000_000_000;

fn d(x: i128) -> Decimal {
    Decimal::from_attos(x)
}

fn res(n: u128) -> ResourceAddress {
    ResourceAddress { high: 3, low: n }
}

fn pair(id: &str, oi_max: i128) -> PairConfig {
    PairConfig {
        pair_id: id.to_string(),
        oi_max: d(oi_max * UNIT),
        trade_size_min: d(UNIT / 1000),
        update_price_delta_ratio: d(UNIT / 1000),
        update_period_seconds: 3600,
        margin_initial: d(UNIT / 100),
        margin_maintenance: d(UNIT / 200),
        funding_1: d(UNIT / 10),
        funding_2: d(UNIT / 10),
        funding_2_delta: d(UNIT / 10),
        funding_2_decay: d(UNIT / 10),
        funding_pool_0: d(UNIT / 100),
        funding_pool_1: d(UNIT / 100),
        funding_share: d(UNIT / 10),
        fee_0: d(UNIT / 1000),
        fee_1: d(UNIT / 10_000_000),
    }
}

fn collateral(feed: &str) -> CollateralConfig {
    CollateralConfig { pair_id: feed.to_string(), discount: d(9 * UNIT / 10), margin: d(UNIT / 10) }
}

#[test]
fn new_store_holds_the_default_exchange_settings() {
    let store = Config::new();
    assert_eq!(store.get_pair_configs_len(), 0);
    let e = store.exchange.decompress();
    assert_eq!(e.max_price_age_seconds, 5);
    assert_eq!(e.positions_max, 30);
    assert!(e.skew_ratio_cap.eq(d(15 * UNIT / 100)));
    assert!(e.fee_share_protocol.eq(d(22 * UNIT / 100)));
    assert!(e.protocol_burn_amount.eq(d(10_000 * UNIT)));
    assert!(e.validate().is_ok());
}

#[test]
fn stored_pair_settings_read_back_compressed() {
    let mut store = Config::new();
    assert!(store.update_pair_configs(vec![pair("BTC/USD", 100), pair("ETH/USD", 50), pair("BTC/USD", 200)]).is_ok());
    assert_eq!(store.get_pair_configs_len(), 2);
    let by_ids = store.get_pair_configs_by_ids(&vec!["BTC/USD".to_string(), "SOL/USD".to_string()]);
    let btc = by_ids.get(&"BTC/USD".to_string()).unwrap().as_ref().unwrap();
    assert!(btc.oi_max.to_decimal().eq(d(200 * UNIT)));
    assert_eq!(btc.oi_max.0, DFloat16::from_decimal(d(200 * UNIT)).0);
    assert!(by_ids.get(&"SOL/USD".to_string()).unwrap().is_none());
    let page = store.get_pair_configs(10, Some(1));
    assert_eq!(page.len(), 1);
    assert_eq!(page[0].pair_id, "ETH/USD");
    let page = store.get_pair_configs(1, None);
    assert_eq!(page.len(), 1);
    assert_eq!(page[0].pair_id, "BTC/USD");
    assert_eq!(store.get_pair_configs(3, Some(5)).len(), 0);
}

#[test]
fn refused_pair_settings_store_nothing() {
    let mut store = Config::new();
    let mut bad = pair("XRP/USD", 10);
    bad.margin_initial = d(2 * UNIT);
    let r = store.update_pair_configs(vec![pair("BTC/USD", 100), bad]);
    assert_eq!(r, Err(ConfigError::MarginInitial));
    assert_eq!(store.get_pair_configs_len(), 0);
}

#[test]
fn exchange_settings_are_validated_before_storing() {
    let mut store = Config::new();
    let mut c = ExchangeConfig::default();
    c.positions_max = 0;
    assert_eq!(store.update_exchange_config(c), Err(ConfigError::PositionsMax));
    assert_eq!(store.exchange.positions_max, 30);
    let mut c = ExchangeConfig::default();
    c.positions_max = 12;
    assert!(store.update_exchange_config(c).is_ok());
    assert_eq!(store.exchange.positions_max, 12);
}

#[test]
fn collateral_settings_store_and_remove() {
    let mut store = Config::new();
    assert!(store.update_collateral_configs(vec![(res(1), collateral("BTC/USD")), (res(2), collateral("ETH/USD"))]).is_ok());
    let mut bad = collateral("SOL/USD");
    bad.discount = d(-1);
    assert_eq!(store.update_collateral_configs(vec![(res(3), bad)]), Err(ConfigError::Discount));
    assert_eq!(store.collaterals.len(), 2);
    store.remove_collateral_config(res(1));
    assert_eq!(store.collaterals.len(), 1);
    assert!(store.collaterals.get(&res(1)).is_none());
    assert_eq!(store.collaterals.get(&res(2)).unwrap().pair_id, "ETH/USD");
}

#[test]
fn loaded_settings_decompress_into_working_settings() {
    let mut store = Config::new();
    assert!(store.update_pair_configs(vec![pair("BTC/USD", 100)]).is_ok());
    assert!(store.update_collateral_configs(vec![(res(1), collateral("BTC/USD"))]).is_ok());
    let info = store.get_info(&vec!["BTC/USD".to_string()]).decompress();
    assert_eq!(info.exchange.positions_max, 30);
    let config = VirtualConfig::new(info);
    let btc = config.pair_config(&"BTC/USD".to_string());
    assert!(btc.oi_max.eq(d(100 * UNIT)));
    assert!(btc.margin_initial.eq(d(UNIT / 100)));
    let feeds = config.collateral_feeds();
    assert_eq!(feeds.len(), 1);
    assert_eq!(feeds[0].0, res(1));
    assert_eq!(feeds[0].1, "BTC/USD");
    assert!(config.exchange_config().fee_max.eq(d(UNIT / 100)));
}

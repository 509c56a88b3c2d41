use surge::account::{AccountPosition, MarginAccountInfo, ReferralData, VirtualMarginAccount};
use surge::common::{ComponentAddress, ExchangeError, ResourceAddress};
use surge::config::{CollateralConfig, ExchangeConfig, PairConfig, VirtualConfig};
use surge::decimal::Decimal;
use surge::liquidation::{auto_deleverage, distinct_pair_ids, liquidate, liquidate_v2, update_pairs};
use surge::map::AssocMap;
use surge::oracle::VirtualOracle;
use surge::pool::{PoolPosition, VirtualLiquidityPool};
use surge::requests::{PriceLimit, RequestMarginOrder, SlippageLimit};
use surge::trade::margin_order;

const UNIT: i128 = 1_000_000_000_000_000_000;
const NOW: i64 = 1_000;

fn d(x: i128) -> Decimal {
    Decimal::from_attos(x)
}

fn btc() -> String {
    "BTC/USD".to_string()
}

fn config(oi_max: i128) -> VirtualConfig {
    let mut pair_configs = AssocMap::new();
    pair_configs.insert(
        btc(),
        PairConfig {
            pair_id: btc(),
            oi_max: d(oi_max * UNIT),
            trade_size_min: d(0),
            update_price_delta_ratio: d(UNIT / 100),
            update_period_seconds: 3600,
            margin_initial: d(UNIT / 10),
            margin_maintenance: d(UNIT / 20),
            funding_1: d(0),
            funding_2: d(0),
            funding_2_delta: d(0),
            funding_2_decay: d(0),
            funding_pool_0: d(0),
            funding_pool_1: d(0),
            funding_share: d(0),
            fee_0: d(UNIT / 1000),
            fee_1: d(0),
        },
    );
    let mut collateral_configs = AssocMap::new();
    collateral_configs.insert(
        ResourceAddress { high: 1, low: 1 },
        CollateralConfig { pair_id: btc(), discount: d(UNIT / 2), margin: d(UNIT / 10) },
    );
    VirtualConfig { exchange_config: ExchangeConfig::default(), pair_configs, collateral_configs }
}

fn base() -> ResourceAddress {
    ResourceAddress { high: 0, low: 1 }
}

fn pool(base: i128, oi_long: i128, cost: i128) -> VirtualLiquidityPool {
    pool_with(base, oi_long, 0, cost)
}

fn pool_with(base: i128, oi_long: i128, oi_short: i128, cost: i128) -> VirtualLiquidityPool {
    let mut positions = AssocMap::new();
    positions.insert(
        btc(),
        PoolPosition {
            oi_long: d(oi_long * UNIT),
            oi_short: d(oi_short * UNIT),
            cost: d(cost * UNIT),
            skew_abs_snap: d(0),
            pnl_snap: d(0),
            funding_2_rate: d(0),
            funding_long_index: d(0),
            funding_short_index: d(0),
            last_update: NOW,
            last_price: d(100 * UNIT),
        },
    );
    VirtualLiquidityPool::new(positions, d(base * UNIT), d(0), d(0), d(0), d(0))
}

fn account(virtual_balance: i128, position: Option<(i128, i128)>) -> VirtualMarginAccount {
    let mut positions = AssocMap::new();
    if let Some((amount, cost)) = position {
        positions.insert(btc(), AccountPosition { amount: d(amount * UNIT), cost: d(cost * UNIT), funding_index: d(0) });
    }
    let info = MarginAccountInfo {
        positions,
        collateral_balances: AssocMap::new(),
        virtual_balance: d(virtual_balance * UNIT),
        requests_len: 0,
        active_requests_len: 0,
        valid_requests_start: 0,
    };
    VirtualMarginAccount::new(ComponentAddress { high: 5, low: 5 }, info, None, AssocMap::new())
}

fn oracle(price: i128) -> VirtualOracle {
    let mut prices = AssocMap::new();
    prices.insert(btc(), d(price * UNIT));
    let mut resource_map = AssocMap::new();
    resource_map.insert(ResourceAddress { high: 1, low: 1 }, btc());
    VirtualOracle { prices, resource_map }
}

fn order(amount: i128, reduce_only: bool, price_limit: PriceLimit) -> RequestMarginOrder {
    RequestMarginOrder {
        pair_id: btc(),
        amount: d(amount * UNIT),
        reduce_only,
        price_limit,
        slippage_limit: SlippageLimit::Unlimited,
        activate_requests: vec![],
        cancel_requests: vec![],
    }
}

#[test]
fn margin_order_opens_a_long() {
    let cfg = config(1000);
    let mut p = pool(100_000, 0, 0);
    let mut a = account(1000, None);
    let r = margin_order(&cfg, &mut p, &mut a, &oracle(100), NOW, &order(1, false, PriceLimit::Unlimited)).ok().unwrap();
    assert!(r.amount_open.eq(d(UNIT)));
    assert!(r.amount_close.is_zero());
    // without a referral the rebate factor is one: the full fee of 100 × 0.001
    let fees = r.fee_pool.add(r.fee_protocol).add(r.fee_treasury).add(r.fee_referral);
    assert!(fees.eq(d(-100_000_000_000_000_000)));
    assert!(r.fee_referral.is_zero());
    let position = a.position(&btc());
    assert!(position.amount.eq(d(UNIT)));
    assert!(position.cost.eq(d(100 * UNIT + 100_000_000_000_000_000)));
    assert!(p.position(&btc()).oi_long.eq(d(UNIT)));
}

#[test]
fn margin_order_with_a_referral_pays_the_rebated_fee() {
    let cfg = config(1000);
    let mut p = pool(100_000, 0, 0);
    let mut a = account(1000, None);
    a.referral = Some(ReferralData {
        fee_referral: d(UNIT / 20),
        fee_rebate: d(UNIT / 20),
        referrals: 1,
        max_referrals: 10,
        balance: d(0),
        total_rewarded: d(0),
    });
    let r = margin_order(&cfg, &mut p, &mut a, &oracle(100), NOW, &order(1, false, PriceLimit::Unlimited)).ok().unwrap();
    // 100 × 0.001 × (1 − 0.05)
    let fees = r.fee_pool.add(r.fee_protocol).add(r.fee_treasury).add(r.fee_referral);
    assert!(fees.eq(d(-95_000_000_000_000_000)));
    assert!(r.fee_protocol.eq(d(-20_900_000_000_000_000)));
    assert!(r.fee_treasury.eq(d(-7_600_000_000_000_000)));
    // the whole referral share of 5 % goes to the referrer
    assert!(r.fee_referral.eq(d(-4_750_000_000_000_000)));
    assert!(a.referral.unwrap().balance.eq(d(4_750_000_000_000_000)));
    assert!(a.position(&btc()).cost.eq(d(100 * UNIT + 95_000_000_000_000_000)));
}

#[test]
fn reduce_only_order_closes_at_most_the_position() {
    let cfg = config(1000);
    let mut p = pool(100_000, 2, 200);
    let mut a = account(1000, Some((2, 200)));
    let r = margin_order(&cfg, &mut p, &mut a, &oracle(100), NOW, &order(-5, true, PriceLimit::Unlimited)).ok().unwrap();
    assert!(r.amount_close.eq(d(-2 * UNIT)));
    assert!(r.amount_open.is_zero());
    assert!(a.position(&btc()).amount.is_zero());
    assert!(p.position(&btc()).oi_long.is_zero());
}

#[test]
fn margin_order_refusals() {
    let cfg = config(1000);
    let mut p = pool(100_000, 0, 0);
    let mut a = account(1000, None);
    let r = margin_order(&cfg, &mut p, &mut a, &oracle(100), NOW, &order(1, false, PriceLimit::Gte(d(200 * UNIT))));
    assert_eq!(r.err(), Some(ExchangeError::MarginOrderPriceLimit));

    let small = config(0);
    let r = margin_order(&small, &mut p, &mut a, &oracle(100), NOW, &order(1, false, PriceLimit::Unlimited));
    assert_eq!(r.err(), Some(ExchangeError::PairOiTooHigh));

    let mut shallow = pool(100, 0, 0);
    let r = margin_order(&cfg, &mut shallow, &mut a, &oracle(100), NOW, &order(1, false, PriceLimit::Unlimited));
    assert_eq!(r.err(), Some(ExchangeError::SkewTooHigh));

    let mut poor = account(5, None);
    let mut p = pool(100_000, 0, 0);
    let r = margin_order(&cfg, &mut p, &mut poor, &oracle(100), NOW, &order(1, false, PriceLimit::Unlimited));
    assert_eq!(r.err(), Some(ExchangeError::InsufficientMargin));
}

#[test]
fn liquidation_forgives_what_the_account_cannot_pay() {
    let cfg = config(1000);
    let mut p = pool(100_000, 1, 100);
    let mut a = account(10, Some((1, 100)));
    let r = liquidate(&cfg, &mut p, &mut a, &oracle(50), NOW, base(), base(), d(0), 6).ok().unwrap();
    assert!(a.virtual_balance.is_zero());
    // the pool's loss is reported as the negative balance it wrote off:
    // 10 − 50 − the closing fee of 50 × 0.001
    assert!(r.pool_loss.eq(d(-40 * UNIT - 50_000_000_000_000_000)));
    assert!(a.position(&btc()).amount.is_zero());
}

#[test]
fn liquidation_takes_every_collateral_balance() {
    let cfg = config(1000);
    let mut p = pool(100_000, 1, 100);
    let mut a = account(10, Some((1, 100)));
    let listed = ResourceAddress { high: 1, low: 1 };
    let unlisted = ResourceAddress { high: 7, low: 7 };
    a.collateral_balances.insert(listed, d(UNIT / 100));
    a.collateral_balances.insert(unlisted, d(3 * UNIT));
    let r = liquidate(&cfg, &mut p, &mut a, &oracle(50), NOW, base(), base(), d(UNIT), 6).ok().unwrap();
    // the listed balance is worth 0.01 × 50 = 0.5, discounted by half
    assert!(r.payment_value.eq(d(UNIT / 4)));
    assert!(r.remainder.eq(d(3 * UNIT / 4)));
    assert_eq!(r.collateral.collateral_amounts.len(), 1);
    // both balances leave the account, the unlisted one too
    assert_eq!(r.withdrawn.len(), 2);
    assert!(r.withdrawn[0].0 == listed && r.withdrawn[0].1.eq(d(UNIT / 100)));
    assert!(r.withdrawn[1].0 == unlisted && r.withdrawn[1].1.eq(d(3 * UNIT)));
    assert_eq!(a.collateral_balances.len(), 0);
}

#[test]
fn liquidation_into_another_account_moves_every_balance() {
    let cfg = config(1000);
    let mut p = pool(100_000, 1, 100);
    let mut a = account(10, Some((1, 100)));
    let listed = ResourceAddress { high: 1, low: 1 };
    let unlisted = ResourceAddress { high: 7, low: 7 };
    a.collateral_balances.insert(listed, d(UNIT / 100));
    a.collateral_balances.insert(unlisted, d(3 * UNIT));
    let mut receiver = account(1000, None);
    let r = liquidate_v2(&cfg, &mut p, &mut a, &mut receiver, &oracle(50), NOW).ok().unwrap();
    // the receiver pays the discounted value of the listed balance, 0.25
    assert!(receiver.virtual_balance.eq(d(1000 * UNIT - UNIT / 4)));
    assert_eq!(receiver.collateral_balances.len(), 2);
    assert_eq!(r.withdrawn.len(), 2);
    assert_eq!(a.collateral_balances.len(), 0);
    // 10 − 50 − the closing fee of 0.05 + 0.25
    assert!(r.pool_loss.eq(d(-39 * UNIT - 800_000_000_000_000_000)));
    assert!(a.virtual_balance.is_zero());
}

#[test]
fn liquidation_refuses_a_payment_in_another_token() {
    let cfg = config(1000);
    let mut p = pool(100_000, 1, 100);
    let mut a = account(10, Some((1, 100)));
    let other = ResourceAddress { high: 9, low: 9 };
    let r = liquidate(&cfg, &mut p, &mut a, &oracle(50), NOW, other, base(), d(UNIT), 6);
    assert_eq!(r.err(), Some(ExchangeError::InvalidPaymentToken));
}

#[test]
fn liquidation_refused_while_margin_suffices() {
    let cfg = config(1000);
    let mut p = pool(100_000, 1, 100);
    let mut a = account(1000, Some((1, 100)));
    let r = liquidate(&cfg, &mut p, &mut a, &oracle(100), NOW, base(), base(), d(0), 6);
    assert_eq!(r.err(), Some(ExchangeError::LiquidationSufficientMargin));
}

#[test]
fn auto_deleverage_refused_while_skew_is_low() {
    let cfg = config(1000);
    let mut p = pool(100_000, 1, 100);
    let mut a = account(1000, Some((1, 100)));
    let r = auto_deleverage(&cfg, &mut p, &mut a, &oracle(150), NOW, &btc());
    assert_eq!(r.err(), Some(ExchangeError::AdlSkewTooLow));
}

#[test]
fn auto_deleverage_closes_a_profitable_position_when_skew_is_high() {
    let cfg = config(1000);
    let mut p = pool(1_000, 10, 1000);
    let mut a = account(0, Some((10, 1000)));
    let r = auto_deleverage(&cfg, &mut p, &mut a, &oracle(150), NOW, &btc()).ok().unwrap();
    assert!(r.amount_close.eq(d(-10 * UNIT)));
    assert!(a.position(&btc()).amount.is_zero());
    assert!(r.pnl_percent.gt(r.threshold));
    // (1500 − 1000) / 1000
    assert!(r.pnl_percent.eq(d(UNIT / 2)));
}

#[test]
fn auto_deleverage_ranks_a_profitable_short_by_its_gain() {
    let cfg = config(1000);
    let mut p = pool_with(1_000, 0, 10, -1000);
    let mut a = account(0, Some((-10, -1000)));
    let r = auto_deleverage(&cfg, &mut p, &mut a, &oracle(90), NOW, &btc()).ok().unwrap();
    // opened at 100, now at 90: (−900 + 1000) / |−1000| = +0.1, as a long with the same gain
    assert!(r.pnl_percent.eq(d(UNIT / 10)));
    assert!(r.amount_close.eq(d(10 * UNIT)));
    assert!(a.position(&btc()).amount.is_zero());
}

#[test]
fn an_account_without_a_referral_pays_the_full_fee() {
    let a = account(0, None);
    assert!(a.fee_rebate().eq(d(UNIT)));
}

#[test]
fn updating_pairs_updates_each_pair_once() {
    let cfg = config(1000);
    let mut p = pool(100_000, 0, 0);
    let ids = vec![btc(), btc(), btc()];
    assert_eq!(distinct_pair_ids(&ids), vec![btc()]);
    // an hour later the update is due: one pair, one reward
    let r = update_pairs(&cfg, &mut p, &oracle(100), NOW + 3600, &ids);
    assert_eq!(r, vec![true]);
    assert_eq!(p.position(&btc()).last_update, NOW + 3600);
}

#[test]
fn oracle_prices_must_be_fresh_and_positive() {
    let mut feeds = AssocMap::new();
    feeds.insert(btc(), 60i64);
    let resources = vec![(ResourceAddress { high: 1, low: 1 }, btc(), 60i64)];
    let ok = VirtualOracle::new(&resources, &feeds, &vec![(btc(), d(100 * UNIT), NOW - 10)], NOW).ok().unwrap();
    assert!(ok.price(&btc()).eq(d(100 * UNIT)));
    assert!(ok.price_resource(&ResourceAddress { high: 1, low: 1 }).eq(d(100 * UNIT)));
    let old = VirtualOracle::new(&resources, &feeds, &vec![(btc(), d(100 * UNIT), NOW - 60)], NOW);
    assert_eq!(old.err(), Some(ExchangeError::PriceTooOld));
    let zero = VirtualOracle::new(&resources, &feeds, &vec![(btc(), d(0), NOW)], NOW);
    assert_eq!(zero.err(), Some(ExchangeError::InvalidPrice));
}

#[test]
fn executing_a_processed_margin_order_trades() {
    let cfg = config(1000);
    let mut p = pool(100_000, 0, 0);
    let mut a = account(1000, None);
    let request = surge::requests::Request::MarginOrder(order(2, false, PriceLimit::Unlimited));
    let base = ResourceAddress { high: 0, low: 1 };
    let r = surge::keeper::execute_request(&cfg, &mut p, &mut a, &oracle(100), NOW, request, base, 6);
    match r {
        Ok(surge::keeper::Executed::Order(x)) => assert!(x.amount_open.eq(d(2 * UNIT))),
        _ => panic!("the order did not trade"),
    }
    assert!(a.position(&btc()).amount.eq(d(2 * UNIT)));
}

#[test]
fn auto_deleverage_refusals_when_skew_is_high() {
    let cfg = config(1000);
    // no position to close
    let mut p = pool(1_000, 10, 1000);
    let mut a = account(0, None);
    let r = auto_deleverage(&cfg, &mut p, &mut a, &oracle(150), NOW, &btc());
    assert_eq!(r.err(), Some(ExchangeError::AdlNoPosition));
    // just past the cap the threshold is about 0.23, above a position at no profit:
    // skew ratio 1000 / 6250 = 0.16, u = (0.16 − 0.2) / 0.07
    let mut p = pool(6_250, 10, 1000);
    let mut a = account(100, Some((10, 1000)));
    let r = auto_deleverage(&cfg, &mut p, &mut a, &oracle(100), NOW, &btc());
    assert_eq!(r.err(), Some(ExchangeError::AdlPnlBelowThreshold));
}

#[test]
fn margin_order_slippage_and_position_limits() {
    let cfg = config(1000);
    let mut p = pool(100_000, 0, 0);
    let mut a = account(1000, None);
    a.referral = Some(ReferralData {
        fee_referral: d(0),
        fee_rebate: d(0),
        referrals: 0,
        max_referrals: 1,
        balance: d(0),
        total_rewarded: d(0),
    });
    let mut o = order(1, false, PriceLimit::Unlimited);
    o.slippage_limit = SlippageLimit::Absolute(d(UNIT / 100));
    let r = margin_order(&cfg, &mut p, &mut a, &oracle(100), NOW, &o);
    assert_eq!(r.err(), Some(ExchangeError::MarginOrderSlippageLimit));

    let mut limited = config(1000);
    limited.exchange_config.positions_max = 0;
    let mut p = pool(100_000, 0, 0);
    let mut a = account(1000, None);
    let r = margin_order(&limited, &mut p, &mut a, &oracle(100), NOW, &order(1, false, PriceLimit::Unlimited));
    assert_eq!(r.err(), Some(ExchangeError::PositionsTooMany));
}

use surge::account::{MarginAccountInfo, VirtualMarginAccount};
use surge::collateral::{add_collateral, remove_collateral, settle_fee_oath, swap_debt};
use surge::common::{ComponentAddress, ExchangeError, ResourceAddress};
use surge::config::{CollateralConfig, ExchangeConfig, VirtualConfig};
use surge::decimal::Decimal;
use surge::liquidity::{add_liquidity, remove_liquidity};
use surge::map::AssocMap;
use surge::oracle::VirtualOracle;
use surge::orders::{margin_order_request, margin_order_tp_sl_request, remove_collateral_request};
use surge::pool::VirtualLiquidityPool;
use surge::requests::{PriceLimit, RequestIndexRef, SlippageLimit, STATUS_ACTIVE, STATUS_DORMANT, STATUS_EXECUTED};
use surge::config::PairConfig;

const UNIT: i128 = 1_000_000_000_000_000_000;

fn d(x: i128) -> Decimal {
    Decimal::from_attos(x)
}

fn base() -> ResourceAddress {
    ResourceAddress { high: 0, low: 1 }
}

fn xrd() -> ResourceAddress {
    ResourceAddress { high: 0, low: 2 }
}

fn config() -> VirtualConfig {
    let mut collateral_configs = AssocMap::new();
    collateral_configs.insert(xrd(), CollateralConfig { pair_id: "XRD/USD".to_string(), discount: d(UNIT / 2), margin: d(UNIT / 10) });
    let mut pair_configs = AssocMap::new();
    pair_configs.insert(
        "XRD/USD".to_string(),
        PairConfig {
            pair_id: "XRD/USD".to_string(),
            oi_max: d(1000 * UNIT),
            trade_size_min: d(UNIT),
            update_price_delta_ratio: d(UNIT / 100),
            update_period_seconds: 60,
            margin_initial: d(UNIT / 10),
            margin_maintenance: d(UNIT / 20),
            funding_1: d(0),
            funding_2: d(0),
            funding_2_delta: d(0),
            funding_2_decay: d(0),
            funding_pool_0: d(0),
            funding_pool_1: d(0),
            funding_share: d(0),
            fee_0: d(0),
            fee_1: d(0),
        },
    );
    VirtualConfig { exchange_config: ExchangeConfig::default(), pair_configs, collateral_configs }
}

fn pool(base_tokens: i128) -> VirtualLiquidityPool {
    VirtualLiquidityPool::new(AssocMap::new(), d(base_tokens * UNIT), d(0), d(0), d(0), d(0))
}

fn account(virtual_balance: i128, xrd_balance: i128, active: usize) -> VirtualMarginAccount {
    let mut balances = AssocMap::new();
    if xrd_balance > 0 {
        balances.insert(xrd(), d(xrd_balance * UNIT));
    }
    let info = MarginAccountInfo {
        positions: AssocMap::new(),
        collateral_balances: balances,
        virtual_balance: d(virtual_balance * UNIT),
        requests_len: 4,
        active_requests_len: active,
        valid_requests_start: 0,
    };
    VirtualMarginAccount::new(ComponentAddress { high: 8, low: 8 }, info, None, AssocMap::new())
}

fn oracle() -> VirtualOracle {
    let mut prices = AssocMap::new();
    prices.insert("XRD/USD".to_string(), d(2 * UNIT));
    let mut resource_map = AssocMap::new();
    resource_map.insert(xrd(), "XRD/USD".to_string());
    VirtualOracle { prices, resource_map }
}

#[test]
fn added_base_tokens_credit_the_account_and_collateral_is_kept() {
    let cfg = config();
    let mut p = pool(100);
    let mut a = account(0, 0, 0);
    assert_eq!(add_collateral(&cfg, &mut p, &mut a, base(), &vec![(base(), d(5 * UNIT)), (xrd(), d(3 * UNIT))]), Ok(()));
    assert!(a.virtual_balance.eq(d(5 * UNIT)));
    assert!(p.base_tokens_amount.eq(d(105 * UNIT)));
    assert!(a.collateral_amount(&xrd()).eq(d(3 * UNIT)));
    let other = ResourceAddress { high: 9, low: 9 };
    let mut a = account(0, 0, 0);
    assert_eq!(add_collateral(&cfg, &mut p, &mut a, base(), &vec![(other, d(UNIT))]), Err(ExchangeError::InvalidCollateral));
}

#[test]
fn removing_collateral_pays_out_claims() {
    let cfg = config();
    let mut p = pool(100);
    let mut a = account(10, 20, 0);
    let paid = remove_collateral(&cfg, &mut p, &mut a, &oracle(), &vec![(xrd(), d(5 * UNIT)), (base(), d(4 * UNIT))], base(), 6)
        .ok()
        .unwrap();
    assert_eq!(paid.len(), 2);
    assert!(a.collateral_amount(&xrd()).eq(d(15 * UNIT)));
    assert!(a.virtual_balance.eq(d(6 * UNIT)));
    assert!(p.base_tokens_amount.eq(d(96 * UNIT)));
    let mut a = account(10, 20, 0);
    let r = remove_collateral(&cfg, &mut p, &mut a, &oracle(), &vec![(xrd(), d(21 * UNIT))], base(), 6);
    assert_eq!(r.err(), Some(ExchangeError::WithdrawalInsufficientBalance));
}

#[test]
fn fee_oath_must_be_the_oath_resource() {
    let cfg = config();
    let p = pool(100);
    let oath = ResourceAddress { high: 4, low: 4 };
    let mut a = account(10, 0, 0);
    assert_eq!(settle_fee_oath(&cfg, &p, &mut a, &oracle(), oath, xrd(), d(UNIT)), Err(ExchangeError::InvalidFeeOath));
    assert_eq!(settle_fee_oath(&cfg, &p, &mut a, &oracle(), oath, oath, d(UNIT)), Ok(()));
    assert!(a.virtual_balance.eq(d(9 * UNIT)));
}

#[test]
fn debt_swap_needs_debt() {
    let cfg = config();
    let mut p = pool(100);
    let mut a = account(10, 20, 0);
    let r = swap_debt(&cfg, &mut p, &mut a, &oracle(), xrd(), base(), base(), d(UNIT), 6);
    assert_eq!(r.err(), Some(ExchangeError::SwapNoDebt));
}

#[test]
fn liquidity_goes_in_for_base_tokens_and_out_for_lp_tokens() {
    let cfg = config();
    let lp = ResourceAddress { high: 6, low: 6 };
    let mut p = pool(0);
    let added = add_liquidity(&cfg, &mut p, base(), base(), d(1000 * UNIT), d(0)).ok().unwrap();
    // the first liquidity gets one pool token per base token after the 0.1 % fee
    assert!(added.lp_amount.eq(d(999 * UNIT)));
    assert!(added.lp_price.eq(d(UNIT)));
    assert!(p.base_tokens_amount.eq(d(1000 * UNIT)));
    assert_eq!(add_liquidity(&cfg, &mut p, base(), xrd(), d(UNIT), d(0)).err(), Some(ExchangeError::InvalidPaymentToken));
    assert_eq!(remove_liquidity(&cfg, &mut p, lp, base(), d(UNIT), d(999 * UNIT), 6).err(), Some(ExchangeError::InvalidLpToken));
    let removed = remove_liquidity(&cfg, &mut p, lp, lp, d(100 * UNIT), d(999 * UNIT), 6).ok().unwrap();
    assert!(removed.amount.is_negative());
    assert!(removed.lp_amount.eq(d(-100 * UNIT)));
}

#[test]
fn request_making_refusals() {
    let cfg = config();
    let xrd_pair = "XRD/USD".to_string();
    let mut a = account(0, 0, 0);
    let r = margin_order_request(&cfg, &mut a, 100, 0, 60, xrd_pair.clone(), d(UNIT / 2), false, PriceLimit::Unlimited,
        SlippageLimit::Unlimited, &vec![], &vec![], STATUS_ACTIVE);
    assert_eq!(r, Err(ExchangeError::TradeSizeMinNotMet));
    let three = vec![RequestIndexRef::Index(0), RequestIndexRef::Index(1), RequestIndexRef::Index(2)];
    let r = margin_order_request(&cfg, &mut a, 100, 0, 60, xrd_pair.clone(), d(UNIT), false, PriceLimit::Unlimited,
        SlippageLimit::Unlimited, &three, &vec![], STATUS_ACTIVE);
    assert_eq!(r, Err(ExchangeError::EffectedRequestsTooMany));
    let r = margin_order_request(&cfg, &mut a, 100, 0, 60, xrd_pair.clone(), d(UNIT), false, PriceLimit::Unlimited,
        SlippageLimit::Unlimited, &vec![], &vec![], STATUS_EXECUTED);
    assert_eq!(r, Err(ExchangeError::InvalidRequestStatus));
    let mut full = account(0, 0, 100);
    let r = margin_order_request(&cfg, &mut full, 100, 0, 60, xrd_pair.clone(), d(UNIT), false, PriceLimit::Unlimited,
        SlippageLimit::Unlimited, &vec![], &vec![], STATUS_DORMANT);
    assert_eq!(r, Err(ExchangeError::ActiveRequestsTooMany));
    let claims: Vec<(ResourceAddress, Decimal)> = (0..11).map(|_| (xrd(), d(UNIT))).collect();
    let r = remove_collateral_request(&cfg, &mut a, 100, 60, ComponentAddress { high: 0, low: 0 }, claims);
    assert_eq!(r, Err(ExchangeError::ClaimsTooMany));
}

#[test]
fn requests_are_made_at_the_next_index() {
    let cfg = config();
    let mut a = account(0, 0, 0);
    let r = margin_order_request(&cfg, &mut a, 100, 5, 60, "XRD/USD".to_string(), d(-2 * UNIT), true,
        PriceLimit::Lte(d(3 * UNIT)), SlippageLimit::Unlimited, &vec![RequestIndexRef::RelativeIndex(1)], &vec![],
        STATUS_DORMANT);
    assert_eq!(r, Ok(4));
    let r = margin_order_tp_sl_request(&cfg, &mut a, 100, 0, 60, "XRD/USD".to_string(), d(2 * UNIT), false,
        PriceLimit::Unlimited, SlippageLimit::Unlimited, Some(d(3 * UNIT)), Some(d(UNIT)));
    assert_eq!(r, Ok((4, Some(5), Some(6))));
    assert_eq!(a.active_requests_len(), 4);
    let updates = a.realize();
    assert_eq!(updates.request_additions.len(), 4);
    assert_eq!(updates.request_additions[2].status, STATUS_DORMANT);
}

#[test]
fn collateral_resources_are_limited() {
    let mut cfg = config();
    cfg.exchange_config.collaterals_max = 0;
    let mut p = pool(100);
    let mut a = account(0, 0, 0);
    assert_eq!(add_collateral(&cfg, &mut p, &mut a, base(), &vec![(xrd(), d(UNIT))]), Err(ExchangeError::CollateralsTooMany));
    // base tokens are credited, not held as collateral
    let mut a = account(0, 0, 0);
    assert_eq!(add_collateral(&cfg, &mut p, &mut a, base(), &vec![(base(), d(UNIT))]), Ok(()));
}

#[test]
fn adding_then_removing_liquidity_returns_no_more_than_paid() {
    let cfg = config();
    let lp = ResourceAddress { high: 6, low: 6 };
    let mut p = pool(1000);
    let added = add_liquidity(&cfg, &mut p, base(), base(), d(100 * UNIT), d(800 * UNIT)).ok().unwrap();
    let supply = d(800 * UNIT).add(added.lp_amount);
    let removed = remove_liquidity(&cfg, &mut p, lp, lp, added.lp_amount, supply, 6).ok().unwrap();
    let paid_out = removed.amount.neg();
    assert!(paid_out.le(d(100 * UNIT)));
    assert!(paid_out.gt(d(99 * UNIT)));
}

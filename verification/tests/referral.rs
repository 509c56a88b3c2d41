use surge::account::ReferralData;
use surge::common::{ExchangeError, ResourceAddress};
use surge::config::{CollateralConfig, ExchangeConfig, VirtualConfig};
use surge::decimal::Decimal;
use surge::map::AssocMap;
use surge::pool::VirtualLiquidityPool;
use surge::referral::{
    allot_referrals, check_auth_level, collect_referral_rewards, new_referral, pay_out, referral_codes_count,
    swap_protocol_fee, update_referral,
};

const UNIT: i128 = 1_000_000_000_000_000_000;

fn d(x: i128) -> Decimal {
    Decimal::from_attos(x)
}

fn res(n: u128) -> ResourceAddress {
    ResourceAddress { high: 7, low: n }
}

fn config_with_collateral(resource: ResourceAddress) -> VirtualConfig {
    let mut collateral_configs = AssocMap::new();
    collateral_configs.insert(
        resource,
        CollateralConfig { pair_id: "BTC/USD".to_string(), discount: d(UNIT / 2), margin: d(UNIT / 10) },
    );
    VirtualConfig { exchange_config: ExchangeConfig::default(), pair_configs: AssocMap::new(), collateral_configs }
}

fn pool(base: i128, virtual_balance: i128) -> VirtualLiquidityPool {
    VirtualLiquidityPool::new(AssocMap::new(), d(base), d(virtual_balance), d(0), d(0), d(0))
}

fn referral_data(balance: i128) -> ReferralData {
    ReferralData {
        fee_referral: d(UNIT / 20),
        fee_rebate: d(UNIT / 20),
        referrals: 3,
        max_referrals: 10,
        balance: d(balance),
        total_rewarded: d(balance),
    }
}

#[test]
fn new_referral_accepts_fees_up_to_a_tenth() {
    let r = new_referral(d(UNIT / 20), d(UNIT / 10), 25).ok().unwrap();
    assert!(r.fee_referral.eq(d(UNIT / 20)));
    assert!(r.fee_rebate.eq(d(UNIT / 10)));
    assert_eq!(r.referrals, 0);
    assert_eq!(r.max_referrals, 25);
    assert!(r.balance.is_zero());
    assert!(r.total_rewarded.is_zero());
}

#[test]
fn new_referral_refuses_fees_outside_a_tenth() {
    assert_eq!(new_referral(d(UNIT / 10 + 1), d(0), 1).err(), Some(ExchangeError::InvalidReferralData));
    assert_eq!(new_referral(d(0), d(-1), 1).err(), Some(ExchangeError::InvalidReferralData));
}

#[test]
fn update_referral_changes_only_the_given_terms() {
    let mut data = referral_data(5 * UNIT);
    assert!(update_referral(&mut data, None, Some(d(UNIT / 100)), Some(40)).is_ok());
    assert!(data.fee_referral.eq(d(UNIT / 20)));
    assert!(data.fee_rebate.eq(d(UNIT / 100)));
    assert_eq!(data.max_referrals, 40);
    assert_eq!(data.referrals, 3);
}

#[test]
fn update_referral_refused_leaves_the_terms() {
    let mut data = referral_data(5 * UNIT);
    let r = update_referral(&mut data, Some(d(UNIT / 50)), Some(d(UNIT)), Some(40));
    assert_eq!(r, Err(ExchangeError::InvalidReferralData));
    assert!(data.fee_referral.eq(d(UNIT / 20)));
    assert_eq!(data.max_referrals, 10);
}

#[test]
fn allot_referrals_counts_within_the_limit() {
    let base = res(1);
    let collateral = res(2);
    let config = config_with_collateral(collateral);
    let data = referral_data(0);
    assert_eq!(allot_referrals(&config, &data, &vec![base, collateral], base, 7), Ok(10));
    assert_eq!(allot_referrals(&config, &data, &vec![base], base, 8), Err(ExchangeError::ReferralLimitReached));
    assert_eq!(allot_referrals(&config, &data, &vec![res(9)], base, 1), Err(ExchangeError::InvalidCollateral));
}

#[test]
fn referral_codes_count_adds_the_counts() {
    assert_eq!(referral_codes_count(&vec![2, 5, 0, 1]), 8);
    assert_eq!(referral_codes_count(&vec![]), 0);
}

#[test]
fn pay_out_keeps_the_pool_value() {
    let mut p = pool(100 * UNIT, -20 * UNIT);
    assert!(pay_out(&mut p, d(30 * UNIT)).is_ok());
    assert!(p.base_tokens_amount.eq(d(70 * UNIT)));
    assert!(p.virtual_balance.eq(d(10 * UNIT)));
    let mut p = pool(10 * UNIT, 0);
    assert_eq!(pay_out(&mut p, d(11 * UNIT)), Err(ExchangeError::WithdrawalInsufficientPoolTokens));
    assert!(p.base_tokens_amount.eq(d(10 * UNIT)));
}

#[test]
fn swap_protocol_fee_checks_payment_then_pays_out() {
    let config = config_with_collateral(res(2));
    let protocol = res(5);
    let burn = 10_000 * UNIT;
    let mut p = pool(100 * UNIT, 0);
    assert_eq!(
        swap_protocol_fee(&config, &mut p, res(6), d(burn), protocol, d(UNIT)).err(),
        Some(ExchangeError::InvalidPaymentToken)
    );
    assert_eq!(
        swap_protocol_fee(&config, &mut p, protocol, d(burn - 1), protocol, d(UNIT)).err(),
        Some(ExchangeError::InsufficientPayment)
    );
    assert_eq!(
        swap_protocol_fee(&config, &mut p, protocol, d(burn), protocol, d(101 * UNIT)).err(),
        Some(ExchangeError::WithdrawalInsufficientPoolTokens)
    );
    let burnt = swap_protocol_fee(&config, &mut p, protocol, d(burn + 5), protocol, d(40 * UNIT)).ok().unwrap();
    assert!(burnt.eq(d(burn)));
    assert!(p.base_tokens_amount.eq(d(60 * UNIT)));
    assert!(p.virtual_balance.eq(d(40 * UNIT)));
}

#[test]
fn collect_referral_rewards_empties_the_balance() {
    let mut p = pool(100 * UNIT, 0);
    let mut data = referral_data(12 * UNIT);
    assert!(collect_referral_rewards(&mut p, &mut data).is_ok());
    assert!(data.balance.is_zero());
    assert!(data.total_rewarded.eq(d(12 * UNIT)));
    assert!(p.base_tokens_amount.eq(d(88 * UNIT)));
    let mut data = referral_data(200 * UNIT);
    assert_eq!(collect_referral_rewards(&mut p, &mut data), Err(ExchangeError::WithdrawalInsufficientPoolTokens));
    assert!(data.balance.eq(d(200 * UNIT)));
}

#[test]
fn check_auth_level_knows_three_levels() {
    assert_eq!(check_auth_level(0), Err(ExchangeError::InvalidAuthLevel));
    assert_eq!(check_auth_level(1), Ok(()));
    assert_eq!(check_auth_level(3), Ok(()));
    assert_eq!(check_auth_level(4), Err(ExchangeError::InvalidAuthLevel));
}

#[test]
fn referral_codes_are_claimed_by_their_keccak_hash() {
    let h = surge::referral::referral_code_hash(&"Hello Radix".to_string());
    let expected: [u8; 32] = [
        0x41, 0x59, 0x42, 0x23, 0x0d, 0xdb, 0x02, 0x94, 0x16, 0xa4, 0x61, 0x28, 0x18, 0x53, 0x6d, 0xe2, 0x30, 0xd8, 0x27,
        0xcb, 0xac, 0x96, 0x46, 0xa0, 0xb2, 0x6d, 0x98, 0x55, 0xa4, 0xc4, 0x55, 0x87,
    ];
    assert_eq!(h, expected);
    assert_ne!(surge::referral::referral_code_hash(&"Hello Radix!".to_string()), expected);
}

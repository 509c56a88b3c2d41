use vstd::prelude::*;
use crate::account::ReferralData;
use crate::common::{ExchangeError, ResourceAddress};
use crate::config::VirtualConfig;
use crate::decimal::{Decimal, scale};
use crate::exchange::{assert_valid_collateral, is_collateral};
use crate::pool::VirtualLiquidityPool;
use crate::state::PoolState;
use crate::exchange::state_pool_value;

verus! {

/// Whether a referral's fee share or rebate lies in `[0, 0.1]`.
pub open spec fn referral_fee_valid(fee: int) -> bool {
    0 <= fee <= scale() / 10
}

fn check_referral_fee(fee: Decimal) -> (r: Result<(), ExchangeError>)
    ensures
        r is Ok <==> referral_fee_valid(fee@),
        r is Err ==> r == Err::<(), ExchangeError>(ExchangeError::InvalidReferralData),
{
    if fee.ge(Decimal::zero()) && fee.le(Decimal::from_attos(100_000_000_000_000_000)) {
        Ok(())
    } else {
        Err(ExchangeError::InvalidReferralData)
    }
}

/// The terms of a new referral badge: its fee share and rebate, each in
/// `[0, 0.1]`, and how many accounts it may refer; nothing referred or owed yet.
pub fn new_referral(fee_referral: Decimal, fee_rebate: Decimal, max_referrals: u64) -> (r: Result<
    ReferralData,
    ExchangeError,
>)
    ensures
        r is Ok <==> referral_fee_valid(fee_referral@) && referral_fee_valid(fee_rebate@),
        r is Err ==> r == Err::<ReferralData, ExchangeError>(ExchangeError::InvalidReferralData),
        r matches Ok(d) ==> d.fee_referral == fee_referral && d.fee_rebate == fee_rebate && d.referrals == 0
            && d.max_referrals == max_referrals && d.balance@ == 0 && d.total_rewarded@ == 0,
{
    check_referral_fee(fee_referral)?;
    check_referral_fee(fee_rebate)?;
    Ok(
        ReferralData {
            fee_referral,
            fee_rebate,
            referrals: 0,
            max_referrals,
            balance: Decimal::zero(),
            total_rewarded: Decimal::zero(),
        },
    )
}

/// Changes the terms of a referral badge: each given fee, which must lie in
/// `[0, 0.1]`, and the given referral limit. Nothing changes when a fee is refused.
pub fn update_referral(
    data: &mut ReferralData,
    fee_referral: Option<Decimal>,
    fee_rebate: Option<Decimal>,
    max_referrals: Option<u64>,
) -> (r: Result<(), ExchangeError>)
    ensures
        r is Ok <==> (fee_referral matches Some(f) ==> referral_fee_valid(f@)) && (fee_rebate matches Some(f)
            ==> referral_fee_valid(f@)),
        r is Err ==> r == Err::<(), ExchangeError>(ExchangeError::InvalidReferralData) && *final(data) == *old(data),
        r is Ok ==> *final(data) == (ReferralData {
            fee_referral: match fee_referral {
                Some(f) => f,
                None => old(data).fee_referral,
            },
            fee_rebate: match fee_rebate {
                Some(f) => f,
                None => old(data).fee_rebate,
            },
            max_referrals: match max_referrals {
                Some(m) => m,
                None => old(data).max_referrals,
            },
            ..*old(data)
        }),
{
    if let Some(f) = fee_referral {
        check_referral_fee(f)?;
    }
    if let Some(f) = fee_rebate {
        check_referral_fee(f)?;
    }
    if let Some(f) = fee_referral {
        data.fee_referral = f;
    }
    if let Some(f) = fee_rebate {
        data.fee_rebate = f;
    }
    if let Some(m) = max_referrals {
        data.max_referrals = m;
    }
    Ok(())
}

/// Whether a resource offered with a referral allocation is accepted: the base
/// resource or a collateral.
pub open spec fn allocation_resource_ok(config: VirtualConfig, resource: ResourceAddress, base: ResourceAddress) -> bool {
    resource == base || is_collateral(config, resource)
}

/// The referral count of a badge after `count` more referrals are allotted with
/// tokens of the given resources: each must be the base resource or a
/// collateral, and the count must stay within the badge's limit.
pub fn allot_referrals(
    config: &VirtualConfig,
    data: &ReferralData,
    token_resources: &Vec<ResourceAddress>,
    base_resource: ResourceAddress,
    count: u64,
) -> (r: Result<u64, ExchangeError>)
    requires
        data.referrals + count <= u64::MAX,
    ensures
        (forall|i: int| 0 <= i < token_resources@.len() ==> allocation_resource_ok(*config, #[trigger] token_resources@[i], base_resource))
            ==> (r == if data.referrals + count <= data.max_referrals {
                Ok::<u64, ExchangeError>((data.referrals + count) as u64)
            } else {
                Err(ExchangeError::ReferralLimitReached)
            }),
        !(forall|i: int| 0 <= i < token_resources@.len() ==> allocation_resource_ok(*config, #[trigger] token_resources@[i], base_resource))
            ==> r == Err::<u64, ExchangeError>(ExchangeError::InvalidCollateral),
{
    let mut i: usize = 0;
    while i < token_resources.len()
        invariant
            i <= token_resources@.len(),
            forall|j: int| 0 <= j < i ==> allocation_resource_ok(*config, #[trigger] token_resources@[j], base_resource),
        decreases token_resources@.len() - i,
    {
        let resource = token_resources[i];
        if resource != base_resource {
            assert_valid_collateral(config, &resource)?;
        }
        i = i + 1;
    }
    let referrals = data.referrals + count;
    if referrals <= data.max_referrals {
        Ok(referrals)
    } else {
        Err(ExchangeError::ReferralLimitReached)
    }
}

/// The sum of a list of counts.
pub open spec fn count_sum(counts: Seq<u64>) -> int
    decreases counts.len(),
{
    if counts.len() == 0 {
        0
    } else {
        count_sum(counts.drop_last()) + counts.last()
    }
}

proof fn lemma_count_sum_prefix(counts: Seq<u64>, i: int)
    requires
        0 <= i <= counts.len(),
    ensures
        0 <= count_sum(counts.subrange(0, i)) <= count_sum(counts),
    decreases counts.len() - i,
{
    if i < counts.len() {
        lemma_count_sum_prefix(counts, i + 1);
        assert(counts.subrange(0, i + 1).drop_last() =~= counts.subrange(0, i));
    } else {
        assert(counts.subrange(0, i) =~= counts);
    }
    lemma_count_sum_nonneg(counts.subrange(0, i));
}

proof fn lemma_count_sum_nonneg(counts: Seq<u64>)
    ensures
        count_sum(counts) >= 0,
    decreases counts.len(),
{
    if counts.len() > 0 {
        lemma_count_sum_nonneg(counts.drop_last());
    }
}

/// The number of referrals that a set of referral codes allots: the sum of
/// their counts.
pub fn referral_codes_count(counts: &Vec<u64>) -> (r: u64)
    requires
        count_sum(counts@) <= u64::MAX,
    ensures
        r == count_sum(counts@),
{
    let mut total: u64 = 0;
    let mut i: usize = 0;
    while i < counts.len()
        invariant
            i <= counts@.len(),
            count_sum(counts@) <= u64::MAX,
            total == count_sum(counts@.subrange(0, i as int)),
        decreases counts@.len() - i,
    {
        proof {
            assert(counts@.subrange(0, i as int + 1).drop_last() =~= counts@.subrange(0, i as int));
            lemma_count_sum_prefix(counts@, i as int + 1);
        }
        total = total + counts[i];
        i = i + 1;
    }
    assert(counts@.subrange(0, counts@.len() as int) =~= counts@);
    total
}

/// Pays out a balance that the pool holds for someone else (the treasury's, the
/// fee delegator's, a referrer's or the protocol's): the pool takes it back
/// into its virtual balance and hands out that many base tokens, so its value
/// stays as it was. Refused when the pool holds fewer base tokens.
pub fn pay_out(pool: &mut VirtualLiquidityPool, amount: Decimal) -> (r: Result<(), ExchangeError>)
    requires
        amount@ <= old(pool).base_tokens_amount@ ==> crate::decimal::in_range(old(pool).virtual_balance@ + amount@)
            && crate::decimal::in_range(old(pool).base_tokens_amount@ - amount@),
    ensures
        r is Ok <==> amount@ <= old(pool).base_tokens_amount@,
        r is Err ==> r == Err::<(), ExchangeError>(ExchangeError::WithdrawalInsufficientPoolTokens) && *final(pool)
            == *old(pool),
        r is Ok ==> final(pool).virtual_balance@ == old(pool).virtual_balance@ + amount@
            && final(pool).base_tokens_amount@ == old(pool).base_tokens_amount@ - amount@ && final(pool).same_positions(
            *old(pool),
        ) && final(pool).unrealized_pool_funding == old(pool).unrealized_pool_funding && final(pool).skew_abs_snap
            == old(pool).skew_abs_snap && final(pool).pnl_snap == old(pool).pnl_snap,
        r is Ok ==> state_pool_value(final(pool).state()) == state_pool_value(old(pool).state()),
{
    if amount.gt(pool.base_tokens_amount) {
        return Err(ExchangeError::WithdrawalInsufficientPoolTokens);
    }
    pool.add_virtual_balance(amount);
    pool.withdraw(amount);
    Ok(())
}

/// Swaps protocol tokens for the protocol's share of fees: the payment must be
/// of the protocol resource and at least the burn amount, which is burnt; the
/// protocol's balance is then paid out of the pool. Gives the amount to burn.
pub fn swap_protocol_fee(
    config: &VirtualConfig,
    pool: &mut VirtualLiquidityPool,
    payment_resource: ResourceAddress,
    payment_amount: Decimal,
    protocol_resource: ResourceAddress,
    protocol_balance: Decimal,
) -> (r: Result<Decimal, ExchangeError>)
    requires
        protocol_balance@ <= old(pool).base_tokens_amount@ ==> crate::decimal::in_range(
            old(pool).virtual_balance@ + protocol_balance@,
        ) && crate::decimal::in_range(old(pool).base_tokens_amount@ - protocol_balance@),
    ensures
        payment_resource != protocol_resource ==> r == Err::<Decimal, ExchangeError>(ExchangeError::InvalidPaymentToken),
        payment_resource == protocol_resource && payment_amount@ < config.exchange_config.protocol_burn_amount@ ==> r
            == Err::<Decimal, ExchangeError>(ExchangeError::InsufficientPayment),
        payment_resource == protocol_resource && payment_amount@ >= config.exchange_config.protocol_burn_amount@
            && protocol_balance@ > old(pool).base_tokens_amount@ ==> r == Err::<Decimal, ExchangeError>(
            ExchangeError::WithdrawalInsufficientPoolTokens,
        ),
        r is Err ==> *final(pool) == *old(pool),
        r is Ok <==> payment_resource == protocol_resource && payment_amount@ >= config.exchange_config.protocol_burn_amount@
            && protocol_balance@ <= old(pool).base_tokens_amount@,
        r matches Ok(burn) ==> burn == config.exchange_config.protocol_burn_amount
            && final(pool).virtual_balance@ == old(pool).virtual_balance@ + protocol_balance@
            && final(pool).base_tokens_amount@ == old(pool).base_tokens_amount@ - protocol_balance@
            && final(pool).same_positions(*old(pool)) && final(pool).unrealized_pool_funding == old(pool).unrealized_pool_funding
            && final(pool).skew_abs_snap == old(pool).skew_abs_snap && final(pool).pnl_snap == old(pool).pnl_snap,
{
    if payment_resource != protocol_resource {
        return Err(ExchangeError::InvalidPaymentToken);
    }
    let burn_amount = config.exchange_config.protocol_burn_amount;
    if payment_amount.lt(burn_amount) {
        return Err(ExchangeError::InsufficientPayment);
    }
    pay_out(pool, protocol_balance)?;
    Ok(burn_amount)
}

/// Pays out a referrer's balance: on success the badge's balance is zero.
pub fn collect_referral_rewards(pool: &mut VirtualLiquidityPool, data: &mut ReferralData) -> (r: Result<(), ExchangeError>)
    requires
        old(data).balance@ <= old(pool).base_tokens_amount@ ==> crate::decimal::in_range(
            old(pool).virtual_balance@ + old(data).balance@,
        ) && crate::decimal::in_range(old(pool).base_tokens_amount@ - old(data).balance@),
    ensures
        r is Ok <==> old(data).balance@ <= old(pool).base_tokens_amount@,
        r is Err ==> r == Err::<(), ExchangeError>(ExchangeError::WithdrawalInsufficientPoolTokens) && *final(pool)
            == *old(pool) && *final(data) == *old(data),
        r is Ok ==> final(pool).virtual_balance@ == old(pool).virtual_balance@ + old(data).balance@
            && final(pool).base_tokens_amount@ == old(pool).base_tokens_amount@ - old(data).balance@
            && final(pool).same_positions(*old(pool)) && final(data).balance@ == 0 && *final(data) == (ReferralData {
            balance: final(data).balance,
            ..*old(data)
        }),
{
    pay_out(pool, data.balance)?;
    data.balance = Decimal::zero();
    Ok(())
}

/// Checks that an authorization level is one of the three an account has.
pub fn check_auth_level(level: u8) -> (r: Result<(), ExchangeError>)
    ensures
        r is Ok <==> 1 <= level <= 3,
        r is Err ==> r == Err::<(), ExchangeError>(ExchangeError::InvalidAuthLevel),
{
    if level >= 1 && level <= 3 {
        Ok(())
    } else {
        Err(ExchangeError::InvalidAuthLevel)
    }
}

/// The Keccak-256 hash of a text's UTF-8 bytes.
pub uninterp spec fn keccak256_of_text(text: Seq<char>) -> Seq<u8>;

/// `keccak256_hash` of radix-common (the function that the ledger's
/// `CryptoUtils::keccak256_hash` computes) on the UTF-8 bytes of a text. The
/// contract names the 32-byte result and says nothing more of it.
#[verifier::external_body]
fn ledger_keccak256(text: &String) -> (r: [u8; 32])
    ensures
        r@ == keccak256_of_text(text@),
{
    scrypto::prelude::keccak256_hash(text.as_bytes()).0
}

/// The hash under which a referral code is claimed: its Keccak-256 hash.
pub fn referral_code_hash(code: &String) -> (r: [u8; 32])
    ensures
        r@ == keccak256_of_text(code@),
{
    ledger_keccak256(code)
}

} // verus!

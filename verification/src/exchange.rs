use vstd::prelude::*;
use crate::account::{
    AccountPosition, AccountPositionView, ReferralView, VirtualMarginAccount, entry_views, lemma_view_has,
    lemma_insert_views, lemma_pos_in, lemma_pos_in_insert, pos_in, referral_view, coll_views, view_has, view_keys,
    view_pos, views_distinct, insert_view,
};
use crate::common::{ExchangeError, PairId, ResourceAddress};
use crate::config::{CollateralConfig, ExchangeConfig, PairConfig, VirtualConfig};
use crate::decimal::{
    Decimal, lemma_decimal_in_range, abs, clamp_int, div_attos, in_range, in_quotient_range, mul_attos, tdiv, oabs, oadd, odiv, omax, omin, omul, oneg, osub,
    scale,
};
use crate::map::{AssocMap, MapKey};
use crate::oracle::VirtualOracle;
use crate::pool::{PoolPosition, PoolPositionView, VirtualLiquidityPool};
use crate::state::{AccountState, PoolState};

verus! {

/// The value of a pool in a given state: its base tokens, virtual balance,
/// unrealized pool funding and PnL snapshot.
pub open spec fn state_pool_value(p: PoolState) -> Option<int> {
    oadd(oadd(oadd(Some(p.base), Some(p.virtual_balance)), Some(p.unrealized_pool_funding)), Some(p.pnl_snap))
}

/// The absolute skew of a pool in a given state relative to its value (the
/// value taken as at least one).
pub open spec fn state_skew_ratio(p: PoolState) -> Option<int> {
    odiv(Some(p.skew_abs_snap), omax(state_pool_value(p), Some(scale())))
}

/// The pool's value: its base tokens, virtual balance, unrealized pool funding
/// and PnL snapshot.
pub open spec fn pool_value_spec(pool: VirtualLiquidityPool) -> Option<int> {
    state_pool_value(pool.state())
}

/// The pool's absolute skew relative to its value (the value taken as at least one).
pub open spec fn skew_ratio_spec(pool: VirtualLiquidityPool) -> Option<int> {
    state_skew_ratio(pool.state())
}

pub fn pool_value(pool: &VirtualLiquidityPool) -> (r: Decimal)
    requires
        pool_value_spec(*pool) is Some,
    ensures
        r@ == pool_value_spec(*pool).unwrap(),
{
    pool.base_tokens_amount.add(pool.virtual_balance).add(pool.unrealized_pool_funding).add(
        pool.pnl_snap,
    )
}

pub fn skew_ratio(pool: &VirtualLiquidityPool) -> (r: Decimal)
    requires
        skew_ratio_spec(*pool) is Some,
    ensures
        r@ == skew_ratio_spec(*pool).unwrap(),
{
    let value = pool_value(pool).max(Decimal::one());
    pool.skew_abs_snap.div(value)
}

/// The fee on a trade of value `value` (signed) at `price`: a flat part on its
/// absolute value plus a part that grows with the pool's skew and the trade's
/// size, scaled by the account's rebate factor and clamped into `[0, fee_max]`.
pub open spec fn fee_spec(
    ec: ExchangeConfig,
    pc: PairConfig,
    oi_long: int,
    oi_short: int,
    fee_rebate: int,
    price: int,
    value: int,
) -> Option<int> {
    let value_abs = oabs(Some(value));
    let skew = omul(osub(Some(oi_long), Some(oi_short)), Some(price));
    let fee_0 = omul(value_abs, Some(pc.fee_0@));
    let fee_1 = omul(
        omul(Some(value), oadd(omul(Some(2 * scale()), skew), Some(value))),
        Some(pc.fee_1@),
    );
    let fee_max = omul(value_abs, Some(ec.fee_max@));
    let raw = omul(oadd(fee_0, fee_1), Some(fee_rebate));
    match (raw, fee_max) {
        (Some(x), Some(m)) => if 0 <= m {
            Some(clamp_int(x, 0, m))
        } else {
            None
        },
        _ => None,
    }
}

/// A rebate factor between zero and one only ever lowers a fee: the fee with
/// the factor is no more than the full fee (the factor one), which is what an
/// account without a referral pays.
pub proof fn law_rebate_lowers_fee(
    ec: ExchangeConfig,
    pc: PairConfig,
    oi_long: int,
    oi_short: int,
    fee_rebate: int,
    price: int,
    value: int,
)
    requires
        0 <= fee_rebate <= scale(),
    ensures
        fee_spec(ec, pc, oi_long, oi_short, fee_rebate, price, value) is Some && fee_spec(ec, pc, oi_long, oi_short, scale(), price, value) is Some
            ==> fee_spec(ec, pc, oi_long, oi_short, fee_rebate, price, value).unwrap() <= fee_spec(ec, pc, oi_long, oi_short, scale(), price, value).unwrap(),
{
    let value_abs = oabs(Some(value));
    let skew = omul(osub(Some(oi_long), Some(oi_short)), Some(price));
    let fee_0 = omul(value_abs, Some(pc.fee_0@));
    let fee_1 = omul(omul(Some(value), oadd(omul(Some(2 * scale()), skew), Some(value))), Some(pc.fee_1@));
    if let Some(f) = oadd(fee_0, fee_1) {
        let sc = scale();
        let a = f * fee_rebate;
        let b = f * sc;
        if f >= 0 {
            assert(0 <= a <= b) by (nonlinear_arith)
                requires
                    f >= 0,
                    0 <= fee_rebate <= sc,
                    a == f * fee_rebate,
                    b == f * sc,
            ;
            assert(a / sc <= b / sc) by (nonlinear_arith)
                requires
                    0 <= a <= b,
                    sc > 0,
            ;
        } else {
            assert(a <= 0) by (nonlinear_arith)
                requires
                    f < 0,
                    0 <= fee_rebate,
                    a == f * fee_rebate,
            ;
            assert(abs(a) / sc >= 0) by (nonlinear_arith)
                requires
                    sc > 0,
            ;
        }
    }
}

/// The trading fee; it lies between zero and the maximum fee on the trade's value.
pub fn calculate_fee(
    exchange_config: &ExchangeConfig,
    pair_config: &PairConfig,
    pool_position: &PoolPosition,
    fee_rebate: Decimal,
    price: Decimal,
    value: Decimal,
) -> (r: Decimal)
    requires
        fee_spec(*exchange_config, *pair_config, pool_position.oi_long@, pool_position.oi_short@, fee_rebate@, price@, value@) is Some,
    ensures
        r@ == fee_spec(*exchange_config, *pair_config, pool_position.oi_long@, pool_position.oi_short@, fee_rebate@, price@, value@).unwrap(),
        0 <= r@ <= mul_attos(abs(value@), exchange_config.fee_max@),
{
    let value_abs = value.abs();
    let skew = pool_position.oi_long.sub(pool_position.oi_short).mul(price);
    let fee_0 = value_abs.mul(pair_config.fee_0);
    let fee_1 = value.mul(Decimal::from_int(2).mul(skew).add(value)).mul(pair_config.fee_1);
    let fee_max = value_abs.mul(exchange_config.fee_max);
    fee_0.add(fee_1).mul(fee_rebate).clamp(Decimal::zero(), fee_max)
}

/// The pool and account after moving `amount` from the pool's virtual balance
/// to the account's.
pub open spec fn settle_step(p: PoolState, a: AccountState, amount: int) -> Option<(PoolState, AccountState)> {
    if in_range(-amount) && in_range(p.virtual_balance - amount) && in_range(a.virtual_balance + amount) {
        Some(
            (
                PoolState { virtual_balance: p.virtual_balance - amount, ..p },
                AccountState { virtual_balance: a.virtual_balance + amount, ..a },
            ),
        )
    } else {
        None
    }
}

/// Moves `amount` from the pool's virtual balance to the account's.
pub fn settle_account(
    pool: &mut VirtualLiquidityPool,
    account: &mut VirtualMarginAccount,
    amount: Decimal,
)
    requires
        in_range(-amount@),
        in_range(old(pool).virtual_balance@ - amount@),
        in_range(old(account).virtual_balance@ + amount@),
    ensures
        final(pool).virtual_balance@ == old(pool).virtual_balance@ - amount@,
        final(account).virtual_balance@ == old(account).virtual_balance@ + amount@,
        final(pool).virtual_balance@ + final(account).virtual_balance@ == old(pool).virtual_balance@
            + old(account).virtual_balance@,
        final(pool).same_positions(*old(pool)),
        final(pool).base_tokens_amount == old(pool).base_tokens_amount,
        final(pool).unrealized_pool_funding == old(pool).unrealized_pool_funding,
        final(pool).skew_abs_snap == old(pool).skew_abs_snap,
        final(pool).pnl_snap == old(pool).pnl_snap,
        final(account).positions == old(account).positions,
        final(account).collateral_balances == old(account).collateral_balances,
        final(account).referral == old(account).referral,
        final(account).referral_rewarded == old(account).referral_rewarded,
        final(account).address == old(account).address,
        final(account).positions_updated == old(account).positions_updated,
        final(account).requests() == old(account).requests(),
        final(account).active_requests_len == old(account).active_requests_len,
        settle_step(old(pool).state(), old(account).state(), amount@) == Some((final(pool).state(), final(account).state())),
        final(account).requests_len == old(account).requests_len,
        final(account).valid_requests_start == old(account).valid_requests_start,
{
    pool.add_virtual_balance(amount.neg());
    account.add_virtual_balance(amount);
}

/// The protocol's and the treasury's shares of a fee.
pub open spec fn fee_shares(ec: ExchangeConfig, fee_paid: int) -> (int, int) {
    (mul_attos(fee_paid, ec.fee_share_protocol@), mul_attos(fee_paid, ec.fee_share_treasury@))
}

/// Whether splitting `fee_paid` stays in range.
pub open spec fn fees_basic_computable(ec: ExchangeConfig, pool: VirtualLiquidityPool, fee_paid: int) -> bool {
    let (p, t) = fee_shares(ec, fee_paid);
    &&& in_range(p) && in_range(t) && in_range(-p) && in_range(-p - t)
    &&& in_range(fee_paid - p) && in_range(fee_paid - p - t) && in_range(-(fee_paid - p - t))
    &&& in_range(-t)
    &&& in_range(pool.virtual_balance@ + (-p - t))
}

/// Splits a fee paid into the pool between the pool, the protocol and the
/// treasury: the protocol's and treasury's shares leave the pool's virtual
/// balance (the ledger's fee distributor receives them). Hands back the three
/// parts as negative amounts (pool, protocol, treasury); they add up to the
/// fee, negated.
pub fn settle_fees_basic(config: &VirtualConfig, pool: &mut VirtualLiquidityPool, fee_paid: Decimal) -> (r: (
    Decimal,
    Decimal,
    Decimal,
))
    requires
        fees_basic_computable(config.exchange_config, *old(pool), fee_paid@),
    ensures
        ({
            let (p, t) = fee_shares(config.exchange_config, fee_paid@);
            &&& r.1@ == -p
            &&& r.2@ == -t
            &&& r.0@ == -(fee_paid@ - p - t)
            &&& final(pool).virtual_balance@ == old(pool).virtual_balance@ - p - t
        }),
        r.0@ + r.1@ + r.2@ == -fee_paid@,
        final(pool).same_positions(*old(pool)),
        final(pool).base_tokens_amount == old(pool).base_tokens_amount,
        final(pool).unrealized_pool_funding == old(pool).unrealized_pool_funding,
        final(pool).skew_abs_snap == old(pool).skew_abs_snap,
        final(pool).pnl_snap == old(pool).pnl_snap,
{
    let ec = &config.exchange_config;
    let fee_protocol = fee_paid.mul(ec.fee_share_protocol);
    let fee_treasury = fee_paid.mul(ec.fee_share_treasury);
    let fee_pool = fee_paid.sub(fee_protocol).sub(fee_treasury);
    pool.add_virtual_balance(fee_protocol.neg().sub(fee_treasury));
    (fee_pool.neg(), fee_protocol.neg(), fee_treasury.neg())
}

/// The referrer's share of a fee, for an account whose referral grants `account_share`.
pub open spec fn referral_share(ec: ExchangeConfig, fee_paid: int, account_share: int) -> int {
    mul_attos(mul_attos(fee_paid, ec.fee_share_referral@), account_share)
}

pub open spec fn account_referral_share(account: VirtualMarginAccount) -> int {
    match account.referral {
        Some(d) => d.fee_referral@,
        None => 0,
    }
}

/// The share of the fees that an account's referral grants its referrer.
pub open spec fn referral_share_of(referral: Option<ReferralView>) -> int {
    match referral {
        Some(d) => d.fee_referral,
        None => 0,
    }
}

/// Whether splitting `fee_paid` with a referrer stays in range, for a pool with
/// virtual balance `vb`.
pub open spec fn fees_referral_fit(ec: ExchangeConfig, vb: int, referral: Option<ReferralView>, fee_paid: int) -> bool {
    let (p, t) = fee_shares(ec, fee_paid);
    let f = referral_share(ec, fee_paid, referral_share_of(referral));
    &&& in_range(p) && in_range(t) && in_quotient_range(mul_attos(fee_paid, ec.fee_share_referral@)) && in_range(f)
    &&& in_range(-p) && in_range(-p - t) && in_range(-p - t - f)
    &&& in_range(fee_paid - p) && in_range(fee_paid - p - t) && in_range(fee_paid - p - t - f)
    &&& in_range(-(fee_paid - p - t - f)) && in_range(-t) && in_range(-f)
    &&& in_range(vb + (-p - t - f))
    &&& referral matches Some(d) ==> in_range(d.balance + f) && in_range(d.total_rewarded + f)
}

/// Whether splitting `fee_paid` with a referrer stays in range.
pub open spec fn fees_referral_computable(
    ec: ExchangeConfig,
    pool: VirtualLiquidityPool,
    account: VirtualMarginAccount,
    fee_paid: int,
) -> bool {
    fees_referral_fit(ec, pool.virtual_balance@, referral_view(account.referral), fee_paid)
}

/// The pool and account after splitting `fee_paid` between the pool, the
/// protocol, the treasury and the referrer, with the four parts, negated.
pub open spec fn fees_referral_step(ec: ExchangeConfig, p: PoolState, a: AccountState, fee_paid: int) -> Option<
    (PoolState, AccountState, (int, int, int, int)),
> {
    let (pr, t) = fee_shares(ec, fee_paid);
    let f = referral_share(ec, fee_paid, referral_share_of(a.referral));
    if fees_referral_fit(ec, p.virtual_balance, a.referral, fee_paid) {
        Some(
            (
                PoolState { virtual_balance: p.virtual_balance - pr - t - f, ..p },
                AccountState {
                    referral: match a.referral {
                        Some(d) => Some(
                            ReferralView { balance: d.balance + f, total_rewarded: d.total_rewarded + f, ..d },
                        ),
                        None => None,
                    },
                    rewarded: a.rewarded || a.referral is Some,
                    ..a
                },
                (-(fee_paid - pr - t - f), -pr, -t, -f),
            ),
        )
    } else {
        None
    }
}

/// Splits a fee paid into the pool between the pool, the protocol, the treasury
/// and the account's referrer, who is credited with its share. Hands back the
/// four parts as negative amounts (pool, protocol, treasury, referrer); they add
/// up to the fee, negated.
pub fn settle_fees_referral(
    config: &VirtualConfig,
    pool: &mut VirtualLiquidityPool,
    account: &mut VirtualMarginAccount,
    fee_paid: Decimal,
) -> (r: (Decimal, Decimal, Decimal, Decimal))
    requires
        fees_referral_computable(config.exchange_config, *old(pool), *old(account), fee_paid@),
    ensures
        ({
            let (p, t) = fee_shares(config.exchange_config, fee_paid@);
            let f = referral_share(config.exchange_config, fee_paid@, account_referral_share(*old(account)));
            &&& r.1@ == -p
            &&& r.2@ == -t
            &&& r.3@ == -f
            &&& r.0@ == -(fee_paid@ - p - t - f)
            &&& final(pool).virtual_balance@ == old(pool).virtual_balance@ - p - t - f
            &&& match old(account).referral {
                Some(d) => final(account).referral matches Some(e) && e.balance@ == d.balance@ + f
                    && e.total_rewarded@ == d.total_rewarded@ + f && e.fee_referral == d.fee_referral
                    && e.fee_rebate == d.fee_rebate,
                None => final(account).referral is None,
            }
        }),
        r.0@ + r.1@ + r.2@ + r.3@ == -fee_paid@,
        final(pool).same_positions(*old(pool)),
        final(pool).base_tokens_amount == old(pool).base_tokens_amount,
        final(pool).unrealized_pool_funding == old(pool).unrealized_pool_funding,
        final(pool).skew_abs_snap == old(pool).skew_abs_snap,
        final(pool).pnl_snap == old(pool).pnl_snap,
        final(account).positions == old(account).positions,
        final(account).collateral_balances == old(account).collateral_balances,
        final(account).virtual_balance == old(account).virtual_balance,
        final(account).address == old(account).address,
        final(account).positions_updated == old(account).positions_updated,
        final(account).requests() == old(account).requests(),
        final(account).active_requests_len == old(account).active_requests_len,
        fees_referral_step(config.exchange_config, old(pool).state(), old(account).state(), fee_paid@) == Some(
            (final(pool).state(), final(account).state(), (r.0@, r.1@, r.2@, r.3@)),
        ),
        final(account).requests_len == old(account).requests_len,
        final(account).valid_requests_start == old(account).valid_requests_start,
        final(account).referral_rewarded == (old(account).referral_rewarded || old(account).referral is Some),
{
    let ec = &config.exchange_config;
    let fee_protocol = fee_paid.mul(ec.fee_share_protocol);
    let fee_treasury = fee_paid.mul(ec.fee_share_treasury);
    let fee_referral = fee_paid.mul(ec.fee_share_referral).mul(account.fee_share_referral());
    let fee_pool = fee_paid.sub(fee_protocol).sub(fee_treasury).sub(fee_referral);
    pool.add_virtual_balance(fee_protocol.neg().sub(fee_treasury).sub(fee_referral));
    account.reward_referral(fee_referral);
    (fee_pool.neg(), fee_protocol.neg(), fee_treasury.neg(), fee_referral.neg())
}

/// The funding that a position owes since it last settled: its size times the
/// growth of the funding index of its side.
pub open spec fn position_funding(pos: AccountPositionView, pp: PoolPositionView) -> Option<int> {
    if pos.amount > 0 {
        omul(Some(pos.amount), osub(Some(pp.funding_long_index), Some(pos.funding_index)))
    } else {
        omul(oneg(Some(pos.amount)), osub(Some(pp.funding_short_index), Some(pos.funding_index)))
    }
}

/// A position pays funding when its own side's index has risen since the
/// position's index was taken, and is paid when it has fallen; a long goes by
/// the long index, a short by the short index.
pub proof fn law_position_funding_sign(pos: AccountPositionView, pp: PoolPositionView)
    ensures
        position_funding(pos, pp) matches Some(f) ==> {
            let own = if pos.amount > 0 { pp.funding_long_index } else { pp.funding_short_index };
            &&& own >= pos.funding_index ==> f >= 0
            &&& own <= pos.funding_index ==> f <= 0
            &&& own == pos.funding_index ==> f == 0
        },
{
    if let Some(f) = position_funding(pos, pp) {
        let own = if pos.amount > 0 { pp.funding_long_index } else { pp.funding_short_index };
        let size = if pos.amount > 0 { pos.amount } else { -pos.amount };
        let delta = own - pos.funding_index;
        assert(size >= 0);
        assert(delta >= 0 ==> size * delta >= 0) by (nonlinear_arith)
            requires
                size >= 0,
        ;
        assert(delta <= 0 ==> size * delta <= 0) by (nonlinear_arith)
            requires
                size >= 0,
        ;
        assert(delta == 0 ==> size * delta == 0) by (nonlinear_arith);
        lemma_tdiv_sign(size * delta, scale());
        assert(size * delta == 0 ==> tdiv(size * delta, scale()) == 0);
    }
}

/// The funding index of the side that a position of size `amount` is on.
pub open spec fn side_index(amount: int, pp: PoolPosition) -> Decimal {
    if amount > 0 {
        pp.funding_long_index
    } else {
        pp.funding_short_index
    }
}

/// The funding that settling an account's position in a pair moves (zero when
/// the account has no position there).
pub open spec fn settle_funding_amount(account: VirtualMarginAccount, pool: VirtualLiquidityPool, pair_id: Seq<char>) -> Option<int> {
    if account.positions.view_map().dom().contains(pair_id) {
        position_funding(account.positions.view_map()[pair_id]@, pool.position_of(pair_id)@)
    } else {
        Some(0)
    }
}

pub open spec fn settle_funding_computable(account: VirtualMarginAccount, pool: VirtualLiquidityPool, pair_id: Seq<char>) -> bool {
    match settle_funding_amount(account, pool, pair_id) {
        Some(f) => in_range(-f) && in_range(pool.unrealized_pool_funding@ - f) && in_range(
            pool.virtual_balance@ + f,
        ) && in_range(account.virtual_balance@ - f),
        None => false,
    }
}

/// The pool and account after settling the funding of the account's position
/// in pair `k` (every position of the account counts as changed), with the
/// funding, negated.
pub open spec fn funding_step(p: PoolState, a: AccountState, k: Seq<char>) -> Option<(PoolState, AccountState, int)> {
    let pp = p.views[k];
    let updated = a.updated.union(view_keys(a.positions));
    if !p.views.dom().contains(k) {
        None
    } else if view_has(a.positions, k) {
        let pos = pos_in(a.positions, k);
        match position_funding(pos, pp) {
            Some(f) => if in_range(-f) && in_range(p.unrealized_pool_funding - f) && in_range(p.virtual_balance + f)
                && in_range(a.virtual_balance - f) {
                let index = if pos.amount > 0 {
                    pp.funding_long_index
                } else {
                    pp.funding_short_index
                };
                Some(
                    (
                        PoolState {
                            virtual_balance: p.virtual_balance + f,
                            unrealized_pool_funding: p.unrealized_pool_funding - f,
                            ..p
                        },
                        AccountState {
                            positions: insert_view(a.positions, k, AccountPositionView { funding_index: index, ..pos }),
                            updated,
                            virtual_balance: a.virtual_balance - f,
                            ..a
                        },
                        -f,
                    ),
                )
            } else {
                None
            },
            None => None,
        }
    } else {
        Some((p, AccountState { updated, ..a }, 0))
    }
}

/// Funding is owed once: right after an account's position in a pair has
/// settled its funding, settling again moves nothing and leaves the pool, the
/// account's balance and the position as they were.
pub proof fn law_funding_settles_once(p: PoolState, a: AccountState, k: Seq<char>)
    requires
        views_distinct(a.positions),
        funding_step(p, a, k) is Some,
    ensures
        ({
            let (p2, a2, _) = funding_step(p, a, k).unwrap();
            funding_step(p2, a2, k) matches Some((p3, a3, f)) && f == 0 && p3 == p2 && a3.virtual_balance
                == a2.virtual_balance && pos_in(a3.positions, k) == pos_in(a2.positions, k)
        }),
{
    let (p2, a2, f1) = funding_step(p, a, k).unwrap();
    if view_has(a.positions, k) {
        let pos = pos_in(a.positions, k);
        let pp = p.views[k];
        let index = if pos.amount > 0 { pp.funding_long_index } else { pp.funding_short_index };
        let pos2 = AccountPositionView { funding_index: index, ..pos };
        lemma_pos_in_insert(a.positions, k, pos2);
        assert(pos_in(a2.positions, k) == pos2);
        assert(view_has(a2.positions, k)) by {
            assert(view_keys(a2.positions).contains(k));
        }
        assert(p2.views[k] == pp);
        assert(mul_attos(pos.amount, 0) == 0);
        assert(mul_attos(-pos.amount, 0) == 0);
        lemma_pos_in_insert(a2.positions, k, pos2);
        let (p3, a3, f) = funding_step(p2, a2, k).unwrap();
        assert(p3 =~= p2) by {
            assert(p3.views =~= p2.views);
        }
    }
}

/// Settles the funding of the account's position in a pair: the account pays it
/// (its virtual balance falls by it), the pool receives it in its virtual balance
/// and it leaves the pool's unrealized funding; the position's funding index
/// moves to its side's current index. Every position of the account is recorded
/// as changed. Hands back the funding, negated.
pub fn settle_funding(pool: &mut VirtualLiquidityPool, account: &mut VirtualMarginAccount, pair_id: &PairId) -> (r: Decimal)
    requires
        old(pool).has_position(pair_id@),
        settle_funding_computable(*old(account), *old(pool), pair_id@),
    ensures
        ({
            let f = settle_funding_amount(*old(account), *old(pool), pair_id@).unwrap();
            &&& r@ == -f
            &&& final(account).virtual_balance@ == old(account).virtual_balance@ - f
            &&& final(pool).virtual_balance@ == old(pool).virtual_balance@ + f
            &&& final(pool).unrealized_pool_funding@ == old(pool).unrealized_pool_funding@ - f
        }),
        old(account).positions.view_map().dom().contains(pair_id@) ==> final(account).positions.view_map()
            == old(account).positions.view_map().insert(
            pair_id@,
            AccountPosition {
                funding_index: side_index(
                    old(account).positions.view_map()[pair_id@].amount@,
                    old(pool).position_of(pair_id@),
                ),
                ..old(account).positions.view_map()[pair_id@]
            },
        ),
        !old(account).positions.view_map().dom().contains(pair_id@) ==> final(account).positions.view_map()
            == old(account).positions.view_map(),
        final(account).positions_updated.view_map().dom() == old(account).positions_updated.view_map().dom().union(
            old(account).positions.view_map().dom(),
        ),
        final(pool).same_positions(*old(pool)),
        final(pool).base_tokens_amount == old(pool).base_tokens_amount,
        final(pool).skew_abs_snap == old(pool).skew_abs_snap,
        final(pool).pnl_snap == old(pool).pnl_snap,
        final(account).collateral_balances == old(account).collateral_balances,
        final(account).referral == old(account).referral,
        final(account).referral_rewarded == old(account).referral_rewarded,
        final(account).address == old(account).address,
        final(account).requests() == old(account).requests(),
        final(account).active_requests_len == old(account).active_requests_len,
        final(account).requests_len == old(account).requests_len,
        final(account).valid_requests_start == old(account).valid_requests_start,
        funding_step(old(pool).state(), old(account).state(), pair_id@) == Some((final(pool).state(), final(account).state(), r@)),
{
    proof {
        use_type_invariant(&account.positions);
        AssocMap::lemma_inv_distinct(account.positions);
        lemma_pos_in(account.positions.entries(), pair_id@);
        lemma_decimal_in_range(account.virtual_balance);
        lemma_decimal_in_range(pool.virtual_balance);
        lemma_decimal_in_range(pool.unrealized_pool_funding);
    }
    let ghost views0 = account.position_views();
    let pool_position = pool.position(pair_id);
    account.touch_positions();
    let funding = match account.positions.get(pair_id) {
        Some(p) => {
            let position = *p;
            if position.amount.is_positive() {
                let funding = position.amount.mul(pool_position.funding_long_index.sub(position.funding_index));
                let updated = AccountPosition { funding_index: pool_position.funding_long_index, ..position };
                proof {
                    lemma_insert_views(account.positions.entries(), *pair_id, updated);
                }
                account.positions.insert(pair_id.key_clone(), updated);
                funding
            } else {
                let funding = position.amount.neg().mul(pool_position.funding_short_index.sub(position.funding_index));
                let updated = AccountPosition { funding_index: pool_position.funding_short_index, ..position };
                proof {
                    lemma_insert_views(account.positions.entries(), *pair_id, updated);
                }
                account.positions.insert(pair_id.key_clone(), updated);
                funding
            }
        },
        None => Decimal::zero(),
    };
    pool.add_unrealized_pool_funding(funding.neg());
    settle_account(pool, account, funding.neg());
    funding.neg()
}

/// The pool's skew in a pair at `price`, its absolute value, and the pool's PnL
/// in the pair (its cost less the skew).
pub open spec fn snaps_spec(pp: PoolPositionView, price: int) -> Option<(int, int, int)> {
    let skew = omul(osub(Some(pp.oi_long), Some(pp.oi_short)), Some(price));
    match (skew, oabs(skew), osub(Some(pp.cost), skew)) {
        (Some(s), Some(a), Some(p)) => Some((s, a, p)),
        _ => None,
    }
}

/// A pair's snapshots at a positive price: the skew has the sign of the longs'
/// open interest less the shorts' (it is that difference's value at the
/// price), its size is the skew without sign, and the pool's PnL is what the
/// positions cost less their value (PnL plus skew is the cost).
pub proof fn law_snapshots(pp: PoolPositionView, price: int)
    requires
        price > 0,
    ensures
        snaps_spec(pp, price) matches Some((skew, skew_abs, pnl)) ==> {
            &&& skew > 0 ==> pp.oi_long > pp.oi_short
            &&& skew < 0 ==> pp.oi_long < pp.oi_short
            &&& skew_abs == abs(skew)
            &&& pnl + skew == pp.cost
        },
{
    if let Some((skew, _, _)) = snaps_spec(pp, price) {
        let d = pp.oi_long - pp.oi_short;
        assert(d >= 0 ==> d * price >= 0) by (nonlinear_arith)
            requires
                price > 0,
        ;
        assert(d <= 0 ==> d * price <= 0) by (nonlinear_arith)
            requires
                price > 0,
        ;
        lemma_tdiv_sign(d * price, scale());
    }
}

pub open spec fn snaps_computable(pool: VirtualLiquidityPool, pp: PoolPositionView, price: int) -> bool {
    match snaps_spec(pp, price) {
        Some((_, a, p)) => in_range(a - pp.skew_abs_snap) && in_range(p - pp.pnl_snap) && in_range(
            pool.skew_abs_snap@ + (a - pp.skew_abs_snap),
        ) && in_range(pool.pnl_snap@ + (p - pp.pnl_snap)),
        None => false,
    }
}

/// A pool position with new snapshots.
pub open spec fn with_snaps(pp: PoolPositionView, a: int, p: int) -> PoolPositionView {
    PoolPositionView { skew_abs_snap: a, pnl_snap: p, ..pp }
}

/// The pool after re-taking a pair's snapshots at `price`.
pub open spec fn snaps_step(pool: PoolState, k: Seq<char>, price: int) -> Option<PoolState> {
    let pp = pool.views[k];
    match snaps_spec(pp, price) {
        Some((_, a, p)) => if pool.views.dom().contains(k) && in_range(a - pp.skew_abs_snap) && in_range(
            p - pp.pnl_snap,
        ) && in_range(pool.skew_abs_snap + (a - pp.skew_abs_snap)) && in_range(pool.pnl_snap + (p - pp.pnl_snap)) {
            Some(
                PoolState {
                    views: pool.views.insert(k, with_snaps(pp, a, p)),
                    updated: pool.updated.insert(k),
                    skew_abs_snap: pool.skew_abs_snap + (a - pp.skew_abs_snap),
                    pnl_snap: pool.pnl_snap + (p - pp.pnl_snap),
                    ..pool
                },
            )
        } else {
            None
        },
        None => None,
    }
}

/// Re-takes a pair's skew and PnL snapshots at the oracle's price, and moves the
/// pool's totals by the same amounts as the pair's snapshots move.
pub fn update_pair_snaps(pool: &mut VirtualLiquidityPool, oracle: &VirtualOracle, pair_id: &PairId)
    requires
        old(pool).has_position(pair_id@),
        oracle.has_price(pair_id@),
        snaps_computable(*old(pool), old(pool).position_of(pair_id@)@, oracle.price_of(pair_id@)@),
    ensures
        ({
            let pp = old(pool).position_of(pair_id@);
            let (_, a, p) = snaps_spec(pp@, oracle.price_of(pair_id@)@).unwrap();
            let np = final(pool).position_of(pair_id@);
            &&& final(pool).positions.view_map().dom() == old(pool).positions.view_map().dom()
            &&& forall|k: Seq<char>| k != pair_id@ ==> #[trigger] final(pool).positions.view_map()[k]
                == old(pool).positions.view_map()[k]
            &&& np.skew_abs_snap@ == a
            &&& np.pnl_snap@ == p
            &&& np.oi_long == pp.oi_long && np.oi_short == pp.oi_short && np.cost == pp.cost
            &&& np.funding_2_rate == pp.funding_2_rate && np.funding_long_index == pp.funding_long_index
            &&& np.funding_short_index == pp.funding_short_index && np.last_update == pp.last_update
            &&& np.last_price == pp.last_price
            &&& final(pool).skew_abs_snap@ - np.skew_abs_snap@ == old(pool).skew_abs_snap@ - pp.skew_abs_snap@
            &&& final(pool).pnl_snap@ - np.pnl_snap@ == old(pool).pnl_snap@ - pp.pnl_snap@
        }),
        final(pool).position_updates.view_map().dom() == old(pool).position_updates.view_map().dom().insert(pair_id@),
        final(pool).base_tokens_amount == old(pool).base_tokens_amount,
        final(pool).virtual_balance == old(pool).virtual_balance,
        final(pool).unrealized_pool_funding == old(pool).unrealized_pool_funding,
        snaps_step(old(pool).state(), pair_id@, oracle.price_of(pair_id@)@) == Some(final(pool).state()),
{
    let price = oracle.price(pair_id);
    let pool_position = pool.position(pair_id);
    let skew = pool_position.oi_long.sub(pool_position.oi_short).mul(price);
    let skew_abs = skew.abs();
    let skew_abs_snap_delta = skew_abs.sub(pool_position.skew_abs_snap);
    let pnl = pool_position.cost.sub(skew);
    let pnl_snap_delta = pnl.sub(pool_position.pnl_snap);
    let updated = PoolPosition { skew_abs_snap: skew_abs, pnl_snap: pnl, ..pool_position };
    pool.set_position(pair_id, updated);
    pool.add_skew_abs_snap(skew_abs_snap_delta);
    pool.add_pnl_snap(pnl_snap_delta);
    assert(pool.views() =~= old(pool).views().insert(pair_id@, updated@));
}

/// Seconds in a year: funding rates are yearly.
pub open spec fn seconds_per_year() -> int {
    31536000
}

/// Adds `delta` to `f`, or sets `bound` when the sum passes it on the side that
/// `past` tells.
pub open spec fn bounded_step(f: int, delta: int, bound: int, past: spec_fn(int, int) -> bool) -> Option<int> {
    if in_range(f + delta) {
        Some(if past(f + delta, bound) { bound } else { f + delta })
    } else {
        None
    }
}

/// The next integral-of-skew funding rate: it decays toward `[min, max]` when it
/// lies outside (by a fraction `funding_2_decay * period`, at most all of the
/// excess), then moves by `delta` toward the band but not past its far bound;
/// inside the band it moves by `delta`, held within the band.
pub open spec fn funding_2_spec(
    pc: PairConfig,
    f2: int,
    max: int,
    min: int,
    delta: int,
    period: int,
) -> Option<int> {
    if f2 > max || f2 < min {
        let excess = if f2 > max { f2 - max } else { f2 - min };
        let factor = omin(omul(Some(pc.funding_2_decay@), Some(period)), Some(scale()));
        match osub(Some(f2), omul(Some(excess), factor)) {
            Some(f) => if in_range(excess) {
                if f2 > max {
                    if delta < 0 {
                        bounded_step(f, delta, min, |x: int, b: int| x < b)
                    } else {
                        Some(f)
                    }
                } else {
                    if delta > 0 {
                        bounded_step(f, delta, max, |x: int, b: int| x > b)
                    } else {
                        Some(f)
                    }
                }
            } else {
                None
            },
            None => None,
        }
    } else {
        if in_range(f2 + delta) {
            Some(
                if f2 + delta > max {
                    max
                } else if f2 + delta < min {
                    min
                } else {
                    f2 + delta
                },
            )
        } else {
            None
        }
    }
}

/// One step of the integral-of-skew funding rate.
fn funding_2_step(
    pc: &PairConfig,
    f2: Decimal,
    max: Decimal,
    min: Decimal,
    delta: Decimal,
    period: Decimal,
) -> (r: Decimal)
    requires
        funding_2_spec(*pc, f2@, max@, min@, delta@, period@) is Some,
    ensures
        r@ == funding_2_spec(*pc, f2@, max@, min@, delta@, period@).unwrap(),
{
    if f2.gt(max) {
        let excess = f2.sub(max);
        let decay = excess.mul(pc.funding_2_decay.mul(period).min(Decimal::one()));
        let f = f2.sub(decay);
        if delta.is_negative() {
            let sum = f.add(delta);
            if sum.lt(min) {
                min
            } else {
                sum
            }
        } else {
            f
        }
    } else if f2.lt(min) {
        let excess = f2.sub(min);
        let decay = excess.mul(pc.funding_2_decay.mul(period).min(Decimal::one()));
        let f = f2.sub(decay);
        if delta.is_positive() {
            let sum = f.add(delta);
            if sum.gt(max) {
                max
            } else {
                sum
            }
        } else {
            f
        }
    } else {
        let sum = f2.add(delta);
        if sum.gt(max) {
            max
        } else if sum.lt(min) {
            min
        } else {
            sum
        }
    }
}

/// The growth of the long and short funding indices that a funding rate brings
/// over `period`, and the pool's share: when the rate is positive the longs pay
/// it and the shorts receive it less the pool's share, otherwise the reverse.
pub open spec fn rate_sides(pc: PairConfig, rate: int, oi_long: int, oi_short: int, period: int) -> (
    Option<int>,
    Option<int>,
    Option<int>,
) {
    if rate > 0 {
        let fl = omul(Some(rate), Some(period));
        let share = omul(fl, Some(pc.funding_share@));
        (odiv(fl, Some(oi_long)), odiv(oneg(osub(fl, share)), Some(oi_short)), share)
    } else {
        let fs = omul(oneg(Some(rate)), Some(period));
        let share = omul(fs, Some(pc.funding_share@));
        (odiv(oneg(osub(fs, share)), Some(oi_long)), odiv(fs, Some(oi_short)), share)
    }
}

proof fn lemma_tdiv_sign(a: int, b: int)
    requires
        b > 0,
    ensures
        a >= 0 ==> tdiv(a, b) >= 0,
        a <= 0 ==> tdiv(a, b) <= 0,
        a >= 0 ==> tdiv(a, b) <= a / b,
{
    assert(abs(b) == b);
    if a >= 0 {
        assert(abs(a) == a);
        assert(a / b >= 0) by (nonlinear_arith)
            requires
                a >= 0,
                b > 0,
        ;
    } else {
        assert(abs(a) / b >= 0) by (nonlinear_arith)
            requires
                abs(a) > 0,
                b > 0,
        ;
    }
}

/// A share of at most the whole of a nonnegative amount lies between zero and it.
proof fn lemma_share_bounds(f: int, share: int)
    requires
        f >= 0,
        0 <= share <= scale(),
    ensures
        0 <= mul_attos(f, share) <= f,
{
    assert(f * share >= 0) by (nonlinear_arith)
        requires
            f >= 0,
            share >= 0,
    ;
    assert(f * share <= f * scale()) by (nonlinear_arith)
        requires
            f >= 0,
            share <= scale(),
    ;
    lemma_tdiv_sign(f * share, scale());
    assert((f * share) / scale() <= f) by (nonlinear_arith)
        requires
            f * share <= f * scale(),
            f >= 0,
    ;
}

/// Truncating a non-negative quotient leaves less than one divisor behind.
proof fn lemma_floor_bounds(a: int, b: int)
    requires
        a >= 0,
        b > 0,
    ensures
        tdiv(a, b) * b <= a < tdiv(a, b) * b + b,
{
    assert(abs(a) == a && abs(b) == b);
    vstd::arithmetic::div_mod::lemma_fundamental_div_mod(a, b);
    vstd::arithmetic::div_mod::lemma_mod_bound(a, b);
    assert(tdiv(a, b) == a / b);
    assert(b * (a / b) == (a / b) * b) by (nonlinear_arith);
}

/// Funding moves money between the sides and the pool and makes none: the side
/// that pays (the longs for a positive rate, the shorts otherwise) pays the
/// funding of the period, `paid`, through its index; the other side receives
/// `paid` less the pool's share through its index; the pool keeps the share.
/// Each index is truncated, so each side's total (index growth times open
/// interest, in attos of attos) falls short of its amount by less than one
/// atto per unit of that side's open interest, never beyond it.
pub proof fn law_funding_conservation(pc: PairConfig, rate: int, oi_long: int, oi_short: int, period: int)
    requires
        oi_long > 0,
        oi_short > 0,
        period >= 0,
        0 <= pc.funding_share@ <= scale(),
    ensures
        rate_sides(pc, rate, oi_long, oi_short, period) matches (Some(l), Some(s), Some(share)) ==> {
            let paid = mul_attos(abs(rate), period);
            let received = paid - share;
            &&& share == mul_attos(paid, pc.funding_share@)
            &&& 0 <= share <= paid
            &&& rate > 0 ==> paid * scale() - oi_long < l * oi_long <= paid * scale() && received * scale() - oi_short < -s
                * oi_short <= received * scale()
            &&& rate <= 0 ==> paid * scale() - oi_short < s * oi_short <= paid * scale() && received * scale() - oi_long < -l
                * oi_long <= received * scale()
        },
{
    if let (Some(l), Some(s), Some(share)) = rate_sides(pc, rate, oi_long, oi_short, period) {
        let a = abs(rate);
        assert(a * period >= 0) by (nonlinear_arith)
            requires
                a >= 0,
                period >= 0,
        ;
        lemma_tdiv_sign(a * period, scale());
        let paid = mul_attos(a, period);
        lemma_share_bounds(paid, pc.funding_share@);
        let received = paid - share;
        assert(paid * scale() >= 0 && received * scale() >= 0) by (nonlinear_arith)
            requires
                paid >= 0,
                received >= 0,
        ;
        assert(-received * scale() == -(received * scale())) by (nonlinear_arith);
        let (payers, receivers) = if rate > 0 { (oi_long, oi_short) } else { (oi_short, oi_long) };
        lemma_floor_bounds(paid * scale(), payers);
        lemma_floor_bounds(received * scale(), receivers);
        assert(abs(-received * scale()) == received * scale());
        assert(-tdiv(-received * scale(), receivers) == tdiv(received * scale(), receivers));
        if rate > 0 {
            assert(rate == a);
        } else {
            assert(-rate == a);
        }
    }
}

/// Truncating a quotient toward zero leaves less than one divisor behind, on
/// the dividend's side of zero.
proof fn lemma_tdiv_near(a: int, b: int)
    requires
        b > 0,
    ensures
        a - b < tdiv(a, b) * b < a + b,
{
    lemma_floor_bounds(abs(a), b);
    if a < 0 {
        assert(tdiv(a, b) == -tdiv(abs(a), b));
        assert(tdiv(a, b) * b == -(tdiv(abs(a), b) * b)) by (nonlinear_arith)
            requires
                tdiv(a, b) == -tdiv(abs(a), b),
        ;
    } else {
        assert(tdiv(a, b) == tdiv(abs(a), b));
    }
}

/// Funding in a pair update is conserved, the pool's flat charge included:
/// what the longs pay and the shorts pay through their indices (each index's
/// growth times its side's open interest, in attos of attos) adds up to what
/// the pool books as funding (its flat charge plus its share of the rate's
/// funding), up to the truncation of the indices: less than two attos per unit
/// of open interest. The flat charge is spread over both sides alike, so it
/// raises both indices.
pub proof fn law_pair_funding_conserved(
    pc: PairConfig,
    oi_long: int,
    oi_short: int,
    price: int,
    skew: int,
    skew_abs: int,
    f2: int,
    max: int,
    min: int,
    period: int,
)
    requires
        oi_long > 0,
        oi_short > 0,
        period >= 0,
        0 <= pc.funding_share@ <= scale(),
    ensures
        indices_spec(pc, oi_long, oi_short, price, skew, skew_abs, f2, max, min, period) matches Some((l, s, d)) ==> d * scale()
            - 2 * (oi_long + oi_short) < l * oi_long + s * oi_short < d * scale() + 2 * (oi_long + oi_short),
{
    if let Some((l, s, d)) = indices_spec(pc, oi_long, oi_short, price, skew, skew_abs, f2, max, min, period) {
        let f1r = omul(Some(skew), Some(pc.funding_1@));
        let f2r = omul(Some(clamp_int(f2, min, max)), Some(pc.funding_2@));
        let rate = oadd(f1r, f2r).unwrap();
        let sides = rate_sides(pc, rate, oi_long, oi_short, period);
        let p0 = omul(omul(oadd(Some(oi_long), Some(oi_short)), Some(price)), Some(pc.funding_pool_0@));
        let p1 = omul(Some(skew_abs), Some(pc.funding_pool_1@));
        let fpool = omul(oadd(p0, p1), Some(period)).unwrap();
        let n = oi_long + oi_short;
        let pidx = tdiv(fpool * scale(), n);
        let (l0, s0, share) = (sides.0.unwrap(), sides.1.unwrap(), sides.2.unwrap());
        assert(l == l0 + pidx && s == s0 + pidx && d == fpool + share);
        law_funding_conservation(pc, rate, oi_long, oi_short, period);
        lemma_tdiv_near(fpool * scale(), n);
        let paid = mul_attos(abs(rate), period);
        let received = paid - share;
        assert(paid * scale() - received * scale() == share * scale()) by (nonlinear_arith)
            requires
                received == paid - share,
        ;
        assert((-s0) * oi_short == -(s0 * oi_short)) by (nonlinear_arith);
        assert((-l0) * oi_long == -(l0 * oi_long)) by (nonlinear_arith);
        assert(share * scale() - n < l0 * oi_long + s0 * oi_short < share * scale() + n);
        assert(l * oi_long + s * oi_short == l0 * oi_long + s0 * oi_short + pidx * n) by (nonlinear_arith)
            requires
                l == l0 + pidx,
                s == s0 + pidx,
                n == oi_long + oi_short,
        ;
        assert(d * scale() == fpool * scale() + share * scale()) by (nonlinear_arith)
            requires
                d == fpool + share,
        ;
    }
}

/// Who pays funding: with open interest on both sides, a positive rate makes
/// the longs' index grow and the shorts' fall, a negative one the reverse, and
/// no rate moves nothing; the pool's share is never negative.
pub proof fn law_funding_direction(pc: PairConfig, rate: int, oi_long: int, oi_short: int, period: int)
    requires
        oi_long > 0,
        oi_short > 0,
        period >= 0,
        0 <= pc.funding_share@ <= scale(),
    ensures
        rate_sides(pc, rate, oi_long, oi_short, period) matches (Some(l), Some(s), Some(share)) ==> {
            &&& 0 <= share
            &&& rate > 0 ==> l >= 0 && s <= 0
            &&& rate < 0 ==> l <= 0 && s >= 0
            &&& rate == 0 ==> l == 0 && s == 0
        },
{
    let a = if rate > 0 { rate } else { -rate };
    assert(a * period >= 0) by (nonlinear_arith)
        requires
            a >= 0,
            period >= 0,
    ;
    lemma_tdiv_sign(a * period, scale());
    let f = mul_attos(a, period);
    lemma_share_bounds(f, pc.funding_share@);
    let share = mul_attos(f, pc.funding_share@);
    assert(f * scale() >= 0) by (nonlinear_arith)
        requires
            f >= 0,
    ;
    assert(-(f - share) * scale() <= 0) by (nonlinear_arith)
        requires
            f - share >= 0,
    ;
    lemma_tdiv_sign(f * scale(), oi_long);
    lemma_tdiv_sign(f * scale(), oi_short);
    lemma_tdiv_sign(-(f - share) * scale(), oi_long);
    lemma_tdiv_sign(-(f - share) * scale(), oi_short);
    if rate == 0 {
        assert(a * period == 0) by (nonlinear_arith)
            requires
                a == 0,
        ;
        assert(f == 0);
        assert(share == 0) by {
            assert(0 * pc.funding_share@ == 0);
        }
        assert(tdiv(0, oi_long) == 0);
        assert(tdiv(0, oi_short) == 0);
        assert(-(f - share) * scale() == 0);
    }
}

/// The growth of the long and short funding indices over `period` and the
/// funding that the pool keeps, when both sides hold open interest. The rate is
/// the skew funding plus the integral funding (its rate held within `[min, max]`);
/// when it is positive the longs pay it and the shorts receive it less the
/// pool's share, otherwise the reverse; on top, both sides pay the pool funding
/// (a flat rate on open interest and a rate on the absolute skew), spread over
/// all open interest.
pub open spec fn indices_spec(
    pc: PairConfig,
    oi_long: int,
    oi_short: int,
    price: int,
    skew: int,
    skew_abs: int,
    f2: int,
    max: int,
    min: int,
    period: int,
) -> Option<(int, int, int)> {
    let f1r = omul(Some(skew), Some(pc.funding_1@));
    let f2r = omul(Some(clamp_int(f2, min, max)), Some(pc.funding_2@));
    match oadd(f1r, f2r) {
        Some(rate) => {
            let sides = rate_sides(pc, rate, oi_long, oi_short, period);
            let p0 = omul(omul(oadd(Some(oi_long), Some(oi_short)), Some(price)), Some(pc.funding_pool_0@));
            let p1 = omul(Some(skew_abs), Some(pc.funding_pool_1@));
            let fpool = omul(oadd(p0, p1), Some(period));
            let pidx = odiv(fpool, oadd(Some(oi_long), Some(oi_short)));
            match (oadd(sides.0, pidx), oadd(sides.1, pidx), oadd(fpool, sides.2)) {
                (Some(l), Some(s), Some(d)) => if min <= max {
                    Some((l, s, d))
                } else {
                    None
                },
                _ => None,
            }
        },
        None => None,
    }
}

fn funding_indices(
    pc: &PairConfig,
    oi_long: Decimal,
    oi_short: Decimal,
    price: Decimal,
    skew: Decimal,
    skew_abs: Decimal,
    f2: Decimal,
    max: Decimal,
    min: Decimal,
    period: Decimal,
) -> (r: (Decimal, Decimal, Decimal))
    requires
        indices_spec(*pc, oi_long@, oi_short@, price@, skew@, skew_abs@, f2@, max@, min@, period@) is Some,
    ensures
        ({
            let (l, s, d) = indices_spec(*pc, oi_long@, oi_short@, price@, skew@, skew_abs@, f2@, max@, min@, period@).unwrap();
            r.0@ == l && r.1@ == s && r.2@ == d
        }),
{
    let funding_1_rate = skew.mul(pc.funding_1);
    let funding_2_rate = f2.clamp(min, max).mul(pc.funding_2);
    let funding_rate = funding_1_rate.add(funding_2_rate);
    let (long_index, short_index, funding_share) = if funding_rate.is_positive() {
        let funding_long = funding_rate.mul(period);
        let long_index = funding_long.div(oi_long);
        let funding_share = funding_long.mul(pc.funding_share);
        let short_index = funding_long.sub(funding_share).neg().div(oi_short);
        (long_index, short_index, funding_share)
    } else {
        let funding_short = funding_rate.neg().mul(period);
        let short_index = funding_short.div(oi_short);
        let funding_share = funding_short.mul(pc.funding_share);
        let long_index = funding_short.sub(funding_share).neg().div(oi_long);
        (long_index, short_index, funding_share)
    };
    let pool_0_rate = oi_long.add(oi_short).mul(price).mul(pc.funding_pool_0);
    let pool_1_rate = skew_abs.mul(pc.funding_pool_1);
    let funding_pool = pool_0_rate.add(pool_1_rate).mul(period);
    let pool_index = funding_pool.div(oi_long.add(oi_short));
    (long_index.add(pool_index), short_index.add(pool_index), funding_pool.add(funding_share))
}

/// What a pair update computes.
pub struct PairUpdate {
    pub skew_abs: int,
    pub pnl: int,
    pub period_seconds: int,
    pub price_delta_ratio: int,
    pub funding_2_rate: int,
    pub funding_long_index: int,
    pub funding_short_index: int,
    pub funding_pool_delta: int,
    pub rewarded: bool,
}

/// The funding part of a pair update over `period` (a fraction of a year):
/// the next integral rate, the new long and short indices and the funding the
/// pool keeps. Nothing moves over an empty period; the indices stay and the
/// pool keeps nothing while either side has no open interest.
pub open spec fn funding_update_spec(pc: PairConfig, pp: PoolPositionView, price: int, skew: int, skew_abs: int, period: int) -> Option<(int, int, int, int)> {
    if period == 0 {
        Some((pp.funding_2_rate, pp.funding_long_index, pp.funding_short_index, 0))
    } else {
        let max = omul(Some(pp.oi_long), Some(price));
        let min = omul(oneg(Some(pp.oi_short)), Some(price));
        let delta = omul(omul(Some(skew), Some(pc.funding_2_delta@)), Some(period));
        match (max, min, delta) {
            (Some(mx), Some(mn), Some(d)) => match funding_2_spec(pc, pp.funding_2_rate, mx, mn, d, period) {
                Some(f2) => if pp.oi_long != 0 && pp.oi_short != 0 {
                    match indices_spec(pc, pp.oi_long, pp.oi_short, price, skew, skew_abs, f2, mx, mn, period) {
                        Some((l, s, fd)) => match (oadd(Some(pp.funding_long_index), Some(l)), oadd(Some(pp.funding_short_index), Some(s))) {
                            (Some(nl), Some(ns)) => Some((f2, nl, ns, fd)),
                            _ => None,
                        },
                        None => None,
                    }
                } else {
                    Some((f2, pp.funding_long_index, pp.funding_short_index, 0))
                },
                None => None,
            },
            _ => None,
        }
    }
}

/// A pair update at `price` and time `now`: new snapshots, the elapsed period
/// and the relative price move since the last update, the funding, and whether
/// the update earns a keeper reward (the update period has passed or the price
/// moved by at least the configured ratio).
pub open spec fn update_pair_spec(pc: PairConfig, pp: PoolPositionView, price: int, now: i64) -> Option<PairUpdate> {
    let period_seconds = now - pp.last_update;
    match snaps_spec(pp, price) {
        Some((skew, skew_abs, pnl)) => if i64::MIN <= period_seconds <= i64::MAX {
            let period = odiv(Some(period_seconds * scale()), Some(seconds_per_year() * scale()));
            let ratio = odiv(oabs(osub(Some(price), Some(pp.last_price))), Some(pp.last_price));
            match (period, ratio) {
                (Some(per), Some(pdr)) => match funding_update_spec(pc, pp, price, skew, skew_abs, per) {
                    Some((f2, nl, ns, fd)) => Some(PairUpdate {
                        skew_abs,
                        pnl,
                        period_seconds,
                        price_delta_ratio: pdr,
                        funding_2_rate: f2,
                        funding_long_index: nl,
                        funding_short_index: ns,
                        funding_pool_delta: fd,
                        rewarded: period_seconds >= pc.update_period_seconds || pdr >= pc.update_price_delta_ratio@,
                    }),
                    None => None,
                },
                _ => None,
            }
        } else {
            None
        },
        None => None,
    }
}

/// A pool position after a pair update at `price` and time `now`.
pub open spec fn updated_position(pp: PoolPositionView, u: PairUpdate, price: int, now: i64) -> PoolPositionView {
    PoolPositionView {
        skew_abs_snap: u.skew_abs,
        pnl_snap: u.pnl,
        funding_2_rate: u.funding_2_rate,
        funding_long_index: u.funding_long_index,
        funding_short_index: u.funding_short_index,
        last_update: now,
        last_price: price,
        ..pp
    }
}

/// The pool after updating pair `k` at `price` and time `now`, and whether the
/// update earns a keeper reward.
pub open spec fn pair_step(config: VirtualConfig, p: PoolState, price: int, now: i64, k: Seq<char>) -> Option<(PoolState, bool)> {
    let pp = p.views[k];
    match update_pair_spec(config.pair_of(k), pp, price, now) {
        Some(u) => if p.views.dom().contains(k) && config.has_pair(k) && in_range(u.skew_abs - pp.skew_abs_snap)
            && in_range(u.pnl - pp.pnl_snap) && in_range(p.skew_abs_snap + (u.skew_abs - pp.skew_abs_snap))
            && in_range(p.pnl_snap + (u.pnl - pp.pnl_snap)) && in_range(p.unrealized_pool_funding + u.funding_pool_delta) {
            Some(
                (
                    PoolState {
                        views: p.views.insert(k, updated_position(pp, u, price, now)),
                        updated: p.updated.insert(k),
                        skew_abs_snap: p.skew_abs_snap + (u.skew_abs - pp.skew_abs_snap),
                        pnl_snap: p.pnl_snap + (u.pnl - pp.pnl_snap),
                        unrealized_pool_funding: p.unrealized_pool_funding + u.funding_pool_delta,
                        ..p
                    },
                    u.rewarded,
                ),
            )
        } else {
            None
        },
        None => None,
    }
}

/// Whether a pair update stays in range, the pool's totals included.
pub open spec fn update_pair_computable(pool: VirtualLiquidityPool, pc: PairConfig, pp: PoolPositionView, price: int, now: i64) -> bool {
    match update_pair_spec(pc, pp, price, now) {
        Some(u) => {
            &&& in_range(u.skew_abs - pp.skew_abs_snap) && in_range(u.pnl - pp.pnl_snap)
            &&& in_range(pool.skew_abs_snap@ + (u.skew_abs - pp.skew_abs_snap))
            &&& in_range(pool.pnl_snap@ + (u.pnl - pp.pnl_snap))
            &&& in_range(pool.unrealized_pool_funding@ + u.funding_pool_delta)
        },
        None => false,
    }
}

/// Brings a pair up to date at the oracle's price and time `now`: re-takes its
/// snapshots, accrues funding over the time since its last update (see
/// [`funding_update_spec`]), records the price and time, and moves the pool's
/// snapshot totals and unrealized funding accordingly. Returns whether the update
/// earns a keeper reward.
pub fn update_pair(
    config: &VirtualConfig,
    pool: &mut VirtualLiquidityPool,
    oracle: &VirtualOracle,
    now: i64,
    pair_id: &PairId,
) -> (r: bool)
    requires
        config.has_pair(pair_id@),
        old(pool).has_position(pair_id@),
        oracle.has_price(pair_id@),
        update_pair_computable(*old(pool), config.pair_of(pair_id@), old(pool).position_of(pair_id@)@, oracle.price_of(pair_id@)@, now),
    ensures
        ({
            let pp = old(pool).position_of(pair_id@);
            let u = update_pair_spec(config.pair_of(pair_id@), pp@, oracle.price_of(pair_id@)@, now).unwrap();
            let np = final(pool).position_of(pair_id@);
            &&& r == u.rewarded
            &&& final(pool).positions.view_map().dom() == old(pool).positions.view_map().dom()
            &&& forall|k: Seq<char>| k != pair_id@ ==> #[trigger] final(pool).positions.view_map()[k]
                == old(pool).positions.view_map()[k]
            &&& np.skew_abs_snap@ == u.skew_abs && np.pnl_snap@ == u.pnl
            &&& np.funding_2_rate@ == u.funding_2_rate
            &&& np.funding_long_index@ == u.funding_long_index && np.funding_short_index@ == u.funding_short_index
            &&& np.last_update == now && np.last_price == oracle.price_of(pair_id@)
            &&& np.oi_long == pp.oi_long && np.oi_short == pp.oi_short && np.cost == pp.cost
            &&& final(pool).skew_abs_snap@ - np.skew_abs_snap@ == old(pool).skew_abs_snap@ - pp.skew_abs_snap@
            &&& final(pool).pnl_snap@ - np.pnl_snap@ == old(pool).pnl_snap@ - pp.pnl_snap@
            &&& final(pool).unrealized_pool_funding@ == old(pool).unrealized_pool_funding@ + u.funding_pool_delta
            // no open interest on a side: no funding accrues
            &&& (pp.oi_long@ == 0 || pp.oi_short@ == 0) ==> np.funding_long_index == pp.funding_long_index
                && np.funding_short_index == pp.funding_short_index && u.funding_pool_delta == 0
        }),
        final(pool).position_updates.view_map().dom() == old(pool).position_updates.view_map().dom().insert(pair_id@),
        final(pool).base_tokens_amount == old(pool).base_tokens_amount,
        final(pool).virtual_balance == old(pool).virtual_balance,
        pair_step(*config, old(pool).state(), oracle.price_of(pair_id@)@, now, pair_id@) == Some((final(pool).state(), r)),
{
    let pair_config = config.pair_config(pair_id);
    let price = oracle.price(pair_id);
    let pp = pool.position(pair_id);
    let oi_long = pp.oi_long;
    let oi_short = pp.oi_short;

    let skew = oi_long.sub(oi_short).mul(price);
    let skew_abs = skew.abs();
    let skew_abs_snap_delta = skew_abs.sub(pp.skew_abs_snap);
    let pnl = pp.cost.sub(skew);
    let pnl_snap_delta = pnl.sub(pp.pnl_snap);

    let period_seconds = now - pp.last_update;
    let period = Decimal::from_int(period_seconds).div(Decimal::from_int(31536000));
    let price_delta_ratio = price.sub(pp.last_price).abs().div(pp.last_price);

    let (funding_2_rate, funding_long_index, funding_short_index, funding_pool_delta) = if !period.is_zero() {
        let funding_2_max = oi_long.mul(price);
        let funding_2_min = oi_short.neg().mul(price);
        let funding_2_rate_delta = skew.mul(pair_config.funding_2_delta).mul(period);
        let f2 = funding_2_step(pair_config, pp.funding_2_rate, funding_2_max, funding_2_min, funding_2_rate_delta, period);
        if !oi_long.is_zero() && !oi_short.is_zero() {
            let (l, s, d) = funding_indices(pair_config, oi_long, oi_short, price, skew, skew_abs, f2, funding_2_max, funding_2_min, period);
            (f2, pp.funding_long_index.add(l), pp.funding_short_index.add(s), d)
        } else {
            (f2, pp.funding_long_index, pp.funding_short_index, Decimal::zero())
        }
    } else {
        (pp.funding_2_rate, pp.funding_long_index, pp.funding_short_index, Decimal::zero())
    };

    let updated = PoolPosition {
        skew_abs_snap: skew_abs,
        pnl_snap: pnl,
        funding_2_rate,
        funding_long_index,
        funding_short_index,
        last_update: now,
        last_price: price,
        ..pp
    };
    pool.set_position(pair_id, updated);
    pool.add_skew_abs_snap(skew_abs_snap_delta);
    pool.add_pnl_snap(pnl_snap_delta);
    pool.add_unrealized_pool_funding(funding_pool_delta);
    assert(pool.views() =~= old(pool).views().insert(pair_id@, updated@));

    period_seconds >= pair_config.update_period_seconds || price_delta_ratio.ge(pair_config.update_price_delta_ratio)
}

/// The rebate factor of an account's fees: one minus its referral's rebate, or
/// one (the full fee) without a referral.
pub open spec fn rebate_of(account: VirtualMarginAccount) -> int {
    match account.referral {
        Some(d) => scale() - d.fee_rebate@,
        None => scale(),
    }
}

/// Whether the operation loaded what valuing a position in `pair_id` reads.
pub open spec fn priced(config: VirtualConfig, pools: Map<Seq<char>, PoolPositionView>, oracle: VirtualOracle, pair_id: Seq<char>) -> bool {
    config.has_pair(pair_id) && pools.dom().contains(pair_id) && oracle.has_price(pair_id)
}

/// What closing a position at the oracle's price would realize, and the margin
/// it requires: closing means trading `-amount` (fee included) and settling its
/// funding; the margin is the position's value at the initial margin rate, or at
/// the maintenance rate when `maintenance` holds.
pub open spec fn position_value_spec(
    config: VirtualConfig,
    pools: Map<Seq<char>, PoolPositionView>,
    oracle: VirtualOracle,
    rebate: int,
    pair_id: Seq<char>,
    pos: AccountPositionView,
    maintenance: bool,
) -> Option<(int, int)> {
    let pc = config.pair_of(pair_id);
    let pp = pools[pair_id];
    let price = oracle.price_of(pair_id)@;
    let value = omul(oneg(Some(pos.amount)), Some(price));
    match value {
        Some(v) => {
            let fee = fee_spec(config.exchange_config, pc, pp.oi_long, pp.oi_short, rebate, price, v);
            let funding = position_funding(pos, pp);
            let pnl = osub(osub(osub(oneg(Some(v)), Some(pos.cost)), fee), funding);
            let rate = if maintenance { pc.margin_maintenance@ } else { pc.margin_initial@ };
            let margin = omul(oabs(Some(v)), Some(rate));
            match (pnl, margin) {
                (Some(p), Some(m)) => Some((p, m)),
                _ => None,
            }
        },
        None => None,
    }
}

/// Settling a position's funding does not change what it is worth to its
/// account: the position's value counts the funding it owes (what settling
/// would take from the account's balance), so once that funding is settled
/// (the position's index set to its side's current index) its PnL is higher by
/// exactly that amount, and its margin is the same.
pub proof fn law_value_counts_owed_funding(
    config: VirtualConfig,
    pools: Map<Seq<char>, PoolPositionView>,
    oracle: VirtualOracle,
    rebate: int,
    k: Seq<char>,
    pos: AccountPositionView,
    maintenance: bool,
)
    ensures
        ({
            let pp = pools[k];
            let settled = AccountPositionView {
                funding_index: if pos.amount > 0 { pp.funding_long_index } else { pp.funding_short_index },
                ..pos
            };
            position_value_spec(config, pools, oracle, rebate, k, pos, maintenance) matches Some((pnl, m)) ==> {
                &&& position_funding(pos, pp) is Some
                &&& position_funding(settled, pp) == Some(0int)
                &&& position_value_spec(config, pools, oracle, rebate, k, settled, maintenance) == Some(
                    (pnl + position_funding(pos, pp).unwrap(), m),
                )
                // closing costs a fee, never a gain: without the funding, the PnL is at
                // most the position's closing value less its cost
                &&& pnl + position_funding(pos, pp).unwrap() <= -mul_attos(-pos.amount, oracle.price_of(k)@) - pos.cost
            }
        }),
{
    let pp = pools[k];
    let settled = AccountPositionView {
        funding_index: if pos.amount > 0 { pp.funding_long_index } else { pp.funding_short_index },
        ..pos
    };
    assert(pos.amount * 0 == 0) by (nonlinear_arith);
    assert(-pos.amount * 0 == 0) by (nonlinear_arith);
    assert(tdiv(0, scale()) == 0);
}

/// The PnL and margin of a list of positions, summed in order.
pub open spec fn positions_value_spec(
    config: VirtualConfig,
    pools: Map<Seq<char>, PoolPositionView>,
    oracle: VirtualOracle,
    rebate: int,
    entries: Seq<(Seq<char>, AccountPositionView)>,
    maintenance: bool,
) -> Option<(int, int)>
    decreases entries.len(),
{
    if entries.len() == 0 {
        Some((0, 0))
    } else {
        match positions_value_spec(config, pools, oracle, rebate, entries.drop_last(), maintenance) {
            Some((tp, tm)) => match position_value_spec(config, pools, oracle, rebate, entries.last().0, entries.last().1, maintenance) {
                Some((p, m)) => if in_range(tp + p) && in_range(tm + m) {
                    Some((tp + p, tm + m))
                } else {
                    None
                },
                None => None,
            },
            None => None,
        }
    }
}

/// Whether every position of the list is in a pair that the operation loaded.
pub open spec fn all_priced(
    config: VirtualConfig,
    pools: Map<Seq<char>, PoolPositionView>,
    oracle: VirtualOracle,
    entries: Seq<(Seq<char>, AccountPositionView)>,
) -> bool {
    forall|i: int| 0 <= i < entries.len() ==> #[trigger] priced(config, pools, oracle, entries[i].0)
}

/// What closing a position would realize and the margin it requires.
pub fn value_position(
    config: &VirtualConfig,
    pool: &VirtualLiquidityPool,
    oracle: &VirtualOracle,
    fee_rebate: Decimal,
    pair_id: &PairId,
    position: AccountPosition,
    maintenance: bool,
) -> (r: (Decimal, Decimal))
    requires
        priced(*config, pool.views(), *oracle, pair_id@),
        position_value_spec(*config, pool.views(), *oracle, fee_rebate@, pair_id@, position@, maintenance) is Some,
    ensures
        ({
            let (p, m) = position_value_spec(*config, pool.views(), *oracle, fee_rebate@, pair_id@, position@, maintenance).unwrap();
            r.0@ == p && r.1@ == m
        }),
{
    let pair_config = config.pair_config(pair_id);
    let price = oracle.price(pair_id);
    let amount = position.amount;
    let value = amount.neg().mul(price);
    let value_abs = value.abs();
    let pool_position = pool.position(pair_id);
    let fee = calculate_fee(&config.exchange_config, pair_config, &pool_position, fee_rebate, price, value);
    let funding = if amount.is_positive() {
        amount.mul(pool_position.funding_long_index.sub(position.funding_index))
    } else {
        amount.neg().mul(pool_position.funding_short_index.sub(position.funding_index))
    };
    let pnl = value.neg().sub(position.cost).sub(fee).sub(funding);
    let rate = if maintenance { pair_config.margin_maintenance } else { pair_config.margin_initial };
    let margin = value_abs.mul(rate);
    (pnl, margin)
}

/// The PnL of closing all of the account's positions and the initial margin they require.
pub fn value_positions(
    config: &VirtualConfig,
    pool: &VirtualLiquidityPool,
    account: &VirtualMarginAccount,
    oracle: &VirtualOracle,
) -> (r: (Decimal, Decimal))
    requires
        account.referral matches Some(d) ==> in_range(scale() - d.fee_rebate@),
        all_priced(*config, pool.views(), *oracle, account.position_views()),
        positions_value_spec(*config, pool.views(), *oracle, rebate_of(*account), account.position_views(), false) is Some,
    ensures
        ({
            let (p, m) = positions_value_spec(*config, pool.views(), *oracle, rebate_of(*account), account.position_views(), false).unwrap();
            r.0@ == p && r.1@ == m
        }),
{
    let fee_rebate = account.fee_rebate();
    let ghost entries = account.positions.entries();
    let ghost views = account.position_views();
    let mut total_pnl = Decimal::zero();
    let mut total_margin = Decimal::zero();
    let mut i: usize = 0;
    proof {
        lemma_positions_value_prefix(*config, pool.views(), *oracle, fee_rebate@, views, 0, false);
    }
    while i < account.positions.len()
        invariant
            i <= entries.len(),
            entries == account.positions.entries(),
            views == entry_views(entries),
            fee_rebate@ == rebate_of(*account),
            all_priced(*config, pool.views(), *oracle, views),
            positions_value_spec(*config, pool.views(), *oracle, fee_rebate@, views, false) is Some,
            positions_value_spec(*config, pool.views(), *oracle, fee_rebate@, views.subrange(0, i as int), false) == Some((total_pnl@, total_margin@)),
        decreases entries.len() - i,
    {
        let pair_id = account.positions.key_at(i);
        let position = *account.positions.value_at(i);
        proof {
            assert(views.subrange(0, i as int + 1).drop_last() =~= views.subrange(0, i as int));
            assert(views[i as int] == (entries[i as int].0@, entries[i as int].1@));
            assert(priced(*config, pool.views(), *oracle, views[i as int].0));
            lemma_positions_value_prefix(*config, pool.views(), *oracle, fee_rebate@, views, i as int + 1, false);
        }
        let (pnl, margin) = value_position(config, pool, oracle, fee_rebate, pair_id, position, false);
        total_pnl = total_pnl.add(pnl);
        total_margin = total_margin.add(margin);
        i = i + 1;
    }
    assert(views.subrange(0, views.len() as int) =~= views);
    (total_pnl, total_margin)
}

/// A list whose positions can be valued has prefixes whose positions can be valued.
pub proof fn lemma_positions_value_prefix(
    config: VirtualConfig,
    pools: Map<Seq<char>, PoolPositionView>,
    oracle: VirtualOracle,
    rebate: int,
    entries: Seq<(Seq<char>, AccountPositionView)>,
    n: int,
    maintenance: bool,
)
    requires
        0 <= n <= entries.len(),
        positions_value_spec(config, pools, oracle, rebate, entries, maintenance) is Some,
    ensures
        positions_value_spec(config, pools, oracle, rebate, entries.subrange(0, n), maintenance) is Some,
    decreases entries.len() - n,
{
    if n < entries.len() {
        lemma_positions_value_prefix(config, pools, oracle, rebate, entries, n + 1, maintenance);
        assert(entries.subrange(0, n + 1).drop_last() =~= entries.subrange(0, n));
    } else {
        assert(entries.subrange(0, n) =~= entries);
    }
}

/// Whether collateral in `resource` counts (the exchange has settings for it).
pub open spec fn is_collateral(config: VirtualConfig, resource: ResourceAddress) -> bool {
    config.collateral_configs.view_map().dom().contains(resource)
}

/// The value of a collateral balance at the oracle's price, that value at the
/// collateral's discount, and the margin it requires.
pub open spec fn collateral_value_spec(config: VirtualConfig, oracle: VirtualOracle, resource: ResourceAddress, amount: int) -> Option<(int, int, int)> {
    let cc = config.collateral_configs.view_map()[resource];
    let value = omul(Some(amount), Some(oracle.resource_price_of(resource)@));
    match (value, omul(value, Some(cc.discount@)), omul(value, Some(cc.margin@))) {
        (Some(v), Some(d), Some(m)) => Some((v, d, m)),
        _ => None,
    }
}

/// The totals, in order, over the balances of resources that count as
/// collateral: value (only summed when `with_value` holds, else zero),
/// discounted value and margin.
pub open spec fn collaterals_value_spec(
    config: VirtualConfig,
    oracle: VirtualOracle,
    entries: Seq<(ResourceAddress, int)>,
    with_value: bool,
) -> Option<(int, int, int)>
    decreases entries.len(),
{
    if entries.len() == 0 {
        Some((0, 0, 0))
    } else {
        match collaterals_value_spec(config, oracle, entries.drop_last(), with_value) {
            Some((tv, td, tm)) => {
                let (resource, amount) = entries.last();
                if is_collateral(config, resource) {
                    match collateral_value_spec(config, oracle, resource, amount) {
                        Some((v, d, m)) => {
                            let nv = if with_value { tv + v } else { 0 };
                            if in_range(nv) && in_range(td + d) && in_range(tm + m) {
                                Some((nv, td + d, tm + m))
                            } else {
                                None
                            }
                        },
                        None => None,
                    }
                } else {
                    Some((tv, td, tm))
                }
            },
            None => None,
        }
    }
}

/// Whether every balance of a resource that counts as collateral has a price.
pub open spec fn collateral_priced(config: VirtualConfig, oracle: VirtualOracle, entries: Seq<(ResourceAddress, int)>) -> bool {
    forall|i: int| 0 <= i < entries.len() && is_collateral(config, #[trigger] entries[i].0) ==> oracle.has_resource_price(entries[i].0)
}

pub proof fn lemma_collaterals_value_prefix(
    config: VirtualConfig,
    oracle: VirtualOracle,
    entries: Seq<(ResourceAddress, int)>,
    n: int,
    with_value: bool,
)
    requires
        0 <= n <= entries.len(),
        collaterals_value_spec(config, oracle, entries, with_value) is Some,
    ensures
        collaterals_value_spec(config, oracle, entries.subrange(0, n), with_value) is Some,
    decreases entries.len() - n,
{
    if n < entries.len() {
        lemma_collaterals_value_prefix(config, oracle, entries, n + 1, with_value);
        assert(entries.subrange(0, n + 1).drop_last() =~= entries.subrange(0, n));
    } else {
        assert(entries.subrange(0, n) =~= entries);
    }
}

/// The discounted value of the account's collateral and the margin it requires.
pub fn value_collateral(config: &VirtualConfig, account: &VirtualMarginAccount, oracle: &VirtualOracle) -> (r: (Decimal, Decimal))
    requires
        collateral_priced(*config, *oracle, coll_views(account.collateral_balances.entries())),
        collaterals_value_spec(*config, *oracle, coll_views(account.collateral_balances.entries()), false) is Some,
    ensures
        ({
            let (_, d, m) = collaterals_value_spec(*config, *oracle, coll_views(account.collateral_balances.entries()), false).unwrap();
            r.0@ == d && r.1@ == m
        }),
{
    let ghost entries = coll_views(account.collateral_balances.entries());
    let mut total_value_discounted = Decimal::zero();
    let mut total_margin = Decimal::zero();
    let mut i: usize = 0;
    while i < account.collateral_balances.len()
        invariant
            i <= entries.len(),
            entries == coll_views(account.collateral_balances.entries()),
            collateral_priced(*config, *oracle, entries),
            collaterals_value_spec(*config, *oracle, entries, false) is Some,
            collaterals_value_spec(*config, *oracle, entries.subrange(0, i as int), false) == Some((0int, total_value_discounted@, total_margin@)),
        decreases entries.len() - i,
    {
        let resource = *account.collateral_balances.key_at(i);
        let amount = *account.collateral_balances.value_at(i);
        proof {
            assert(entries.subrange(0, i as int + 1).drop_last() =~= entries.subrange(0, i as int));
            lemma_collaterals_value_prefix(*config, *oracle, entries, i as int + 1, false);
        }
        match config.collateral_configs.get(&resource) {
            Some(collateral_config) => {
                proof {
                    assert(is_collateral(*config, entries[i as int].0));
                }
                let price_resource = oracle.price_resource(&resource);
                let value = amount.mul(price_resource);
                let value_discounted = value.mul(collateral_config.discount);
                let margin = value.mul(collateral_config.margin);
                total_value_discounted = total_value_discounted.add(value_discounted);
                total_margin = total_margin.add(margin);
            },
            None => {},
        }
        i = i + 1;
    }
    assert(entries.subrange(0, entries.len() as int) =~= entries);
    (total_value_discounted, total_margin)
}

/// The account's value (PnL of closing its positions, discounted collateral and
/// virtual balance) and the margin it requires (initial margin of the positions
/// and the collateral's margin).
pub open spec fn health_spec(
    config: VirtualConfig,
    pools: Map<Seq<char>, PoolPositionView>,
    oracle: VirtualOracle,
    rebate: int,
    positions: Seq<(Seq<char>, AccountPositionView)>,
    collaterals: Seq<(ResourceAddress, int)>,
    virtual_balance: int,
) -> Option<(int, int)> {
    match (
        positions_value_spec(config, pools, oracle, rebate, positions, false),
        collaterals_value_spec(config, oracle, collaterals, false),
    ) {
        (Some((p, mp)), Some((_, d, mc))) => match (oadd(oadd(Some(p), Some(d)), Some(virtual_balance)), oadd(Some(mp), Some(mc))) {
            (Some(v), Some(m)) => Some((v, m)),
            _ => None,
        },
        _ => None,
    }
}

/// The health of an account as it stands.
pub open spec fn account_health_spec(
    config: VirtualConfig,
    pool: VirtualLiquidityPool,
    account: VirtualMarginAccount,
    oracle: VirtualOracle,
) -> Option<(int, int)> {
    health_spec(config, pool.views(), oracle, rebate_of(account), account.position_views(),
        coll_views(account.collateral_balances.entries()), account.virtual_balance@)
}

/// Whether the operation can value the account.
pub open spec fn health_computable(
    config: VirtualConfig,
    pool: VirtualLiquidityPool,
    account: VirtualMarginAccount,
    oracle: VirtualOracle,
) -> bool {
    &&& account.referral matches Some(d) ==> in_range(scale() - d.fee_rebate@)
    &&& all_priced(config, pool.views(), oracle, account.position_views())
    &&& collateral_priced(config, oracle, coll_views(account.collateral_balances.entries()))
    &&& account_health_spec(config, pool, account, oracle) is Some
}

/// Checks that the account's value covers the margin it requires.
pub fn assert_account_integrity(
    config: &VirtualConfig,
    pool: &VirtualLiquidityPool,
    account: &VirtualMarginAccount,
    oracle: &VirtualOracle,
) -> (r: Result<(), ExchangeError>)
    requires
        health_computable(*config, *pool, *account, *oracle),
    ensures
        ({
            let (v, m) = account_health_spec(*config, *pool, *account, *oracle).unwrap();
            &&& r is Ok <==> v >= m
            &&& r is Err ==> r == Err::<(), ExchangeError>(ExchangeError::InsufficientMargin)
        }),
{
    let (pnl, margin_positions) = value_positions(config, pool, account, oracle);
    let (collateral_value_discounted, margin_collateral) = value_collateral(config, account, oracle);
    let account_value = pnl.add(collateral_value_discounted).add(account.virtual_balance);
    let margin = margin_positions.add(margin_collateral);
    if account_value.ge(margin) {
        Ok(())
    } else {
        Err(ExchangeError::InsufficientMargin)
    }
}

/// Checks that the account holds no more positions than allowed.
pub fn assert_position_limit(config: &VirtualConfig, account: &VirtualMarginAccount) -> (r: Result<(), ExchangeError>)
    ensures
        r is Ok <==> account.positions.entries().len() <= config.exchange_config.positions_max,
        r is Err ==> r == Err::<(), ExchangeError>(ExchangeError::PositionsTooMany),
{
    if account.positions.len() <= config.exchange_config.positions_max as usize {
        Ok(())
    } else {
        Err(ExchangeError::PositionsTooMany)
    }
}

/// Checks that the account holds no more collateral resources than allowed.
pub fn assert_collaterals_limit(config: &VirtualConfig, account: &VirtualMarginAccount) -> (r: Result<(), ExchangeError>)
    ensures
        r is Ok <==> account.collateral_balances.entries().len() <= config.exchange_config.collaterals_max,
        r is Err ==> r == Err::<(), ExchangeError>(ExchangeError::CollateralsTooMany),
{
    if account.collateral_balances.len() <= config.exchange_config.collaterals_max as usize {
        Ok(())
    } else {
        Err(ExchangeError::CollateralsTooMany)
    }
}

/// Checks that the account has no more active requests than allowed.
pub fn assert_active_requests_limit(config: &VirtualConfig, account: &VirtualMarginAccount) -> (r: Result<(), ExchangeError>)
    ensures
        r is Ok <==> account.active_requests_len <= config.exchange_config.active_requests_max,
        r is Err ==> r == Err::<(), ExchangeError>(ExchangeError::ActiveRequestsTooMany),
{
    if account.active_requests_len <= config.exchange_config.active_requests_max as usize {
        Ok(())
    } else {
        Err(ExchangeError::ActiveRequestsTooMany)
    }
}

/// Checks that a resource counts as collateral.
pub fn assert_valid_collateral(config: &VirtualConfig, resource: &ResourceAddress) -> (r: Result<(), ExchangeError>)
    ensures
        r is Ok <==> is_collateral(*config, *resource),
        r is Err ==> r == Err::<(), ExchangeError>(ExchangeError::InvalidCollateral),
{
    if config.collateral_configs.contains_key(resource) {
        Ok(())
    } else {
        Err(ExchangeError::InvalidCollateral)
    }
}

/// Checks the pool's skew: the skew ratio must stay under the cap unless the
/// operation reduced the skew (`skew_delta` negative).
pub fn assert_pool_integrity(config: &VirtualConfig, pool: &VirtualLiquidityPool, skew_delta: Decimal) -> (r: Result<(), ExchangeError>)
    requires
        skew_ratio_spec(*pool) is Some,
    ensures
        r is Ok <==> skew_ratio_spec(*pool).unwrap() < config.exchange_config.skew_ratio_cap@ || skew_delta@ < 0,
        r is Err ==> r == Err::<(), ExchangeError>(ExchangeError::SkewTooHigh),
{
    let skew_ratio = skew_ratio(pool);
    if skew_ratio.lt(config.exchange_config.skew_ratio_cap) || skew_delta.is_negative() {
        Ok(())
    } else {
        Err(ExchangeError::SkewTooHigh)
    }
}

} // verus!

use vstd::prelude::*;
use crate::account::{
    AccountPosition, AccountPositionView, KeeperRequest, ReferralView, VirtualMarginAccount, insert_view,
    lemma_entry_views_distinct, lemma_pos_in, lemma_pos_in_insert, pos_in, qualifying, referral_view,
    status_applied, views_distinct,
};
use crate::common::{ExchangeError, ListIndex, PairId};
use crate::config::VirtualConfig;
use crate::decimal::{Decimal, abs, in_range, lemma_decimal_in_range, oabs, oadd, odiv, omul, oneg, osub, scale};
use crate::exchange::{
    all_priced, assert_account_integrity, assert_pool_integrity, assert_position_limit, calculate_fee,
    collateral_priced, fee_spec, fees_referral_step, funding_step, health_spec, pair_step, settle_account,
    settle_fees_referral, settle_funding, settle_step, snaps_step, state_skew_ratio, update_pair,
    update_pair_snaps,
};
use crate::requests::{MarginOrderView, RequestMarginOrder, STATUS_ACTIVE, STATUS_CANCELLED};
use crate::map::AssocMap;
use crate::oracle::VirtualOracle;
use crate::pool::{PoolPosition, PoolPositionView, VirtualLiquidityPool};
use crate::state::{AccountState, PoolState};

verus! {

/// The factor applied to the fees of an account with this referral: one minus
/// its rebate, or one (the full fee) without a referral.
pub open spec fn rebate_view(referral: Option<ReferralView>) -> int {
    match referral {
        Some(d) => scale() - d.fee_rebate,
        None => scale(),
    }
}

/// Whether the account's fee factor is in range.
pub open spec fn rebate_fits(referral: Option<ReferralView>) -> bool {
    referral matches Some(d) ==> in_range(scale() - d.fee_rebate)
}

/// Closing `amount` (of the opposite sign to the position, at most its size) of
/// the account's position in pair `k` at `price`: the share of the position's
/// cost that leaves it, the PnL realized (the trade's value, negated, less that
/// cost and the fee) which the pool pays into the account's virtual balance,
/// the open interest and cost that leave the pool, and new snapshots. Hands
/// back the pool, the account, the PnL and the fee.
pub open spec fn close_step(
    config: VirtualConfig,
    p: PoolState,
    a: AccountState,
    price: int,
    k: Seq<char>,
    amount: int,
) -> Option<(PoolState, AccountState, int, int)> {
    let pp = p.views[k];
    let pos = pos_in(a.positions, k);
    let value = omul(Some(amount), Some(price));
    match value {
        Some(v) => {
            let fee = fee_spec(config.exchange_config, config.pair_of(k), pp.oi_long, pp.oi_short, rebate_view(a.referral), price, v);
            let cost = omul(odiv(oneg(Some(amount)), Some(pos.amount)), Some(pos.cost));
            let pnl = osub(osub(oneg(Some(v)), cost), fee);
            let oi = if amount < 0 {
                oadd(Some(pp.oi_long), Some(amount))
            } else {
                osub(Some(pp.oi_short), Some(amount))
            };
            match (fee, cost, pnl, oi, osub(Some(pp.cost), cost), oadd(Some(pos.amount), Some(amount)), osub(Some(pos.cost), cost)) {
                (Some(fe), Some(_), Some(pn), Some(o), Some(npc), Some(na), Some(nc)) => {
                    let npp = if amount < 0 {
                        PoolPositionView { oi_long: o, cost: npc, ..pp }
                    } else {
                        PoolPositionView { oi_short: o, cost: npc, ..pp }
                    };
                    let p1 = PoolState { views: p.views.insert(k, npp), updated: p.updated.insert(k), ..p };
                    let a1 = AccountState {
                        positions: insert_view(a.positions, k, AccountPositionView { amount: na, cost: nc, ..pos }),
                        updated: a.updated.insert(k),
                        ..a
                    };
                    match settle_step(p1, a1, pn) {
                        Some((p2, a2)) => match snaps_step(p2, k, price) {
                            Some(p3) => if p.views.dom().contains(k) && config.has_pair(k) && rebate_fits(a.referral) {
                                Some((p3, a2, pn, fe))
                            } else {
                                None
                            },
                            None => None,
                        },
                        None => None,
                    }
                },
                _ => None,
            }
        },
        None => None,
    }
}

/// After closing, the position's size has moved by the amount closed.
pub proof fn lemma_close_position_amount(
    config: VirtualConfig,
    p: PoolState,
    a: AccountState,
    price: int,
    k: Seq<char>,
    amount: int,
)
    requires
        views_distinct(a.positions),
        close_step(config, p, a, price, k, amount) is Some,
    ensures
        pos_in(close_step(config, p, a, price, k, amount).unwrap().1.positions, k).amount == pos_in(a.positions, k).amount
            + amount,
{
    let pos = pos_in(a.positions, k);
    let v = omul(Some(amount), Some(price)).unwrap();
    let cost = omul(odiv(oneg(Some(amount)), Some(pos.amount)), Some(pos.cost)).unwrap();
    lemma_pos_in_insert(
        a.positions,
        k,
        AccountPositionView { amount: pos.amount + amount, cost: pos.cost - cost, ..pos },
    );
}

/// Whether `amount` can close part of a position of size `position`: it is of
/// the opposite sign (or zero) and no larger.
pub open spec fn closes(position: int, amount: int) -> bool {
    &&& (position > 0 ==> amount <= 0)
    &&& (position < 0 ==> amount >= 0)
    &&& abs(position) >= abs(amount)
}

/// Closes `amount` of the account's position in a pair at the oracle's price
/// (see [`close_step`]); hands back the PnL and the fee.
pub fn close_position(
    config: &VirtualConfig,
    pool: &mut VirtualLiquidityPool,
    account: &mut VirtualMarginAccount,
    oracle: &VirtualOracle,
    pair_id: &PairId,
    amount: Decimal,
) -> (r: (Decimal, Decimal))
    requires
        oracle.has_price(pair_id@),
        closes(pos_in(old(account).position_views(), pair_id@).amount, amount@),
        close_step(*config, old(pool).state(), old(account).state(), oracle.price_of(pair_id@)@, pair_id@, amount@) is Some,
    ensures
        close_step(*config, old(pool).state(), old(account).state(), oracle.price_of(pair_id@)@, pair_id@, amount@)
            == Some((final(pool).state(), final(account).state(), r.0@, r.1@)),
        final(account).requests() == old(account).requests(),
        final(account).active_requests_len == old(account).active_requests_len,
        final(account).address == old(account).address,
        final(account).requests_len == old(account).requests_len,
        final(account).valid_requests_start == old(account).valid_requests_start,
{
    proof {
        use_type_invariant(&account.positions);
        AssocMap::lemma_inv_distinct(account.positions);
        lemma_pos_in(account.positions.entries(), pair_id@);
    }
    let pair_config = config.pair_config(pair_id);
    let fee_rebate = account.fee_rebate();
    let price = oracle.price(pair_id);
    let value = amount.mul(price);
    let pool_position = pool.position(pair_id);
    let position = account.position(pair_id);
    let fee = calculate_fee(&config.exchange_config, pair_config, &pool_position, fee_rebate, price, value);
    let cost = amount.neg().div(position.amount).mul(position.cost);
    let pnl = value.neg().sub(cost).sub(fee);
    let updated_pool_position = if amount.is_negative() {
        PoolPosition { oi_long: pool_position.oi_long.add(amount), cost: pool_position.cost.sub(cost), ..pool_position }
    } else {
        PoolPosition { oi_short: pool_position.oi_short.sub(amount), cost: pool_position.cost.sub(cost), ..pool_position }
    };
    let updated_position = AccountPosition {
        amount: position.amount.add(amount),
        cost: position.cost.sub(cost),
        ..position
    };
    pool.set_position(pair_id, updated_pool_position);
    assert(pool.views() =~= old(pool).views().insert(pair_id@, updated_pool_position@));
    account.set_position(pair_id, updated_position);
    settle_account(pool, account, pnl);
    update_pair_snaps(pool, oracle, pair_id);
    (pnl, fee)
}

/// Whether `amount` can add to a position of size `position`: it is of the same
/// sign (or one of them is zero).
pub open spec fn extends(position: int, amount: int) -> bool {
    &&& (position > 0 ==> amount >= 0)
    &&& (position < 0 ==> amount <= 0)
}

/// The account's value and the margin it requires, in a state of the pool and
/// the account; `None` when a price is missing or a sum leaves the range.
pub open spec fn state_health(config: VirtualConfig, p: PoolState, a: AccountState, oracle: VirtualOracle) -> Option<(int, int)> {
    if all_priced(config, p.views, oracle, a.positions) && collateral_priced(config, oracle, a.collaterals)
        && rebate_fits(a.referral) {
        health_spec(config, p.views, oracle, rebate_view(a.referral), a.positions, a.collaterals, a.virtual_balance)
    } else {
        None
    }
}

/// Opening `amount` (of the same sign as the position) in pair `k` at the
/// oracle's price: the trade's value plus the fee is its cost, which the
/// position and the pool's side take on with the open interest; the position
/// follows its side's funding index, and the pair's snapshots are re-taken.
/// Refused when the side's open interest would pass the pair's maximum, when
/// the account would hold too many positions, or when its value would not
/// cover the margin it requires. Hands back the pool, the account and the fee.
pub open spec fn open_step(
    config: VirtualConfig,
    p: PoolState,
    a: AccountState,
    oracle: VirtualOracle,
    k: Seq<char>,
    amount: int,
) -> Option<Result<(PoolState, AccountState, int), ExchangeError>> {
    let pp = p.views[k];
    let pos = pos_in(a.positions, k);
    let price = oracle.price_of(k)@;
    let pc = config.pair_of(k);
    match omul(Some(amount), Some(price)) {
        Some(v) => {
            let fee = fee_spec(config.exchange_config, pc, pp.oi_long, pp.oi_short, rebate_view(a.referral), price, v);
            let cost = oadd(Some(v), fee);
            let oi = if amount > 0 {
                oadd(Some(pp.oi_long), Some(amount))
            } else {
                osub(Some(pp.oi_short), Some(amount))
            };
            match (fee, cost, oi) {
                (Some(fe), Some(c), Some(o)) => if !(p.views.dom().contains(k) && config.has_pair(k) && oracle.has_price(k)
                    && rebate_fits(a.referral)) {
                    None
                } else if o > pc.oi_max@ {
                    Some(Err(ExchangeError::PairOiTooHigh))
                } else {
                    match (oadd(Some(pp.cost), Some(c)), oadd(Some(pos.amount), Some(amount)), oadd(Some(pos.cost), Some(c))) {
                        (Some(npc), Some(na), Some(nc)) => {
                            let npp = if amount > 0 {
                                PoolPositionView { oi_long: o, cost: npc, ..pp }
                            } else {
                                PoolPositionView { oi_short: o, cost: npc, ..pp }
                            };
                            let index = if na > 0 {
                                pp.funding_long_index
                            } else {
                                pp.funding_short_index
                            };
                            let p1 = PoolState { views: p.views.insert(k, npp), updated: p.updated.insert(k), ..p };
                            let a1 = AccountState {
                                positions: insert_view(a.positions, k, AccountPositionView { amount: na, cost: nc, funding_index: index }),
                                updated: a.updated.insert(k),
                                ..a
                            };
                            match snaps_step(p1, k, price) {
                                Some(p2) => if a1.positions.len() > config.exchange_config.positions_max {
                                    Some(Err(ExchangeError::PositionsTooMany))
                                } else {
                                    match state_health(config, p2, a1, oracle) {
                                        Some((value, margin)) => if value >= margin {
                                            Some(Ok((p2, a1, fe)))
                                        } else {
                                            Some(Err(ExchangeError::InsufficientMargin))
                                        },
                                        None => None,
                                    }
                                },
                                None => None,
                            }
                        },
                        _ => None,
                    }
                },
                _ => None,
            }
        },
        None => None,
    }
}

/// A position just opened or extended owes no funding: its funding index is
/// the current index of its own side (the long index for a long, the short
/// index for a short), so settling its funding at once moves nothing.
pub proof fn law_opened_position_owes_no_funding(
    config: VirtualConfig,
    p: PoolState,
    a: AccountState,
    oracle: VirtualOracle,
    k: Seq<char>,
    amount: int,
)
    requires
        views_distinct(a.positions),
    ensures
        open_step(config, p, a, oracle, k, amount) matches Some(Ok((p2, a2, _))) ==> {
            let np = pos_in(a2.positions, k);
            let pp = p2.views[k];
            &&& np.funding_index == (if np.amount > 0 { pp.funding_long_index } else { pp.funding_short_index })
            &&& in_range(-np.amount) ==> crate::exchange::position_funding(np, pp) == Some(0int)
        },
{
    if let Some(Ok((p2, a2, _))) = open_step(config, p, a, oracle, k, amount) {
        let pp = p.views[k];
        let pos = pos_in(a.positions, k);
        let price = oracle.price_of(k)@;
        let v = omul(Some(amount), Some(price)).unwrap();
        let fee = fee_spec(config.exchange_config, config.pair_of(k), pp.oi_long, pp.oi_short, rebate_view(a.referral), price, v);
        let c = oadd(Some(v), fee).unwrap();
        let na = pos.amount + amount;
        let nc = pos.cost + c;
        let index = if na > 0 { pp.funding_long_index } else { pp.funding_short_index };
        lemma_pos_in_insert(a.positions, k, AccountPositionView { amount: na, cost: nc, funding_index: index });
        let np = pos_in(a2.positions, k);
        assert(np == AccountPositionView { amount: na, cost: nc, funding_index: index });
        assert(p2.views[k].funding_long_index == pp.funding_long_index);
        assert(p2.views[k].funding_short_index == pp.funding_short_index);
        assert(np.amount * 0 == 0) by (nonlinear_arith);
        assert(-np.amount * 0 == 0) by (nonlinear_arith);
        assert(crate::decimal::tdiv(0, scale()) == 0);
        assert(crate::decimal::mul_attos(np.amount, 0) == 0);
        assert(crate::decimal::mul_attos(-np.amount, 0) == 0);
        assert(np.funding_index == (if np.amount > 0 { p2.views[k].funding_long_index } else { p2.views[k].funding_short_index }));
        let q = p2.views[k];
        if np.amount > 0 {
            assert(osub(Some(q.funding_long_index), Some(np.funding_index)) == Some(0int));
        } else {
            assert(osub(Some(q.funding_short_index), Some(np.funding_index)) == Some(0int));
            if in_range(-np.amount) {
                assert(oneg(Some(np.amount)) == Some(-np.amount));
            }
        }
    }
}

/// Opens `amount` in the account's position in a pair at the oracle's price
/// (see [`open_step`]); hands back the fee. On an error the operation is void
/// and the working copies are to be dropped.
pub fn open_position(
    config: &VirtualConfig,
    pool: &mut VirtualLiquidityPool,
    account: &mut VirtualMarginAccount,
    oracle: &VirtualOracle,
    pair_id: &PairId,
    amount: Decimal,
) -> (r: Result<Decimal, ExchangeError>)
    requires
        extends(pos_in(old(account).position_views(), pair_id@).amount, amount@),
        open_step(*config, old(pool).state(), old(account).state(), *oracle, pair_id@, amount@) is Some,
    ensures
        match open_step(*config, old(pool).state(), old(account).state(), *oracle, pair_id@, amount@).unwrap() {
            Ok((p, a, fee)) => r matches Ok(f) && f@ == fee && final(pool).state() == p && final(account).state() == a,
            Err(e) => r == Err::<Decimal, ExchangeError>(e),
        },
        r is Ok ==> final(account).requests() == old(account).requests() && final(account).active_requests_len
            == old(account).active_requests_len && final(account).address == old(account).address,
{
    proof {
        use_type_invariant(&account.positions);
        AssocMap::lemma_inv_distinct(account.positions);
        lemma_pos_in(account.positions.entries(), pair_id@);
    }
    let pair_config = config.pair_config(pair_id);
    let fee_rebate = account.fee_rebate();
    let price = oracle.price(pair_id);
    let value = amount.mul(price);
    let pool_position = pool.position(pair_id);
    let position = account.position(pair_id);
    let fee = calculate_fee(&config.exchange_config, pair_config, &pool_position, fee_rebate, price, value);
    let cost = value.add(fee);
    let oi = if amount.is_positive() {
        pool_position.oi_long.add(amount)
    } else {
        pool_position.oi_short.sub(amount)
    };
    if oi.gt(pair_config.oi_max) {
        return Err(ExchangeError::PairOiTooHigh);
    }
    let pool_cost = pool_position.cost.add(cost);
    let updated_pool_position = if amount.is_positive() {
        PoolPosition { oi_long: oi, cost: pool_cost, ..pool_position }
    } else {
        PoolPosition { oi_short: oi, cost: pool_cost, ..pool_position }
    };
    let new_amount = position.amount.add(amount);
    let funding_index = if new_amount.is_positive() {
        pool_position.funding_long_index
    } else {
        pool_position.funding_short_index
    };
    let updated_position = AccountPosition { amount: new_amount, cost: position.cost.add(cost), funding_index };
    pool.set_position(pair_id, updated_pool_position);
    assert(pool.views() =~= old(pool).views().insert(pair_id@, updated_pool_position@));
    account.set_position(pair_id, updated_position);
    update_pair_snaps(pool, oracle, pair_id);
    assert_position_limit(config, account)?;
    assert_account_integrity(config, pool, account, oracle)?;
    Ok(fee)
}

/// The part of an order of `amount` that closes a position of size `position`
/// (the order, when of the opposite sign, up to the position's size) and the
/// part that opens (the rest, or nothing when the order only reduces).
pub open spec fn order_split(position: int, amount: int, reduce_only: bool) -> (int, int) {
    let close = if position > 0 && amount < 0 {
        if amount >= -position {
            amount
        } else {
            -position
        }
    } else if position < 0 && amount > 0 {
        if amount <= -position {
            amount
        } else {
            -position
        }
    } else {
        0
    };
    (close, if !reduce_only { amount - close } else { 0 })
}

/// How an order splits against a position: a reduce-only order opens nothing;
/// the part that closes moves the position toward zero without passing it; and
/// an order that is not reduce-only is split whole into its closing and opening
/// parts.
pub proof fn law_order_split(position: int, amount: int, reduce_only: bool)
    ensures
        ({
            let (close, open) = order_split(position, amount, reduce_only);
            &&& reduce_only ==> open == 0
            &&& !reduce_only ==> close + open == amount
            &&& abs(position + close) <= abs(position)
            &&& (position >= 0 ==> position + close >= 0) && (position <= 0 ==> position + close <= 0)
            &&& (close == 0 || (close < 0) == (amount < 0))
        }),
{
}

/// Whether splitting an order stays in range.
pub open spec fn split_fits(position: int, amount: int, reduce_only: bool) -> bool {
    &&& (position > 0 && amount < 0) || (position < 0 && amount > 0) ==> in_range(-position)
    &&& !reduce_only ==> in_range(amount - order_split(position, amount, reduce_only).0)
}

/// What the trade of a margin order did.
pub struct TradeOutcome {
    pub pool: PoolState,
    pub account: AccountState,
    /// The pool's absolute skew before the trade (after the pair update).
    pub skew_before: int,
    pub amount_close: int,
    pub amount_open: int,
    pub pnl: int,
    pub funding: int,
    pub fee_paid: int,
}

/// The trade of a margin order of `amount` in pair `k` at time `now`: the pair
/// is updated, the position's funding settled, then the closing part of the
/// order closes (see [`close_step`]) and the opening part opens (see
/// [`open_step`]).
pub open spec fn trade_step(
    config: VirtualConfig,
    p: PoolState,
    a: AccountState,
    oracle: VirtualOracle,
    now: i64,
    k: Seq<char>,
    amount: int,
    reduce_only: bool,
) -> Option<Result<TradeOutcome, ExchangeError>> {
    let price = oracle.price_of(k)@;
    match pair_step(config, p, price, now, k) {
        Some((p1, _)) => match funding_step(p1, a, k) {
            Some((p2, a2, funding)) => {
                let position = pos_in(a2.positions, k).amount;
                let (close, open) = order_split(position, amount, reduce_only);
                if !split_fits(position, amount, reduce_only) {
                    None
                } else {
                    let closed = if close != 0 {
                        close_step(config, p2, a2, price, k, close)
                    } else {
                        Some((p2, a2, 0int, 0int))
                    };
                    match closed {
                        Some((p3, a3, pnl, fee_close)) => {
                            let opened = if open != 0 {
                                open_step(config, p3, a3, oracle, k, open)
                            } else {
                                Some(Ok((p3, a3, 0int)))
                            };
                            match opened {
                                Some(Ok((p4, a4, fee_open))) => if in_range(fee_close + fee_open) {
                                    Some(
                                        Ok(
                                            TradeOutcome {
                                                pool: p4,
                                                account: a4,
                                                skew_before: p2.skew_abs_snap,
                                                amount_close: close,
                                                amount_open: open,
                                                pnl,
                                                funding,
                                                fee_paid: fee_close + fee_open,
                                            },
                                        ),
                                    )
                                } else {
                                    None
                                },
                                Some(Err(e)) => Some(Err(e)),
                                None => None,
                            }
                        },
                        None => None,
                    }
                }
            },
            None => None,
        },
        None => None,
    }
}

/// What a margin order did, beside the changed pool and account.
pub struct OrderOutcome {
    pub pool: PoolState,
    pub account: AccountState,
    pub amount_close: int,
    pub amount_open: int,
    /// The PnL of the closing part plus the funding settled.
    pub pnl: int,
    pub funding: int,
    /// The fee's parts, negated: pool, protocol, treasury, referrer.
    pub fees: (int, int, int, int),
}

/// A margin order at time `now`: refused when the oracle's price breaks the
/// order's price limit; then the trade (see [`trade_step`]), refused when the
/// fees pass the slippage limit on the trade's value; the fees are split (see
/// [`fees_referral_step`]); refused at last when the pool's skew ratio reaches
/// its cap and the trade did not reduce the skew.
pub open spec fn margin_order_spec(
    config: VirtualConfig,
    p: PoolState,
    a: AccountState,
    oracle: VirtualOracle,
    now: i64,
    order: MarginOrderView,
) -> Option<Result<OrderOutcome, ExchangeError>> {
    let k = order.pair_id;
    let price = oracle.price_of(k)@;
    if !oracle.has_price(k) {
        None
    } else if !order.price_limit.spec_compare(price) {
        Some(Err(ExchangeError::MarginOrderPriceLimit))
    } else {
        match trade_step(config, p, a, oracle, now, k, order.amount@, order.reduce_only) {
            Some(Ok(t)) => match omul(Some(price), oabs(oadd(Some(t.amount_open), Some(t.amount_close)))) {
                Some(value) => if !order.slippage_limit.computable(value) {
                    None
                } else if !order.slippage_limit.spec_compare(t.fee_paid, value) {
                    Some(Err(ExchangeError::MarginOrderSlippageLimit))
                } else {
                    match fees_referral_step(config.exchange_config, t.pool, t.account, t.fee_paid) {
                        Some((p5, a5, fees)) => match state_skew_ratio(p5) {
                            Some(ratio) => if !(in_range(p5.skew_abs_snap - t.skew_before) && in_range(t.pnl + t.funding)) {
                                None
                            } else if ratio < config.exchange_config.skew_ratio_cap@ || p5.skew_abs_snap - t.skew_before < 0 {
                                Some(
                                    Ok(
                                        OrderOutcome {
                                            pool: p5,
                                            account: with_order_requests(a5, order.activate_requests, order.cancel_requests),
                                            amount_close: t.amount_close,
                                            amount_open: t.amount_open,
                                            pnl: t.pnl + t.funding,
                                            funding: t.funding,
                                            fees,
                                        },
                                    ),
                                )
                            } else {
                                Some(Err(ExchangeError::SkewTooHigh))
                            },
                            None => None,
                        },
                        None => None,
                    }
                },
                None => None,
            },
            Some(Err(e)) => Some(Err(e)),
            None => None,
        }
    }
}

/// What a margin order did, as the exchange reports it.
pub struct MarginOrderResult {
    pub price: Decimal,
    pub amount_close: Decimal,
    pub amount_open: Decimal,
    pub activated_requests: Vec<ListIndex>,
    pub cancelled_requests: Vec<ListIndex>,
    /// The PnL of the closing part plus the funding settled.
    pub pnl: Decimal,
    pub funding: Decimal,
    pub fee_pool: Decimal,
    pub fee_protocol: Decimal,
    pub fee_treasury: Decimal,
    pub fee_referral: Decimal,
}

/// The account after an order's request changes: the requests it names are
/// activated and then cancelled, as far as their statuses allow; each one
/// cancelled no longer counts as active.
pub open spec fn with_order_requests(a: AccountState, activate: Seq<ListIndex>, cancel: Seq<ListIndex>) -> AccountState {
    let r1 = status_applied(a.requests, qualifying(a.requests, activate, STATUS_ACTIVE), STATUS_ACTIVE);
    let cancelled = qualifying(r1, cancel, STATUS_CANCELLED);
    AccountState {
        requests: order_requests(a.requests, activate, cancel),
        pending: a.pending + qualifying(a.requests, activate, STATUS_ACTIVE).to_set() + cancelled.to_set(),
        active_requests_len: (a.active_requests_len - cancelled.len()) as usize,
        active_request_removals: a.active_request_removals + cancelled,
        ..a
    }
}

/// The requests after an order activates `activate` and then cancels `cancel`.
pub open spec fn order_requests(
    reqs: Map<ListIndex, KeeperRequest>,
    activate: Seq<ListIndex>,
    cancel: Seq<ListIndex>,
) -> Map<ListIndex, KeeperRequest> {
    let r1 = status_applied(reqs, qualifying(reqs, activate, STATUS_ACTIVE), STATUS_ACTIVE);
    status_applied(r1, qualifying(r1, cancel, STATUS_CANCELLED), STATUS_CANCELLED)
}

/// Splits an order into the part that closes the position and the part that opens.
pub fn split_order(position: Decimal, amount: Decimal, reduce_only: bool) -> (r: (Decimal, Decimal))
    requires
        split_fits(position@, amount@, reduce_only),
    ensures
        (r.0@, r.1@) == order_split(position@, amount@, reduce_only),
{
    let amount_close = if position.is_positive() && amount.is_negative() {
        amount.max(position.neg())
    } else if position.is_negative() && amount.is_positive() {
        amount.min(position.neg())
    } else {
        Decimal::zero()
    };
    let amount_open = if !reduce_only {
        amount.sub(amount_close)
    } else {
        Decimal::zero()
    };
    (amount_close, amount_open)
}

/// What the trade of a margin order did.
pub struct TradeResult {
    pub skew_before: Decimal,
    pub amount_close: Decimal,
    pub amount_open: Decimal,
    pub pnl: Decimal,
    pub funding: Decimal,
    pub fee_paid: Decimal,
}

/// Closes and then opens the parts of an order (see [`close_step`] and
/// [`open_step`]); hands back the PnL and the fees paid.
fn close_then_open(
    config: &VirtualConfig,
    pool: &mut VirtualLiquidityPool,
    account: &mut VirtualMarginAccount,
    oracle: &VirtualOracle,
    pair_id: &PairId,
    amount_close: Decimal,
    amount_open: Decimal,
) -> (r: Result<(Decimal, Decimal), ExchangeError>)
    requires
        oracle.has_price(pair_id@),
        closes(pos_in(old(account).position_views(), pair_id@).amount, amount_close@),
        amount_close@ != 0 ==> close_step(*config, old(pool).state(), old(account).state(), oracle.price_of(pair_id@)@, pair_id@, amount_close@) is Some,
        amount_close@ != 0 && amount_open@ != 0 ==> pos_in(old(account).position_views(), pair_id@).amount + amount_close@ == 0,
        amount_close@ == 0 ==> extends(pos_in(old(account).position_views(), pair_id@).amount, amount_open@),
        ({
            let closed = if amount_close@ != 0 {
                close_step(*config, old(pool).state(), old(account).state(), oracle.price_of(pair_id@)@, pair_id@, amount_close@)
            } else {
                Some((old(pool).state(), old(account).state(), 0int, 0int))
            };
            let (p3, a3, pnl, fc) = closed.unwrap();
            amount_open@ != 0 ==> (open_step(*config, p3, a3, *oracle, pair_id@, amount_open@) matches Some(o) && (o matches Ok((
                _,
                _,
                fo,
            )) ==> in_range(fc + fo)))
        }),
    ensures
        ({
            let closed = if amount_close@ != 0 {
                close_step(*config, old(pool).state(), old(account).state(), oracle.price_of(pair_id@)@, pair_id@, amount_close@)
            } else {
                Some((old(pool).state(), old(account).state(), 0int, 0int))
            };
            let (p3, a3, pnl, fc) = closed.unwrap();
            let opened = if amount_open@ != 0 {
                open_step(*config, p3, a3, *oracle, pair_id@, amount_open@)
            } else {
                Some(Ok((p3, a3, 0int)))
            };
            match opened.unwrap() {
                Ok((p4, a4, fo)) => r matches Ok(x) && x.0@ == pnl && x.1@ == fc + fo && final(pool).state() == p4
                    && final(account).state() == a4,
                Err(e) => r == Err::<(Decimal, Decimal), ExchangeError>(e),
            }
        }),
        r is Ok ==> final(account).requests() == old(account).requests() && final(account).active_requests_len
            == old(account).active_requests_len && final(account).address == old(account).address,
{
    let ghost a0 = account.state();
    let ghost p0 = pool.state();
    proof {
        use_type_invariant(&account.positions);
        AssocMap::lemma_inv_distinct(account.positions);
        lemma_entry_views_distinct(account.positions.entries());
    }
    let mut pnl = Decimal::zero();
    let mut fee_paid = Decimal::zero();
    if !amount_close.is_zero() {
        let (pnl_close, fee_close) = close_position(config, pool, account, oracle, pair_id, amount_close);
        pnl = pnl_close;
        fee_paid = fee_close;
        proof {
            lemma_close_position_amount(*config, p0, a0, oracle.price_of(pair_id@)@, pair_id@, amount_close@);
        }
    }
    if !amount_open.is_zero() {
        let fee_open = open_position(config, pool, account, oracle, pair_id, amount_open)?;
        fee_paid = fee_paid.add(fee_open);
    }
    Ok((pnl, fee_paid))
}

/// The trade of a margin order at time `now` (see [`trade_step`]). On an error
/// the operation is void and the working copies are to be dropped.
pub fn trade(
    config: &VirtualConfig,
    pool: &mut VirtualLiquidityPool,
    account: &mut VirtualMarginAccount,
    oracle: &VirtualOracle,
    now: i64,
    pair_id: &PairId,
    amount: Decimal,
    reduce_only: bool,
) -> (r: Result<TradeResult, ExchangeError>)
    requires
        oracle.has_price(pair_id@),
        trade_step(*config, old(pool).state(), old(account).state(), *oracle, now, pair_id@, amount@, reduce_only) is Some,
    ensures
        match trade_step(*config, old(pool).state(), old(account).state(), *oracle, now, pair_id@, amount@, reduce_only).unwrap() {
            Ok(t) => r matches Ok(x) && final(pool).state() == t.pool && final(account).state() == t.account
                && x.skew_before@ == t.skew_before && x.amount_close@ == t.amount_close && x.amount_open@ == t.amount_open
                && x.pnl@ == t.pnl && x.funding@ == t.funding && x.fee_paid@ == t.fee_paid,
            Err(e) => r == Err::<TradeResult, ExchangeError>(e),
        },
        r is Ok ==> final(account).requests() == old(account).requests() && final(account).active_requests_len
            == old(account).active_requests_len && final(account).address == old(account).address,
{
    proof {
        use_type_invariant(&account.positions);
        AssocMap::lemma_inv_distinct(account.positions);
        lemma_pos_in(account.positions.entries(), pair_id@);
    }
    update_pair(config, pool, oracle, now, pair_id);
    let funding = settle_funding(pool, account, pair_id);
    proof {
        use_type_invariant(&account.positions);
        AssocMap::lemma_inv_distinct(account.positions);
        lemma_pos_in(account.positions.entries(), pair_id@);
        lemma_entry_views_distinct(account.positions.entries());
    }
    let position_amount = account.position(pair_id).amount;
    let (amount_close, amount_open) = split_order(position_amount, amount, reduce_only);
    let skew_before = pool.skew_abs_snap;
    let (pnl, fee_paid) = close_then_open(config, pool, account, oracle, pair_id, amount_close, amount_open)?;
    Ok(TradeResult { skew_before, amount_close, amount_open, pnl, funding, fee_paid })
}

/// Executes a margin order at time `now` (see [`margin_order_spec`]); on
/// success it also activates and then cancels the requests that the order
/// names, as far as their statuses allow. On an error the operation is void and
/// the working copies are to be dropped.
pub fn margin_order(
    config: &VirtualConfig,
    pool: &mut VirtualLiquidityPool,
    account: &mut VirtualMarginAccount,
    oracle: &VirtualOracle,
    now: i64,
    request: &RequestMarginOrder,
) -> (r: Result<MarginOrderResult, ExchangeError>)
    requires
        margin_order_spec(*config, old(pool).state(), old(account).state(), *oracle, now, request@) is Some,
        forall|i: int| 0 <= i < request.activate_requests@.len() ==> old(account).knows(request.activate_requests@[i]),
        forall|i: int| 0 <= i < request.cancel_requests@.len() ==> old(account).knows(request.cancel_requests@[i]),
        ({
            let reqs = old(account).requests();
            let r1 = status_applied(reqs, qualifying(reqs, request.activate_requests@, STATUS_ACTIVE), STATUS_ACTIVE);
            qualifying(r1, request.cancel_requests@, STATUS_CANCELLED).len() <= old(account).active_requests_len
        }),
    ensures
        match margin_order_spec(*config, old(pool).state(), old(account).state(), *oracle, now, request@).unwrap() {
            Ok(o) => r matches Ok(x) && {
                let reqs = old(account).requests();
                let r1 = status_applied(reqs, qualifying(reqs, request.activate_requests@, STATUS_ACTIVE), STATUS_ACTIVE);
                let cancelled = qualifying(r1, request.cancel_requests@, STATUS_CANCELLED);
                &&& final(pool).state() == o.pool
                &&& final(account).state() == o.account
                &&& x.price == oracle.price_of(request.pair_id@)
                &&& x.amount_close@ == o.amount_close && x.amount_open@ == o.amount_open
                &&& x.pnl@ == o.pnl && x.funding@ == o.funding
                &&& (x.fee_pool@, x.fee_protocol@, x.fee_treasury@, x.fee_referral@) == o.fees
                &&& x.activated_requests@ == qualifying(reqs, request.activate_requests@, STATUS_ACTIVE)
                &&& x.cancelled_requests@ == cancelled
                &&& final(account).requests() == order_requests(reqs, request.activate_requests@, request.cancel_requests@)
                &&& final(account).active_requests_len == old(account).active_requests_len - cancelled.len()
                &&& final(account).address == old(account).address
            },
            Err(e) => r == Err::<MarginOrderResult, ExchangeError>(e),
        },
{
    let pair_id = &request.pair_id;
    let price = oracle.price(pair_id);
    if !request.price_limit.compare(price) {
        return Err(ExchangeError::MarginOrderPriceLimit);
    }
    let t = trade(config, pool, account, oracle, now, pair_id, request.amount, request.reduce_only)?;
    let trade_value = price.mul(t.amount_open.add(t.amount_close).abs());
    if !request.slippage_limit.compare(t.fee_paid, trade_value) {
        return Err(ExchangeError::MarginOrderSlippageLimit);
    }
    let (fee_pool, fee_protocol, fee_treasury, fee_referral) = settle_fees_referral(config, pool, account, t.fee_paid);
    let activated_requests = account.try_set_keeper_requests_status(&request.activate_requests, STATUS_ACTIVE);
    let cancelled_requests = account.try_set_keeper_requests_status(&request.cancel_requests, STATUS_CANCELLED);
    let skew_after = pool.skew_abs_snap;
    assert_pool_integrity(config, pool, skew_after.sub(t.skew_before))?;
    Ok(MarginOrderResult {
        price,
        amount_close: t.amount_close,
        amount_open: t.amount_open,
        activated_requests,
        cancelled_requests,
        pnl: t.pnl.add(t.funding),
        funding: t.funding,
        fee_pool,
        fee_protocol,
        fee_treasury,
        fee_referral,
    })
}

} // verus!

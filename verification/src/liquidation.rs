use vstd::prelude::*;
use crate::account::{
    AccountPositionView, VirtualMarginAccount, coll_views, lemma_pos_in_insert, view_has, views_distinct, deposit_entries, deposit_total, lemma_coll_views_key,
    lemma_pos_in, pos_in, referral_view, view_keys, view_pairs,
    zeroed,
};
use crate::common::{ExchangeError, PairId, ResourceAddress};
use crate::config::{ExchangeConfig, VirtualConfig};
use crate::decimal::{Decimal, abs, in_range, oabs, oadd, odiv, omul, oneg, osub, place_unit, round_up_to, scale};
use crate::exchange::{
    assert_account_integrity, calculate_fee, collateral_priced, collaterals_value_spec, fee_spec, fees_referral_step, is_collateral, pair_step,
    funding_step, position_funding, settle_account, settle_fees_referral, settle_funding, settle_step, skew_ratio,
    snaps_step, state_skew_ratio, update_pair, update_pair_snaps,
};
use crate::map::{MapKey, has_key, key_pos, keys_distinct};
use crate::oracle::VirtualOracle;
use crate::pool::{PoolPosition, PoolPositionView, VirtualLiquidityPool};
use crate::state::{AccountState, PoolState};
use crate::trade::{close_position, close_step, rebate_fits, rebate_view, state_health};

verus! {

/// The views of a list of pairs.
pub open spec fn pair_views(pair_ids: Seq<PairId>) -> Seq<Seq<char>> {
    pair_ids.map_values(|k: PairId| k@)
}

/// The pool after updating each listed pair in turn at the oracle's prices and
/// time `now` (see [`pair_step`]), with whether each update earns a keeper reward.
pub open spec fn pairs_step(config: VirtualConfig, p: PoolState, oracle: VirtualOracle, now: i64, keys: Seq<Seq<char>>) -> Option<
    (PoolState, Seq<bool>),
>
    decreases keys.len(),
{
    if keys.len() == 0 {
        Some((p, Seq::empty()))
    } else {
        match pairs_step(config, p, oracle, now, keys.drop_last()) {
            Some((q, rewarded)) => if oracle.has_price(keys.last()) {
                match pair_step(config, q, oracle.price_of(keys.last())@, now, keys.last()) {
                    Some((r, b)) => Some((r, rewarded.push(b))),
                    None => None,
                }
            } else {
                None
            },
            None => None,
        }
    }
}

/// Updating a list of pairs goes through updating each prefix of it.
pub proof fn lemma_pairs_step_prefix(config: VirtualConfig, p: PoolState, oracle: VirtualOracle, now: i64, keys: Seq<Seq<char>>, n: int)
    requires
        0 <= n <= keys.len(),
        pairs_step(config, p, oracle, now, keys) is Some,
    ensures
        pairs_step(config, p, oracle, now, keys.subrange(0, n)) is Some,
    decreases keys.len() - n,
{
    if n < keys.len() {
        lemma_pairs_step_prefix(config, p, oracle, now, keys, n + 1);
        assert(keys.subrange(0, n + 1).drop_last() =~= keys.subrange(0, n));
    } else {
        assert(keys.subrange(0, n) =~= keys);
    }
}

/// Updates each listed pair in turn (see [`pairs_step`]); hands back whether
/// each update earns a keeper reward.
pub fn update_pairs_in_turn(
    config: &VirtualConfig,
    pool: &mut VirtualLiquidityPool,
    oracle: &VirtualOracle,
    now: i64,
    pair_ids: &Vec<PairId>,
) -> (r: Vec<bool>)
    requires
        pairs_step(*config, old(pool).state(), *oracle, now, pair_views(pair_ids@)) is Some,
    ensures
        pairs_step(*config, old(pool).state(), *oracle, now, pair_views(pair_ids@)) == Some((final(pool).state(), r@)),
{
    let ghost p0 = pool.state();
    let ghost keys = pair_views(pair_ids@);
    let mut rewarded: Vec<bool> = Vec::new();
    let mut i: usize = 0;
    assert(keys.subrange(0, 0) =~= Seq::<Seq<char>>::empty());
    while i < pair_ids.len()
        invariant
            i <= pair_ids@.len(),
            keys == pair_views(pair_ids@),
            pairs_step(*config, p0, *oracle, now, keys) is Some,
            pairs_step(*config, p0, *oracle, now, keys.subrange(0, i as int)) == Some((pool.state(), rewarded@)),
        decreases pair_ids@.len() - i,
    {
        let pair_id = &pair_ids[i];
        proof {
            lemma_pairs_step_prefix(*config, p0, *oracle, now, keys, i as int + 1);
            assert(keys.subrange(0, i as int + 1).drop_last() =~= keys.subrange(0, i as int));
            assert(keys.subrange(0, i as int + 1).last() == pair_id@);
        }
        let b = update_pair(config, pool, oracle, now, pair_id);
        rewarded.push(b);
        i = i + 1;
    }
    assert(keys.subrange(0, pair_ids@.len() as int) =~= keys);
    rewarded
}

/// The pairs of a list, each once, in the order of their first occurrence.
pub open spec fn distinct_ids(keys: Seq<Seq<char>>) -> Seq<Seq<char>>
    decreases keys.len(),
{
    if keys.len() == 0 {
        Seq::empty()
    } else {
        let d = distinct_ids(keys.drop_last());
        if d.contains(keys.last()) {
            d
        } else {
            d.push(keys.last())
        }
    }
}

/// The pairs of a prefix of a list, each once, come first among the pairs of
/// the whole list.
pub proof fn lemma_distinct_ids_prefix(keys: Seq<Seq<char>>, n: int)
    requires
        0 <= n <= keys.len(),
    ensures
        distinct_ids(keys.subrange(0, n)).is_prefix_of(distinct_ids(keys)),
    decreases keys.len() - n,
{
    if n < keys.len() {
        lemma_distinct_ids_prefix(keys, n + 1);
        assert(keys.subrange(0, n + 1).drop_last() =~= keys.subrange(0, n));
        let a = distinct_ids(keys.subrange(0, n));
        let b = distinct_ids(keys.subrange(0, n + 1));
        let c = distinct_ids(keys);
        assert(a =~= c.subrange(0, a.len() as int)) by {
            assert(a =~= b.subrange(0, a.len() as int));
            assert(b =~= c.subrange(0, b.len() as int));
        }
    } else {
        assert(keys.subrange(0, n) =~= keys);
    }
}

/// Updating a list of pairs hands back one flag per pair.
pub proof fn lemma_pairs_step_len(config: VirtualConfig, p: PoolState, oracle: VirtualOracle, now: i64, keys: Seq<Seq<char>>)
    ensures
        pairs_step(config, p, oracle, now, keys) matches Some((_, rewarded)) ==> rewarded.len() == keys.len(),
    decreases keys.len(),
{
    if keys.len() > 0 {
        lemma_pairs_step_len(config, p, oracle, now, keys.drop_last());
    }
}

/// Whether `id` is among `ids`.
fn contains_id(ids: &Vec<PairId>, id: &PairId) -> (r: bool)
    ensures
        r == pair_views(ids@).contains(id@),
{
    let ghost keys = pair_views(ids@);
    let mut i: usize = 0;
    while i < ids.len()
        invariant
            i <= ids@.len(),
            keys == pair_views(ids@),
            forall|j: int| 0 <= j < i ==> keys[j] != id@,
        decreases ids@.len() - i,
    {
        if ids[i].key_eq(id) {
            assert(keys[i as int] == id@);
            return true;
        }
        i = i + 1;
    }
    assert(!keys.contains(id@));
    false
}

/// The pairs of a list, each once, in the order of their first occurrence.
pub fn distinct_pair_ids(pair_ids: &Vec<PairId>) -> (r: Vec<PairId>)
    ensures
        pair_views(r@) == distinct_ids(pair_views(pair_ids@)),
{
    let ghost keys = pair_views(pair_ids@);
    let mut out: Vec<PairId> = Vec::new();
    let mut i: usize = 0;
    assert(keys.subrange(0, 0) =~= Seq::<Seq<char>>::empty());
    assert(pair_views(out@) =~= Seq::<Seq<char>>::empty());
    while i < pair_ids.len()
        invariant
            i <= pair_ids@.len(),
            keys == pair_views(pair_ids@),
            pair_views(out@) == distinct_ids(keys.subrange(0, i as int)),
        decreases pair_ids@.len() - i,
    {
        let id = &pair_ids[i];
        proof {
            assert(keys.subrange(0, i as int + 1).drop_last() =~= keys.subrange(0, i as int));
            assert(keys.subrange(0, i as int + 1).last() == id@);
        }
        if !contains_id(&out, id) {
            let ghost before = out@;
            out.push(id.key_clone());
            assert(pair_views(out@) =~= pair_views(before).push(id@));
        }
        i = i + 1;
    }
    assert(keys.subrange(0, pair_ids@.len() as int) =~= keys);
    out
}

/// Updates each listed pair once, in the order of its first occurrence (see
/// [`distinct_ids`] and [`pairs_step`]); hands back, for each of those pairs,
/// whether its update earns a keeper reward.
pub fn update_pairs(
    config: &VirtualConfig,
    pool: &mut VirtualLiquidityPool,
    oracle: &VirtualOracle,
    now: i64,
    pair_ids: &Vec<PairId>,
) -> (r: Vec<bool>)
    requires
        pairs_step(*config, old(pool).state(), *oracle, now, distinct_ids(pair_views(pair_ids@))) is Some,
    ensures
        pairs_step(*config, old(pool).state(), *oracle, now, distinct_ids(pair_views(pair_ids@))) == Some((final(pool).state(), r@)),
        r@.len() == distinct_ids(pair_views(pair_ids@)).len(),
{
    let ids = distinct_pair_ids(pair_ids);
    proof {
        lemma_pairs_step_len(*config, pool.state(), *oracle, now, pair_views(ids@));
    }
    update_pairs_in_turn(config, pool, oracle, now, &ids)
}

/// How many of the updates earn a keeper reward.
pub open spec fn rewards_count(rewarded: Seq<bool>) -> nat
    decreases rewarded.len(),
{
    if rewarded.len() == 0 {
        0
    } else {
        rewards_count(rewarded.drop_last()) + if rewarded.last() {
            1nat
        } else {
            0nat
        }
    }
}

/// Counts the updates that earn a keeper reward.
pub fn count_rewards(rewarded: &Vec<bool>) -> (r: u64)
    requires
        rewarded@.len() <= u64::MAX,
    ensures
        r == rewards_count(rewarded@),
{
    let mut n: u64 = 0;
    let mut i: usize = 0;
    while i < rewarded.len()
        invariant
            i <= rewarded@.len(),
            rewarded@.len() <= u64::MAX,
            n == rewards_count(rewarded@.subrange(0, i as int)),
            n <= i,
        decreases rewarded@.len() - i,
    {
        assert(rewarded@.subrange(0, i as int + 1).drop_last() =~= rewarded@.subrange(0, i as int));
        if rewarded[i] {
            n = n + 1;
        }
        i = i + 1;
    }
    assert(rewarded@.subrange(0, rewarded@.len() as int) =~= rewarded@);
    n
}

/// The pool after re-taking the snapshots of each listed pair in turn.
pub open spec fn snaps_chain(p: PoolState, oracle: VirtualOracle, keys: Seq<Seq<char>>) -> Option<PoolState>
    decreases keys.len(),
{
    if keys.len() == 0 {
        Some(p)
    } else {
        match snaps_chain(p, oracle, keys.drop_last()) {
            Some(q) => if oracle.has_price(keys.last()) {
                snaps_step(q, keys.last(), oracle.price_of(keys.last())@)
            } else {
                None
            },
            None => None,
        }
    }
}

pub proof fn lemma_snaps_chain_prefix(p: PoolState, oracle: VirtualOracle, keys: Seq<Seq<char>>, n: int)
    requires
        0 <= n <= keys.len(),
        snaps_chain(p, oracle, keys) is Some,
    ensures
        snaps_chain(p, oracle, keys.subrange(0, n)) is Some,
    decreases keys.len() - n,
{
    if n < keys.len() {
        lemma_snaps_chain_prefix(p, oracle, keys, n + 1);
        assert(keys.subrange(0, n + 1).drop_last() =~= keys.subrange(0, n));
    } else {
        assert(keys.subrange(0, n) =~= keys);
    }
}

/// Re-takes the snapshots of each listed pair in turn (see [`snaps_chain`]).
pub fn update_pairs_snaps(pool: &mut VirtualLiquidityPool, oracle: &VirtualOracle, pair_ids: &Vec<PairId>)
    requires
        snaps_chain(old(pool).state(), *oracle, pair_views(pair_ids@)) is Some,
    ensures
        snaps_chain(old(pool).state(), *oracle, pair_views(pair_ids@)) == Some(final(pool).state()),
{
    let ghost p0 = pool.state();
    let ghost keys = pair_views(pair_ids@);
    let mut i: usize = 0;
    assert(keys.subrange(0, 0) =~= Seq::<Seq<char>>::empty());
    while i < pair_ids.len()
        invariant
            i <= pair_ids@.len(),
            keys == pair_views(pair_ids@),
            snaps_chain(p0, *oracle, keys) is Some,
            snaps_chain(p0, *oracle, keys.subrange(0, i as int)) == Some(pool.state()),
        decreases pair_ids@.len() - i,
    {
        let pair_id = &pair_ids[i];
        proof {
            lemma_snaps_chain_prefix(p0, *oracle, keys, i as int + 1);
            assert(keys.subrange(0, i as int + 1).drop_last() =~= keys.subrange(0, i as int));
            assert(keys.subrange(0, i as int + 1).last() == pair_id@);
        }
        update_pair_snaps(pool, oracle, pair_id);
        i = i + 1;
    }
    assert(keys.subrange(0, pair_ids@.len() as int) =~= keys);
}

/// Closing one position by liquidation at the oracle's price: the pool
/// position without the position's open interest and cost, and the PnL, the
/// maintenance margin, the funding owed and the fee.
pub open spec fn liq_position_spec(
    config: VirtualConfig,
    p: PoolState,
    oracle: VirtualOracle,
    rebate: int,
    k: Seq<char>,
    pos: AccountPositionView,
) -> Option<(PoolPositionView, int, int, int, int)> {
    let pc = config.pair_of(k);
    let pp = p.views[k];
    let price = oracle.price_of(k)@;
    match omul(oneg(Some(pos.amount)), Some(price)) {
        Some(value) => {
            let fee = fee_spec(config.exchange_config, pc, pp.oi_long, pp.oi_short, rebate, price, value);
            let oi = if pos.amount > 0 {
                osub(Some(pp.oi_long), Some(pos.amount))
            } else {
                oadd(Some(pp.oi_short), Some(pos.amount))
            };
            let funding = position_funding(pos, pp);
            let pnl = osub(osub(osub(oneg(Some(value)), Some(pos.cost)), fee), funding);
            let margin = omul(oabs(Some(value)), Some(pc.margin_maintenance@));
            match (fee, oi, funding, osub(Some(pp.cost), Some(pos.cost)), pnl, margin) {
                (Some(fe), Some(o), Some(f), Some(c), Some(pn), Some(m)) => if p.views.dom().contains(k)
                    && config.has_pair(k) && oracle.has_price(k) {
                    let npp = if pos.amount > 0 {
                        PoolPositionView { oi_long: o, cost: c, ..pp }
                    } else {
                        PoolPositionView { oi_short: o, cost: c, ..pp }
                    };
                    Some((npp, pn, m, f, fe))
                } else {
                    None
                },
                _ => None,
            }
        },
        None => None,
    }
}

/// Liquidating each listed position in turn: the pool with their open interest
/// and cost removed, and the totals of PnL, maintenance margin, funding and fees.
pub open spec fn liq_positions_spec(
    config: VirtualConfig,
    p: PoolState,
    oracle: VirtualOracle,
    rebate: int,
    entries: Seq<(Seq<char>, AccountPositionView)>,
) -> Option<(PoolState, (int, int, int, int))>
    decreases entries.len(),
{
    if entries.len() == 0 {
        Some((p, (0, 0, 0, 0)))
    } else {
        match liq_positions_spec(config, p, oracle, rebate, entries.drop_last()) {
            Some((q, (tp, tm, tf, te))) => {
                let k = entries.last().0;
                match liq_position_spec(config, q, oracle, rebate, k, entries.last().1) {
                    Some((npp, pn, m, f, fe)) => if in_range(tp + pn) && in_range(tm + m) && in_range(tf + f) && in_range(
                        te + fe,
                    ) {
                        Some(
                            (
                                PoolState { views: q.views.insert(k, npp), updated: q.updated.insert(k), ..q },
                                (tp + pn, tm + m, tf + f, te + fe),
                            ),
                        )
                    } else {
                        None
                    },
                    None => None,
                }
            },
            None => None,
        }
    }
}

pub proof fn lemma_liq_positions_prefix(
    config: VirtualConfig,
    p: PoolState,
    oracle: VirtualOracle,
    rebate: int,
    entries: Seq<(Seq<char>, AccountPositionView)>,
    n: int,
)
    requires
        0 <= n <= entries.len(),
        liq_positions_spec(config, p, oracle, rebate, entries) is Some,
    ensures
        liq_positions_spec(config, p, oracle, rebate, entries.subrange(0, n)) is Some,
    decreases entries.len() - n,
{
    if n < entries.len() {
        lemma_liq_positions_prefix(config, p, oracle, rebate, entries, n + 1);
        assert(entries.subrange(0, n + 1).drop_last() =~= entries.subrange(0, n));
    } else {
        assert(entries.subrange(0, n) =~= entries);
    }
}

/// What liquidating an account's positions did.
pub struct LiqPositions {
    pub pool: PoolState,
    pub account: AccountState,
    pub pnl: int,
    pub margin: int,
    /// The funding settled, negated.
    pub funding_paid: int,
    pub fee_paid: int,
}

/// Liquidating all of an account's positions at time `now`: every pair of the
/// account is updated, each position is closed at the oracle's price (see
/// [`liq_position_spec`]), the funding owed leaves the pool's unrealized
/// funding, the pairs' snapshots are re-taken, and the account's positions are
/// emptied.
pub open spec fn liquidate_positions_spec(
    config: VirtualConfig,
    p: PoolState,
    a: AccountState,
    oracle: VirtualOracle,
    now: i64,
) -> Option<LiqPositions> {
    let keys = view_pairs(a.positions);
    match pairs_step(config, p, oracle, now, keys) {
        Some((p1, _)) => match liq_positions_spec(config, p1, oracle, rebate_view(a.referral), a.positions) {
            Some((p2, (pnl, margin, funding, fee))) => if rebate_fits(a.referral) && in_range(-funding) && in_range(
                p2.unrealized_pool_funding - funding,
            ) {
                match snaps_chain(PoolState { unrealized_pool_funding: p2.unrealized_pool_funding - funding, ..p2 }, oracle, keys) {
                    Some(p3) => Some(
                        LiqPositions {
                            pool: p3,
                            account: AccountState {
                                positions: zeroed(a.positions),
                                updated: a.updated.union(view_keys(a.positions)),
                                ..a
                            },
                            pnl,
                            margin,
                            funding_paid: -funding,
                            fee_paid: fee,
                        },
                    ),
                    None => None,
                }
            } else {
                None
            },
            None => None,
        },
        None => None,
    }
}

/// What liquidating an account's positions did, as the exchange reports it.
pub struct LiquidatePositionsResult {
    pub pnl: Decimal,
    pub margin_positions: Decimal,
    pub funding_paid: Decimal,
    pub fee_paid: Decimal,
    /// The size of each position closed.
    pub position_amounts: Vec<(PairId, Decimal)>,
    /// The price at which each position was closed.
    pub position_prices: Vec<(PairId, Decimal)>,
}

/// Liquidates all of the account's positions at time `now` (see
/// [`liquidate_positions_spec`]).
#[verifier::rlimit(30)]
pub fn liquidate_positions(
    config: &VirtualConfig,
    pool: &mut VirtualLiquidityPool,
    account: &mut VirtualMarginAccount,
    oracle: &VirtualOracle,
    now: i64,
) -> (r: LiquidatePositionsResult)
    requires
        liquidate_positions_spec(*config, old(pool).state(), old(account).state(), *oracle, now) is Some,
    ensures
        ({
            let o = liquidate_positions_spec(*config, old(pool).state(), old(account).state(), *oracle, now).unwrap();
            let views = old(account).position_views();
            &&& final(pool).state() == o.pool
            &&& final(account).state() == o.account
            &&& r.pnl@ == o.pnl && r.margin_positions@ == o.margin
            &&& r.funding_paid@ == o.funding_paid && r.fee_paid@ == o.fee_paid
            &&& r.position_amounts@.len() == views.len() && r.position_prices@.len() == views.len()
            &&& forall|i: int| 0 <= i < views.len() ==> (#[trigger] r.position_amounts@[i]).0@ == views[i].0
                && r.position_amounts@[i].1@ == views[i].1.amount
            &&& forall|i: int| 0 <= i < views.len() ==> (#[trigger] r.position_prices@[i]).0@ == views[i].0
                && r.position_prices@[i].1 == oracle.price_of(views[i].0)
        }),
        final(account).requests() == old(account).requests(),
        final(account).active_requests_len == old(account).active_requests_len,
        final(account).address == old(account).address,
        final(account).requests_len == old(account).requests_len,
        final(account).valid_requests_start == old(account).valid_requests_start,
{
    let ghost views = account.position_views();
    let fee_rebate = account.fee_rebate();
    let pair_ids = account.position_ids();
    assert(pair_views(pair_ids@) =~= view_pairs(views));
    update_pairs_in_turn(config, pool, oracle, now, &pair_ids);
    let ghost p1 = pool.state();
    let mut total_pnl = Decimal::zero();
    let mut total_margin = Decimal::zero();
    let mut total_funding = Decimal::zero();
    let mut total_fee_paid = Decimal::zero();
    let mut position_amounts: Vec<(PairId, Decimal)> = Vec::new();
    let mut position_prices: Vec<(PairId, Decimal)> = Vec::new();
    let mut i: usize = 0;
    assert(views.subrange(0, 0) =~= Seq::<(Seq<char>, AccountPositionView)>::empty());
    while i < account.positions.len()
        invariant
            i <= views.len(),
            views == account.position_views(),
            fee_rebate@ == rebate_view(referral_view(account.referral)),
            liq_positions_spec(*config, p1, *oracle, fee_rebate@, views) is Some,
            liq_positions_spec(*config, p1, *oracle, fee_rebate@, views.subrange(0, i as int)) == Some(
                (pool.state(), (total_pnl@, total_margin@, total_funding@, total_fee_paid@)),
            ),
            position_amounts@.len() == i && position_prices@.len() == i,
            forall|j: int| 0 <= j < i ==> (#[trigger] position_amounts@[j]).0@ == views[j].0
                && position_amounts@[j].1@ == views[j].1.amount,
            forall|j: int| 0 <= j < i ==> (#[trigger] position_prices@[j]).0@ == views[j].0
                && position_prices@[j].1 == oracle.price_of(views[j].0),
        decreases views.len() - i,
    {
        let pair_id = account.positions.key_at(i);
        let position = *account.positions.value_at(i);
        proof {
            lemma_liq_positions_prefix(*config, p1, *oracle, fee_rebate@, views, i as int + 1);
            assert(views.subrange(0, i as int + 1).drop_last() =~= views.subrange(0, i as int));
            assert(views[i as int] == (pair_id@, position@));
        }
        let pair_config = config.pair_config(pair_id);
        let price = oracle.price(pair_id);
        let amount = position.amount;
        let value = amount.neg().mul(price);
        let value_abs = value.abs();
        let pool_position = pool.position(pair_id);
        let fee = calculate_fee(&config.exchange_config, pair_config, &pool_position, fee_rebate, price, value);
        let cost = position.cost;
        let (oi, funding) = if amount.is_positive() {
            (pool_position.oi_long.sub(amount), amount.mul(pool_position.funding_long_index.sub(position.funding_index)))
        } else {
            (pool_position.oi_short.add(amount), amount.neg().mul(pool_position.funding_short_index.sub(position.funding_index)))
        };
        let pool_cost = pool_position.cost.sub(cost);
        let updated = if amount.is_positive() {
            PoolPosition { oi_long: oi, cost: pool_cost, ..pool_position }
        } else {
            PoolPosition { oi_short: oi, cost: pool_cost, ..pool_position }
        };
        let pnl = value.neg().sub(cost).sub(fee).sub(funding);
        let margin = value_abs.mul(pair_config.margin_maintenance);
        let ghost pv = pool.views();
        pool.set_position(pair_id, updated);
        assert(pool.views() =~= pv.insert(pair_id@, updated@));
        total_funding = total_funding.add(funding);
        total_pnl = total_pnl.add(pnl);
        total_margin = total_margin.add(margin);
        total_fee_paid = total_fee_paid.add(fee);
        position_amounts.push((pair_id.key_clone(), amount));
        position_prices.push((pair_id.key_clone(), price));
        i = i + 1;
    }
    assert(views.subrange(0, views.len() as int) =~= views);
    pool.add_unrealized_pool_funding(total_funding.neg());
    update_pairs_snaps(pool, oracle, &pair_ids);
    proof {
        use_type_invariant(&account.positions);
        crate::map::AssocMap::lemma_inv_distinct(account.positions);
        lemma_pos_in(account.positions.entries(), Seq::empty());
    }
    account.clear_positions();
    LiquidatePositionsResult {
        pnl: total_pnl,
        margin_positions: total_margin,
        funding_paid: total_funding.neg(),
        fee_paid: total_fee_paid,
        position_amounts,
        position_prices,
    }
}

/// The balances that count as collateral, in order.
pub open spec fn collateral_claims(config: VirtualConfig, entries: Seq<(ResourceAddress, int)>) -> Seq<(ResourceAddress, int)>
    decreases entries.len(),
{
    if entries.len() == 0 {
        Seq::empty()
    } else {
        let rest = collateral_claims(config, entries.drop_last());
        if is_collateral(config, entries.last().0) {
            rest.push(entries.last())
        } else {
            rest
        }
    }
}

/// What liquidating an account's collateral counts, as the exchange reports it.
pub struct LiquidateCollateralResult {
    pub collateral_value: Decimal,
    pub collateral_value_discounted: Decimal,
    pub margin_collateral: Decimal,
    /// The balance of each resource that counts as collateral.
    pub collateral_amounts: Vec<(ResourceAddress, Decimal)>,
    /// The price of each of those resources.
    pub collateral_prices: Vec<(ResourceAddress, Decimal)>,
}

/// The value, discounted value and margin of the account's collateral, and the
/// balances that count as collateral, with their prices.
pub fn liquidate_collateral(config: &VirtualConfig, account: &VirtualMarginAccount, oracle: &VirtualOracle) -> (r:
    LiquidateCollateralResult)
    requires
        collateral_priced(*config, *oracle, coll_views(account.collateral_balances.entries())),
        collaterals_value_spec(*config, *oracle, coll_views(account.collateral_balances.entries()), true) is Some,
    ensures
        ({
            let (v, d, m) = collaterals_value_spec(*config, *oracle, coll_views(account.collateral_balances.entries()), true).unwrap();
            &&& r.collateral_value@ == v && r.collateral_value_discounted@ == d && r.margin_collateral@ == m
        }),
        coll_views(r.collateral_amounts@) == collateral_claims(*config, coll_views(account.collateral_balances.entries())),
        r.collateral_prices@.len() == r.collateral_amounts@.len(),
        forall|i: int| 0 <= i < r.collateral_prices@.len() ==> (#[trigger] r.collateral_prices@[i]).0 == r.collateral_amounts@[i].0
            && r.collateral_prices@[i].1 == oracle.resource_price_of(r.collateral_amounts@[i].0),
{
    let ghost entries = coll_views(account.collateral_balances.entries());
    let mut total_value = Decimal::zero();
    let mut total_value_discounted = Decimal::zero();
    let mut total_margin = Decimal::zero();
    let mut collateral_amounts: Vec<(ResourceAddress, Decimal)> = Vec::new();
    let mut collateral_prices: Vec<(ResourceAddress, Decimal)> = Vec::new();
    let mut i: usize = 0;
    assert(entries.subrange(0, 0) =~= Seq::<(ResourceAddress, int)>::empty());
    assert(coll_views(collateral_amounts@) =~= Seq::<(ResourceAddress, int)>::empty());
    while i < account.collateral_balances.len()
        invariant
            i <= entries.len(),
            entries == coll_views(account.collateral_balances.entries()),
            collateral_priced(*config, *oracle, entries),
            collaterals_value_spec(*config, *oracle, entries, true) is Some,
            collaterals_value_spec(*config, *oracle, entries.subrange(0, i as int), true) == Some(
                (total_value@, total_value_discounted@, total_margin@),
            ),
            coll_views(collateral_amounts@) == collateral_claims(*config, entries.subrange(0, i as int)),
            collateral_prices@.len() == collateral_amounts@.len(),
            forall|j: int| 0 <= j < collateral_prices@.len() ==> (#[trigger] collateral_prices@[j]).0 == collateral_amounts@[j].0
                && collateral_prices@[j].1 == oracle.resource_price_of(collateral_amounts@[j].0),
        decreases entries.len() - i,
    {
        let resource = *account.collateral_balances.key_at(i);
        let amount = *account.collateral_balances.value_at(i);
        proof {
            assert(entries.subrange(0, i as int + 1).drop_last() =~= entries.subrange(0, i as int));
            assert(entries[i as int] == (resource, amount@));
            crate::exchange::lemma_collaterals_value_prefix(*config, *oracle, entries, i as int + 1, true);
        }
        match config.collateral_configs.get(&resource) {
            Some(collateral_config) => {
                proof {
                    assert(is_collateral(*config, entries[i as int].0));
                }
                let price_resource = oracle.price_resource(&resource);
                let value = amount.mul(price_resource);
                let value_discounted = value.mul(collateral_config.discount);
                let margin = value.mul(collateral_config.margin);
                total_value = total_value.add(value);
                total_value_discounted = total_value_discounted.add(value_discounted);
                total_margin = total_margin.add(margin);
                let ghost ca = collateral_amounts@;
                collateral_amounts.push((resource, amount));
                collateral_prices.push((resource, price_resource));
                assert(coll_views(collateral_amounts@) =~= coll_views(ca).push((resource, amount@)));
            },
            None => {},
        }
        i = i + 1;
    }
    assert(entries.subrange(0, entries.len() as int) =~= entries);
    LiquidateCollateralResult {
        collateral_value: total_value,
        collateral_value_discounted: total_value_discounted,
        margin_collateral: total_margin,
        collateral_amounts,
        collateral_prices,
    }
}

/// What a liquidation did.
pub struct LiqOutcome {
    pub pool: PoolState,
    pub account: AccountState,
    /// The account's value and margin requirement when it was liquidated.
    pub account_value: int,
    pub margin: int,
    /// The loss that the pool absorbed (the account's debt written off), not positive.
    pub pool_loss: int,
    /// The fee's parts, negated: pool, protocol, treasury, referrer.
    pub fees: (int, int, int, int),
    /// What the liquidator paid for the collateral.
    pub payment_value: int,
}

/// Settles what a liquidation realized (`settlement`) into the account, writes
/// off the debt that remains (the pool takes it as a loss) and splits the fees.
pub open spec fn liq_settle(config: VirtualConfig, p: PoolState, a: AccountState, settlement: int, fee_paid: int) -> Option<
    (PoolState, AccountState, int, (int, int, int, int)),
> {
    match settle_step(p, a, settlement) {
        Some((p2, a2)) => {
            let written = if a2.virtual_balance < 0 {
                if !in_range(-a2.virtual_balance) {
                    None
                } else {
                match settle_step(p2, a2, -a2.virtual_balance) {
                    Some((p3, a3)) => Some((p3, a3, a2.virtual_balance)),
                    None => None,
                }
                }
            } else {
                Some((p2, a2, 0int))
            };
            match written {
                Some((p3, a3, loss)) => match fees_referral_step(config.exchange_config, p3, a3, fee_paid) {
                    Some((p4, a4, fees)) => Some((p4, a4, loss, fees)),
                    None => None,
                },
                None => None,
            }
        },
        None => None,
    }
}

/// The value and margin of an account being liquidated, from its positions'
/// liquidation and its collateral's totals.
pub open spec fn liq_health(lp: LiqPositions, a: AccountState, collateral: (int, int, int)) -> Option<(int, int)> {
    let (_, d, m) = collateral;
    match (oadd(oadd(Some(lp.pnl), Some(d)), Some(a.virtual_balance)), oadd(Some(lp.margin), Some(m))) {
        (Some(v), Some(mm)) => Some((v, mm)),
        _ => None,
    }
}

/// The checks of a liquidation at time `now`: the positions are liquidated
/// (see [`liquidate_positions_spec`]) and the collateral counted; refused when
/// the account's value covers its maintenance margin. Hands back the positions'
/// liquidation, the collateral's totals and the account's value and margin.
pub open spec fn liq_check_spec(config: VirtualConfig, p: PoolState, a: AccountState, oracle: VirtualOracle, now: i64) -> Option<
    Result<(LiqPositions, (int, int, int), (int, int)), ExchangeError>,
> {
    match (liquidate_positions_spec(config, p, a, oracle, now), collaterals_value_spec(config, oracle, a.collaterals, true)) {
        (Some(lp), Some(c)) => match liq_health(lp, a, c) {
            Some((value, margin)) => if !collateral_priced(config, oracle, a.collaterals) {
                None
            } else if value >= margin {
                Some(Err(ExchangeError::LiquidationSufficientMargin))
            } else {
                Some(Ok((lp, c, (value, margin))))
            },
            None => None,
        },
        _ => None,
    }
}

/// A liquidation at time `now` paid with `payment` tokens of `payment_resource`,
/// refused unless that is the base resource, whose tokens have `places` decimal
/// places: after the checks (see [`liq_check_spec`]) it is refused when the
/// payment is less than the discounted collateral value (rounded up to the base
/// resource's places). The liquidator takes all of the account's collateral
/// balances; the part of the payment that covers that value goes to the pool; the positions' PnL and the payment
/// settle into the account, whose remaining debt the pool writes off (see
/// [`liq_settle`]); the fees are split.
pub open spec fn liquidate_spec(
    config: VirtualConfig,
    p: PoolState,
    a: AccountState,
    oracle: VirtualOracle,
    now: i64,
    payment_resource: ResourceAddress,
    base_resource: ResourceAddress,
    payment: int,
    places: u8,
) -> Option<Result<LiqOutcome, ExchangeError>> {
    if payment_resource != base_resource {
        Some(Err(ExchangeError::InvalidPaymentToken))
    } else {
    match liq_check_spec(config, p, a, oracle, now) {
        Some(Ok((lp, c, (value, margin)))) => {
            let v = round_up_to(c.1, place_unit(places));
            if !(places <= 18 && in_range(v) && in_range(payment - v) && in_range(lp.pool.base + v) && in_range(lp.pnl + v)) {
                None
            } else if payment < v {
                Some(Err(ExchangeError::InsufficientPayment))
            } else {
                let a1 = AccountState { collaterals: Seq::empty(), ..lp.account };
                let p1 = PoolState { base: lp.pool.base + v, ..lp.pool };
                match liq_settle(config, p1, a1, lp.pnl + v, lp.fee_paid) {
                    Some((p2, a2, loss, fees)) => Some(
                        Ok(
                            LiqOutcome {
                                pool: p2,
                                account: AccountState { valid_requests_start: a2.requests_len, ..a2 },
                                account_value: value,
                                margin,
                                pool_loss: loss,
                                fees,
                                payment_value: v,
                            },
                        ),
                    ),
                    None => None,
                }
            }
        },
        Some(Err(e)) => Some(Err(e)),
        None => None,
    }
    }
}

/// What a liquidation did, as the exchange reports it.
pub struct LiquidateResult {
    pub positions: LiquidatePositionsResult,
    pub collateral: LiquidateCollateralResult,
    pub account_value: Decimal,
    pub margin: Decimal,
    /// The account's virtual balance before the liquidation.
    pub virtual_balance: Decimal,
    pub fee_pool: Decimal,
    pub fee_protocol: Decimal,
    pub fee_treasury: Decimal,
    pub fee_referral: Decimal,
    pub pool_loss: Decimal,
    /// The part of the payment that the pool takes.
    pub payment_value: Decimal,
    /// The part of the payment handed back.
    pub remainder: Decimal,
    /// The collateral balances taken out of the account, all of them.
    pub withdrawn: Vec<(ResourceAddress, Decimal)>,
}

/// Settles a liquidation (see [`liq_settle`]).
fn settle_liquidation(
    config: &VirtualConfig,
    pool: &mut VirtualLiquidityPool,
    account: &mut VirtualMarginAccount,
    settlement: Decimal,
    fee_paid: Decimal,
) -> (r: (Decimal, (Decimal, Decimal, Decimal, Decimal)))
    requires
        liq_settle(*config, old(pool).state(), old(account).state(), settlement@, fee_paid@) is Some,
    ensures
        ({
            let (p, a, loss, fees) = liq_settle(*config, old(pool).state(), old(account).state(), settlement@, fee_paid@).unwrap();
            &&& final(pool).state() == p && final(account).state() == a
            &&& r.0@ == loss && (r.1.0@, r.1.1@, r.1.2@, r.1.3@) == fees
        }),
        final(account).virtual_balance@ >= 0,
        final(account).requests() == old(account).requests(),
        final(account).active_requests_len == old(account).active_requests_len,
        final(account).address == old(account).address,
        final(account).requests_len == old(account).requests_len,
        final(account).valid_requests_start == old(account).valid_requests_start,
{
    settle_account(pool, account, settlement);
    let pool_loss = if account.virtual_balance.is_negative() {
        let loss = account.virtual_balance;
        settle_account(pool, account, loss.neg());
        loss
    } else {
        Decimal::zero()
    };
    let fees = settle_fees_referral(config, pool, account, fee_paid);
    (pool_loss, fees)
}

/// What the checks of a liquidation found.
pub struct LiquidationCheck {
    pub positions: LiquidatePositionsResult,
    pub collateral: LiquidateCollateralResult,
    pub account_value: Decimal,
    pub margin: Decimal,
    pub virtual_balance: Decimal,
}

/// The checks of a liquidation at time `now` (see [`liq_check_spec`]). On an
/// error the operation is void and the working copies are to be dropped.
pub fn liquidation_check(
    config: &VirtualConfig,
    pool: &mut VirtualLiquidityPool,
    account: &mut VirtualMarginAccount,
    oracle: &VirtualOracle,
    now: i64,
) -> (r: Result<LiquidationCheck, ExchangeError>)
    requires
        liq_check_spec(*config, old(pool).state(), old(account).state(), *oracle, now) is Some,
    ensures
        match liq_check_spec(*config, old(pool).state(), old(account).state(), *oracle, now).unwrap() {
            Ok((lp, c, (value, margin))) => r matches Ok(x) && {
                &&& final(pool).state() == lp.pool && final(account).state() == lp.account
                &&& x.positions.pnl@ == lp.pnl && x.positions.fee_paid@ == lp.fee_paid
                &&& x.positions.margin_positions@ == lp.margin && x.positions.funding_paid@ == lp.funding_paid
                &&& x.collateral.collateral_value@ == c.0 && x.collateral.collateral_value_discounted@ == c.1
                &&& x.collateral.margin_collateral@ == c.2
                &&& coll_views(x.collateral.collateral_amounts@) == collateral_claims(*config, old(account).state().collaterals)
                &&& x.account_value@ == value && x.margin@ == margin
                &&& x.virtual_balance@ == old(account).virtual_balance@
            },
            Err(e) => r == Err::<LiquidationCheck, ExchangeError>(e),
        },
        final(account).requests() == old(account).requests(),
        final(account).active_requests_len == old(account).active_requests_len,
        final(account).address == old(account).address,
        final(account).requests_len == old(account).requests_len,
        final(account).valid_requests_start == old(account).valid_requests_start,
{
    let positions = liquidate_positions(config, pool, account, oracle, now);
    let collateral = liquidate_collateral(config, account, oracle);
    let virtual_balance = account.virtual_balance;
    let account_value = positions.pnl.add(collateral.collateral_value_discounted).add(virtual_balance);
    let margin = positions.margin_positions.add(collateral.margin_collateral);
    if account_value.ge(margin) {
        return Err(ExchangeError::LiquidationSufficientMargin);
    }
    Ok(LiquidationCheck { positions, collateral, account_value, margin, virtual_balance })
}

/// Liquidates the account at time `now`, paid with `payment` base tokens whose
/// resource has `places` decimal places (see [`liquidate_spec`]); on success
/// the account's requests made so far are no longer valid. On an error the
/// operation is void and the working copies are to be dropped.
pub fn liquidate(
    config: &VirtualConfig,
    pool: &mut VirtualLiquidityPool,
    account: &mut VirtualMarginAccount,
    oracle: &VirtualOracle,
    now: i64,
    payment_resource: ResourceAddress,
    base_resource: ResourceAddress,
    payment: Decimal,
    places: u8,
) -> (r: Result<LiquidateResult, ExchangeError>)
    requires
        liquidate_spec(*config, old(pool).state(), old(account).state(), *oracle, now, payment_resource, base_resource, payment@, places) is Some,
    ensures
        match liquidate_spec(*config, old(pool).state(), old(account).state(), *oracle, now, payment_resource, base_resource, payment@, places).unwrap() {
            Ok(o) => r matches Ok(x) && {
                &&& final(pool).state() == o.pool && final(account).state() == o.account
                &&& x.account_value@ == o.account_value && x.margin@ == o.margin
                &&& x.virtual_balance@ == old(account).virtual_balance@
                &&& x.pool_loss@ == o.pool_loss && x.payment_value@ == o.payment_value
                &&& x.remainder@ == payment@ - o.payment_value
                &&& (x.fee_pool@, x.fee_protocol@, x.fee_treasury@, x.fee_referral@) == o.fees
                &&& coll_views(x.collateral.collateral_amounts@) == collateral_claims(*config, old(account).state().collaterals)
                &&& coll_views(x.withdrawn@) == old(account).state().collaterals
                // the account owes nothing after a liquidation
                &&& final(account).virtual_balance@ >= 0
                &&& final(account).valid_requests_start == old(account).requests_len
            },
            Err(e) => r == Err::<LiquidateResult, ExchangeError>(e),
        },
        r is Err ==> final(account).valid_requests_start == old(account).valid_requests_start,
        final(account).requests() == old(account).requests(),
        final(account).requests_len == old(account).requests_len,
        final(account).active_requests_len == old(account).active_requests_len,
        final(account).address == old(account).address,
{
    if payment_resource != base_resource {
        return Err(ExchangeError::InvalidPaymentToken);
    }
    let check = liquidation_check(config, pool, account, oracle, now)?;
    let value = check.collateral.collateral_value_discounted.round_up(places).unwrap();
    if payment.lt(value) {
        return Err(ExchangeError::InsufficientPayment);
    }
    let withdrawn = account.take_all_collateral();
    assert(coll_views(account.collateral_balances.entries()) =~= Seq::<(ResourceAddress, int)>::empty());
    pool.deposit(value);
    let remainder = payment.sub(value);
    let (pool_loss, (fee_pool, fee_protocol, fee_treasury, fee_referral)) = settle_liquidation(
        config,
        pool,
        account,
        check.positions.pnl.add(value),
        check.positions.fee_paid,
    );
    account.update_valid_requests_start();
    Ok(LiquidateResult {
        positions: check.positions,
        collateral: check.collateral,
        account_value: check.account_value,
        margin: check.margin,
        virtual_balance: check.virtual_balance,
        fee_pool,
        fee_protocol,
        fee_treasury,
        fee_referral,
        pool_loss,
        payment_value: value,
        remainder,
        withdrawn,
    })
}

/// The balance of `res` in a list of collateral numbers (zero when absent).
pub open spec fn coll_balance(entries: Seq<(ResourceAddress, int)>, res: ResourceAddress) -> int {
    if has_key(entries, res) {
        entries[key_pos(entries, res)].1
    } else {
        0
    }
}

/// The total of the amounts of `res` in a list of collateral numbers.
pub open spec fn claim_total(claims: Seq<(ResourceAddress, int)>, res: ResourceAddress) -> int
    decreases claims.len(),
{
    if claims.len() == 0 {
        0
    } else {
        claim_total(claims.drop_last(), res) + if claims.last().0 == res {
            claims.last().1
        } else {
            0
        }
    }
}

/// The totals of a list of amounts read the same as numbers.
pub proof fn lemma_claim_total(tokens: Seq<(ResourceAddress, Decimal)>, res: ResourceAddress)
    ensures
        deposit_total(tokens, res) == claim_total(coll_views(tokens), res),
    decreases tokens.len(),
{
    if tokens.len() > 0 {
        assert(coll_views(tokens.drop_last()) =~= coll_views(tokens).drop_last());
        lemma_claim_total(tokens.drop_last(), res);
    }
}

/// Whether depositing the claims into a list of balances stays in range.
pub open spec fn deposit_fits(entries: Seq<(ResourceAddress, int)>, claims: Seq<(ResourceAddress, int)>) -> bool {
    forall|res: ResourceAddress| in_range(#[trigger] coll_balance(entries, res) + claim_total(claims, res))
}

/// What a liquidation into another account did.
pub struct LiqV2Outcome {
    pub pool: PoolState,
    pub account: AccountState,
    pub receiver: AccountState,
    pub account_value: int,
    pub margin: int,
    pub pool_loss: int,
    pub fees: (int, int, int, int),
}

/// A liquidation at time `now` into the account `r` of the liquidator: after
/// the checks (see [`liq_check_spec`]) all of the account's collateral balances
/// move to the receiver,
/// who pays its discounted value from its virtual balance; refused when the
/// receiver's value would then not cover its margin. The positions' PnL and
/// the collateral's value settle into the account, whose remaining debt the
/// pool writes off (see [`liq_settle`]); the fees are split.
pub open spec fn liquidate_v2_spec(
    config: VirtualConfig,
    p: PoolState,
    a: AccountState,
    r: AccountState,
    oracle: VirtualOracle,
    now: i64,
) -> Option<Result<LiqV2Outcome, ExchangeError>> {
    match liq_check_spec(config, p, a, oracle, now) {
        Some(Ok((lp, c, (value, margin)))) => {
            let claims = a.collaterals;
            let a1 = AccountState { collaterals: Seq::empty(), ..lp.account };
            let r1 = AccountState { collaterals: deposit_entries(r.collaterals, claims), ..r };
            if !(in_range(-c.1) && in_range(lp.pnl + c.1) && deposit_fits(r.collaterals, claims)) {
                None
            } else {
                match settle_step(lp.pool, r1, -c.1) {
                    Some((p2, r2)) => match state_health(config, p2, r2, oracle) {
                        Some((rv, rm)) => if rv < rm {
                            Some(Err(ExchangeError::InsufficientMargin))
                        } else {
                            match liq_settle(config, p2, a1, lp.pnl + c.1, lp.fee_paid) {
                                Some((p3, a3, loss, fees)) => Some(
                                    Ok(
                                        LiqV2Outcome {
                                            pool: p3,
                                            account: AccountState { valid_requests_start: a3.requests_len, ..a3 },
                                            receiver: r2,
                                            account_value: value,
                                            margin,
                                            pool_loss: loss,
                                            fees,
                                        },
                                    ),
                                ),
                                None => None,
                            }
                        },
                        None => None,
                    },
                    None => None,
                }
            }
        },
        Some(Err(e)) => Some(Err(e)),
        None => None,
    }
}

/// What a liquidation into another account did, as the exchange reports it.
pub struct LiquidateV2Result {
    pub positions: LiquidatePositionsResult,
    pub collateral: LiquidateCollateralResult,
    pub account_value: Decimal,
    pub margin: Decimal,
    /// The account's virtual balance before the liquidation.
    pub virtual_balance: Decimal,
    pub fee_pool: Decimal,
    pub fee_protocol: Decimal,
    pub fee_treasury: Decimal,
    pub fee_referral: Decimal,
    pub pool_loss: Decimal,
    /// The collateral balances moved to the receiver, all of the account's.
    pub withdrawn: Vec<(ResourceAddress, Decimal)>,
}

/// Moves every collateral balance of one account to another; hands back the
/// balances moved.
fn move_all_collateral(account: &mut VirtualMarginAccount, receiver: &mut VirtualMarginAccount) -> (r: Vec<
    (ResourceAddress, Decimal),
>)
    requires
        deposit_fits(old(receiver).state().collaterals, old(account).state().collaterals),
    ensures
        coll_views(r@) == old(account).state().collaterals,
        final(account).state() == (AccountState { collaterals: Seq::empty(), ..old(account).state() }),
        final(receiver).state() == (AccountState {
            collaterals: deposit_entries(old(receiver).state().collaterals, old(account).state().collaterals),
            ..old(receiver).state()
        }),
        final(account).requests() == old(account).requests(),
        final(account).active_requests_len == old(account).active_requests_len,
        final(account).address == old(account).address,
        final(account).requests_len == old(account).requests_len,
        final(account).valid_requests_start == old(account).valid_requests_start,
        final(receiver).requests() == old(receiver).requests(),
        final(receiver).active_requests_len == old(receiver).active_requests_len,
        final(receiver).address == old(receiver).address,
        final(receiver).requests_len == old(receiver).requests_len,
        final(receiver).valid_requests_start == old(receiver).valid_requests_start,
{
    proof {
        use_type_invariant(&account.collateral_balances);
        crate::map::AssocMap::lemma_inv_distinct(account.collateral_balances);
    }
    let claims = account.take_all_collateral();
    assert(coll_views(account.collateral_balances.entries()) =~= Seq::<(ResourceAddress, int)>::empty());
    proof {
        use_type_invariant(&receiver.collateral_balances);
        crate::map::AssocMap::lemma_inv_distinct(receiver.collateral_balances);
        assert forall|res: ResourceAddress| in_range(receiver.collateral_of(res) + deposit_total(claims@, res)) by {
            lemma_claim_total(claims@, res);
            lemma_coll_views_key(receiver.collateral_balances.entries(), res);
            assert(in_range(coll_balance(receiver.state().collaterals, res) + claim_total(coll_views(claims@), res)));
        }
    }
    receiver.deposit_collateral_batch(&claims);
    claims
}

/// Liquidates the account at time `now` into the account `receiver` of the
/// liquidator (see [`liquidate_v2_spec`]); on success the account's requests
/// made so far are no longer valid. On an error the operation is void and the
/// working copies are to be dropped.
pub fn liquidate_v2(
    config: &VirtualConfig,
    pool: &mut VirtualLiquidityPool,
    account: &mut VirtualMarginAccount,
    receiver: &mut VirtualMarginAccount,
    oracle: &VirtualOracle,
    now: i64,
) -> (r: Result<LiquidateV2Result, ExchangeError>)
    requires
        liquidate_v2_spec(*config, old(pool).state(), old(account).state(), old(receiver).state(), *oracle, now) is Some,
    ensures
        match liquidate_v2_spec(*config, old(pool).state(), old(account).state(), old(receiver).state(), *oracle, now).unwrap() {
            Ok(o) => r matches Ok(x) && {
                &&& final(pool).state() == o.pool && final(account).state() == o.account
                &&& final(receiver).state() == o.receiver
                &&& x.account_value@ == o.account_value && x.margin@ == o.margin
                &&& x.virtual_balance@ == old(account).virtual_balance@
                &&& x.pool_loss@ == o.pool_loss
                &&& (x.fee_pool@, x.fee_protocol@, x.fee_treasury@, x.fee_referral@) == o.fees
                &&& coll_views(x.withdrawn@) == old(account).state().collaterals
                // the account owes nothing after a liquidation
                &&& final(account).virtual_balance@ >= 0
                &&& final(account).valid_requests_start == old(account).requests_len
            },
            Err(e) => r == Err::<LiquidateV2Result, ExchangeError>(e),
        },
        r is Err ==> final(account).valid_requests_start == old(account).valid_requests_start,
        final(account).requests() == old(account).requests(),
        final(account).requests_len == old(account).requests_len,
        final(account).active_requests_len == old(account).active_requests_len,
        final(account).address == old(account).address,
        final(receiver).requests() == old(receiver).requests(),
        final(receiver).valid_requests_start == old(receiver).valid_requests_start,
        final(receiver).requests_len == old(receiver).requests_len,
        final(receiver).active_requests_len == old(receiver).active_requests_len,
        final(receiver).address == old(receiver).address,
{
    let check = liquidation_check(config, pool, account, oracle, now)?;
    let value = check.collateral.collateral_value_discounted;
    let withdrawn = move_all_collateral(account, receiver);
    settle_account(pool, receiver, value.neg());
    assert_account_integrity(config, pool, receiver, oracle)?;
    let (pool_loss, (fee_pool, fee_protocol, fee_treasury, fee_referral)) = settle_liquidation(
        config,
        pool,
        account,
        check.positions.pnl.add(value),
        check.positions.fee_paid,
    );
    account.update_valid_requests_start();
    Ok(LiquidateV2Result {
        positions: check.positions,
        collateral: check.collateral,
        account_value: check.account_value,
        margin: check.margin,
        virtual_balance: check.virtual_balance,
        fee_pool,
        fee_protocol,
        fee_treasury,
        fee_referral,
        pool_loss,
        withdrawn,
    })
}

/// The PnL ratio below which auto-deleveraging leaves a position alone, at
/// skew ratio `ratio`: with `u = (ratio - offset) / a` (each term divided
/// separately), `-u^3 - b * u`.
pub open spec fn adl_threshold(ec: ExchangeConfig, ratio: int) -> Option<int> {
    let u = osub(odiv(Some(ratio), Some(ec.adl_a@)), odiv(Some(ec.adl_offset@), Some(ec.adl_a@)));
    osub(oneg(omul(omul(u, u), u)), omul(Some(ec.adl_b@), u))
}

/// What auto-deleveraging did.
pub struct AdlOutcome {
    pub pool: PoolState,
    pub account: AccountState,
    pub amount_close: int,
    /// The PnL of closing plus the funding settled.
    pub pnl: int,
    pub funding: int,
    pub fees: (int, int, int, int),
    pub pnl_percent: int,
    pub threshold: int,
}

/// Auto-deleveraging the account's position in pair `k` at time `now`: the
/// pair is updated and the position's funding settled; refused unless the
/// pool's skew ratio is above its cap, the account holds a position there, and
/// the position's PnL ratio (its value less its cost, over the size of its
/// cost, so that a profitable short ranks as a profitable long does) is above
/// the threshold at that skew ratio (see [`adl_threshold`]). The whole position
/// is closed (see [`close_step`]) and the fees split; refused unless the skew
/// ratio fell.
pub open spec fn adl_spec(config: VirtualConfig, p: PoolState, a: AccountState, oracle: VirtualOracle, now: i64, k: Seq<char>) -> Option<
    Result<AdlOutcome, ExchangeError>,
> {
    let ec = config.exchange_config;
    let price = oracle.price_of(k)@;
    match pair_step(config, p, price, now, k) {
        Some((p1, _)) => match funding_step(p1, a, k) {
            Some((p2, a2, funding)) => match state_skew_ratio(p2) {
                Some(r0) => if !oracle.has_price(k) {
                    None
                } else if !(r0 > ec.skew_ratio_cap@) {
                    Some(Err(ExchangeError::AdlSkewTooLow))
                } else {
                    let pos = pos_in(a2.positions, k);
                    if pos.amount == 0 {
                        Some(Err(ExchangeError::AdlNoPosition))
                    } else {
                        let value = omul(Some(pos.amount), Some(price));
                        match (odiv(osub(value, Some(pos.cost)), oabs(Some(pos.cost))), adl_threshold(ec, r0), oneg(Some(pos.amount))) {
                            (Some(ratio), Some(threshold), Some(close)) => if !(ratio > threshold) {
                                Some(Err(ExchangeError::AdlPnlBelowThreshold))
                            } else {
                                match close_step(config, p2, a2, price, k, close) {
                                    Some((p3, a3, pnl, fee)) => match fees_referral_step(ec, p3, a3, fee) {
                                        Some((p4, a4, fees)) => match state_skew_ratio(p4) {
                                            Some(r1) => if !(r1 < r0) {
                                                Some(Err(ExchangeError::AdlSkewNotReduced))
                                            } else if !in_range(pnl + funding) {
                                                None
                                            } else {
                                                Some(
                                                    Ok(
                                                        AdlOutcome {
                                                            pool: p4,
                                                            account: a4,
                                                            amount_close: close,
                                                            pnl: pnl + funding,
                                                            funding,
                                                            fees,
                                                            pnl_percent: ratio,
                                                            threshold,
                                                        },
                                                    ),
                                                )
                                            },
                                            None => None,
                                        },
                                        None => None,
                                    },
                                    None => None,
                                }
                            },
                            _ => None,
                        }
                    }
                },
                None => None,
            },
            None => None,
        },
        None => None,
    }
}

/// What auto-deleveraging did, as the exchange reports it.
pub struct AutoDeleverageResult {
    pub price: Decimal,
    pub amount_close: Decimal,
    pub pnl: Decimal,
    pub funding: Decimal,
    pub fee_pool: Decimal,
    pub fee_protocol: Decimal,
    pub fee_treasury: Decimal,
    pub fee_referral: Decimal,
    pub pnl_percent: Decimal,
    pub threshold: Decimal,
}

/// Auto-deleverages the account's position in a pair at time `now` (see
/// [`adl_spec`]). On an error the operation is void and the working copies
/// are to be dropped.
pub fn auto_deleverage(
    config: &VirtualConfig,
    pool: &mut VirtualLiquidityPool,
    account: &mut VirtualMarginAccount,
    oracle: &VirtualOracle,
    now: i64,
    pair_id: &PairId,
) -> (r: Result<AutoDeleverageResult, ExchangeError>)
    requires
        adl_spec(*config, old(pool).state(), old(account).state(), *oracle, now, pair_id@) is Some,
    ensures
        match adl_spec(*config, old(pool).state(), old(account).state(), *oracle, now, pair_id@).unwrap() {
            Ok(o) => r matches Ok(x) && {
                &&& final(pool).state() == o.pool && final(account).state() == o.account
                &&& x.price == oracle.price_of(pair_id@)
                &&& x.amount_close@ == o.amount_close && x.pnl@ == o.pnl && x.funding@ == o.funding
                &&& (x.fee_pool@, x.fee_protocol@, x.fee_treasury@, x.fee_referral@) == o.fees
                &&& x.pnl_percent@ == o.pnl_percent && x.threshold@ == o.threshold
            },
            Err(e) => r == Err::<AutoDeleverageResult, ExchangeError>(e),
        },
        final(account).requests() == old(account).requests(),
        final(account).valid_requests_start == old(account).valid_requests_start,
        final(account).requests_len == old(account).requests_len,
        final(account).active_requests_len == old(account).active_requests_len,
        final(account).address == old(account).address,
{
    let ec = &config.exchange_config;
    proof {
        use_type_invariant(&account.positions);
        crate::map::AssocMap::lemma_inv_distinct(account.positions);
        lemma_pos_in(account.positions.entries(), pair_id@);
    }
    update_pair(config, pool, oracle, now, pair_id);
    let funding = settle_funding(pool, account, pair_id);
    let skew_ratio_0 = skew_ratio(pool);
    if !skew_ratio_0.gt(ec.skew_ratio_cap) {
        return Err(ExchangeError::AdlSkewTooLow);
    }
    proof {
        use_type_invariant(&account.positions);
        crate::map::AssocMap::lemma_inv_distinct(account.positions);
        lemma_pos_in(account.positions.entries(), pair_id@);
    }
    let position = account.position(pair_id);
    let price = oracle.price(pair_id);
    let amount = position.amount;
    if amount.is_zero() {
        return Err(ExchangeError::AdlNoPosition);
    }
    let value = amount.mul(price);
    let cost = position.cost;
    let pnl_percent = value.sub(cost).div(cost.abs());
    let u = skew_ratio_0.div(ec.adl_a).sub(ec.adl_offset.div(ec.adl_a));
    let threshold = u.mul(u).mul(u).neg().sub(ec.adl_b.mul(u));
    if !pnl_percent.gt(threshold) {
        return Err(ExchangeError::AdlPnlBelowThreshold);
    }
    let amount_close = amount.neg();
    let (pnl, fee_paid) = close_position(config, pool, account, oracle, pair_id, amount_close);
    let (fee_pool, fee_protocol, fee_treasury, fee_referral) = settle_fees_referral(config, pool, account, fee_paid);
    let skew_ratio_1 = skew_ratio(pool);
    if !skew_ratio_1.lt(skew_ratio_0) {
        return Err(ExchangeError::AdlSkewNotReduced);
    }
    Ok(AutoDeleverageResult {
        price,
        amount_close,
        pnl: pnl.add(funding),
        funding,
        fee_pool,
        fee_protocol,
        fee_treasury,
        fee_referral,
        pnl_percent,
        threshold,
    })
}

/// What auto-deleveraging promises when it goes through: the pool's skew ratio
/// (after the pair update and the funding) was above its cap and ends lower
/// than it was; the position's PnL ratio was above the threshold; and the
/// whole position is closed.
pub proof fn law_adl(config: VirtualConfig, p: PoolState, a: AccountState, oracle: VirtualOracle, now: i64, k: Seq<char>)
    requires
        views_distinct(a.positions),
    ensures
        adl_spec(config, p, a, oracle, now, k) matches Some(Ok(o)) ==> {
            let price = oracle.price_of(k)@;
            let p1 = pair_step(config, p, price, now, k).unwrap().0;
            let p2 = funding_step(p1, a, k).unwrap().0;
            &&& state_skew_ratio(p2).unwrap() > config.exchange_config.skew_ratio_cap@
            &&& state_skew_ratio(o.pool) is Some
            &&& state_skew_ratio(o.pool).unwrap() < state_skew_ratio(p2).unwrap()
            &&& o.pnl_percent > o.threshold
            &&& pos_in(o.account.positions, k).amount == 0
        },
{
    let price = oracle.price_of(k)@;
    if let Some(Ok(o)) = adl_spec(config, p, a, oracle, now, k) {
        let p1 = pair_step(config, p, price, now, k).unwrap().0;
        let (p2, a2, funding) = funding_step(p1, a, k).unwrap();
        let pos = pos_in(a.positions, k);
        if view_has(a.positions, k) {
            let pp = p1.views[k];
            let index = if pos.amount > 0 { pp.funding_long_index } else { pp.funding_short_index };
            lemma_pos_in_insert(a.positions, k, AccountPositionView { funding_index: index, ..pos });
        }
        let pos2 = pos_in(a2.positions, k);
        let close = -pos2.amount;
        let (p3, a3, pnl, fee) = close_step(config, p2, a2, price, k, close).unwrap();
        let cost = omul(odiv(oneg(Some(close)), Some(pos2.amount)), Some(pos2.cost));
        let nc = osub(Some(pos2.cost), cost).unwrap();
        lemma_pos_in_insert(a2.positions, k, AccountPositionView { amount: 0, cost: nc, ..pos2 });
    }
}

/// The PnL ratio by which auto-deleveraging ranks a position is positive only
/// for a position that gained and negative only for one that lost, a short as
/// much as a long: the gain is taken over the size of the cost.
pub proof fn law_adl_ratio_sign(value: int, cost: int)
    ensures
        odiv(osub(Some(value), Some(cost)), oabs(Some(cost))) matches Some(ratio) ==> (ratio > 0 ==> value > cost) && (ratio < 0
            ==> value < cost),
{
    if let Some(ratio) = odiv(osub(Some(value), Some(cost)), oabs(Some(cost))) {
        let x = (value - cost) * scale();
        let y = abs(cost);
        assert(y > 0);
        assert(abs(x) / y >= 0) by (nonlinear_arith)
            requires
                y > 0,
        ;
        assert(value - cost > 0 <==> x > 0) by (nonlinear_arith)
            requires
                x == (value - cost) * scale(),
                scale() > 0,
        ;
        assert(value - cost < 0 <==> x < 0) by (nonlinear_arith)
            requires
                x == (value - cost) * scale(),
                scale() > 0,
        ;
    }
}

/// What a liquidation promises when it goes through: the account's value was
/// below its maintenance margin; afterwards it holds no position and no
/// collateral, owes nothing, and its requests made so far are no longer valid;
/// the pool's loss is the debt it wrote off (never a gain); and the liquidator
/// paid at least the collateral's discounted value.
pub proof fn law_liquidation(
    config: VirtualConfig,
    p: PoolState,
    a: AccountState,
    oracle: VirtualOracle,
    now: i64,
    payment_resource: ResourceAddress,
    base_resource: ResourceAddress,
    payment: int,
    places: u8,
)
    ensures
        liquidate_spec(config, p, a, oracle, now, payment_resource, base_resource, payment, places) matches Some(Ok(o)) ==> {
            &&& payment_resource == base_resource
            &&& o.account_value < o.margin
            &&& o.account.collaterals.len() == 0
            &&& forall|i: int| 0 <= i < o.account.positions.len() ==> (#[trigger] o.account.positions[i]).1.amount == 0
            &&& o.account.positions.len() == a.positions.len()
            &&& o.account.virtual_balance >= 0
            &&& o.account.valid_requests_start == a.requests_len
            &&& o.pool_loss <= 0
            &&& payment >= o.payment_value
        },
{
}

/// What a liquidation into the liquidator's account promises when it goes
/// through: the account's value was below its maintenance margin; afterwards it
/// holds no position and no collateral and owes nothing; the pool's loss is
/// never a gain; and every balance it held is added to the receiver's
/// collateral, the receiver's positions untouched.
pub proof fn law_liquidation_into(config: VirtualConfig, p: PoolState, a: AccountState, r: AccountState, oracle: VirtualOracle, now: i64)
    ensures
        liquidate_v2_spec(config, p, a, r, oracle, now) matches Some(Ok(o)) ==> {
            &&& o.account_value < o.margin
            &&& o.account.collaterals.len() == 0
            &&& forall|i: int| 0 <= i < o.account.positions.len() ==> (#[trigger] o.account.positions[i]).1.amount == 0
            &&& o.account.virtual_balance >= 0
            &&& o.pool_loss <= 0
            &&& o.receiver.collaterals == deposit_entries(r.collaterals, a.collaterals)
            &&& o.receiver.positions == r.positions
        },
{
}

/// The margin that liquidating a list of positions counts is their maintenance
/// margin as an account's health counts it: each position's value at the
/// oracle's price, in size, times its pair's maintenance margin rate, whatever
/// the pools' state and the fee factor.
pub proof fn lemma_liq_margin_is_maintenance(
    config: VirtualConfig,
    p: PoolState,
    oracle: VirtualOracle,
    rebate: int,
    pools: Map<Seq<char>, PoolPositionView>,
    rebate2: int,
    entries: Seq<(Seq<char>, AccountPositionView)>,
)
    ensures
        liq_positions_spec(config, p, oracle, rebate, entries) matches Some((_, (_, m, _, _))) ==> (
        crate::exchange::positions_value_spec(config, pools, oracle, rebate2, entries, true) matches Some((_, tm)) ==> m == tm),
    decreases entries.len(),
{
    if entries.len() > 0 {
        lemma_liq_margin_is_maintenance(config, p, oracle, rebate, pools, rebate2, entries.drop_last());
    }
}

/// A liquidation is refused whenever the account's value (its positions'
/// closing PnL, its collateral's discounted value and its virtual balance)
/// covers its maintenance margin: the positions' values in size times their
/// pairs' maintenance margin rates, as the account's health counts them, plus
/// its collateral's margin.
pub proof fn law_liquidation_refused_above_maintenance(
    config: VirtualConfig,
    p: PoolState,
    a: AccountState,
    oracle: VirtualOracle,
    now: i64,
    pools: Map<Seq<char>, PoolPositionView>,
)
    ensures
        liquidate_positions_spec(config, p, a, oracle, now) matches Some(lp) ==> (
        crate::exchange::positions_value_spec(config, pools, oracle, rebate_view(a.referral), a.positions, true) matches Some((_, m)) ==> {
            &&& lp.margin == m
            &&& collaterals_value_spec(config, oracle, a.collaterals, true) matches Some((_, d, cm)) ==> (lp.pnl + d
                + a.virtual_balance >= m + cm ==> liq_check_spec(config, p, a, oracle, now) is Some ==> liq_check_spec(
                config,
                p,
                a,
                oracle,
                now,
            ) == Some(Err::<(LiqPositions, (int, int, int), (int, int)), ExchangeError>(ExchangeError::LiquidationSufficientMargin)))
        }),
{
    if let Some(lp) = liquidate_positions_spec(config, p, a, oracle, now) {
        let keys = view_pairs(a.positions);
        let p1 = pairs_step(config, p, oracle, now, keys).unwrap().0;
        lemma_liq_margin_is_maintenance(config, p1, oracle, rebate_view(a.referral), pools, rebate_view(a.referral), a.positions);
    }
}

/// Liquidating a list of positions, each pair once, closes each position at the
/// PnL and maintenance margin that the account's health counts for it: its
/// value at the oracle's price (negated) less its cost, the fee and the
/// funding it owes, each pair's pool position as it stood before the
/// liquidation closed anything. Pools of pairs not in the list are untouched.
pub proof fn law_liquidation_values_as_health(
    config: VirtualConfig,
    p: PoolState,
    oracle: VirtualOracle,
    rebate: int,
    entries: Seq<(Seq<char>, AccountPositionView)>,
)
    requires
        views_distinct(entries),
    ensures
        liq_positions_spec(config, p, oracle, rebate, entries) matches Some((q, (tp, tm, _, _))) ==> {
            &&& forall|k: Seq<char>| !view_has(entries, k) ==> #[trigger] q.views[k] == p.views[k]
            &&& crate::exchange::positions_value_spec(config, p.views, oracle, rebate, entries, true) == Some((tp, tm))
        },
    decreases entries.len(),
{
    if entries.len() > 0 {
        let d = entries.drop_last();
        assert(views_distinct(d)) by {
            assert forall|i: int, j: int| 0 <= i < d.len() && 0 <= j < d.len() && i != j implies #[trigger] d[i].0 != #[trigger] d[j].0 by {
                assert(d[i] == entries[i] && d[j] == entries[j]);
            }
        }
        law_liquidation_values_as_health(config, p, oracle, rebate, d);
        let k = entries.last().0;
        assert(!view_has(d, k)) by {
            if view_has(d, k) {
                let i = choose|i: int| 0 <= i < d.len() && #[trigger] d[i].0 == k;
                assert(entries[i].0 == entries[entries.len() - 1].0);
            }
        }
        assert forall|q: Seq<char>| !view_has(entries, q) implies !view_has(d, q) && q != k by {
            if view_has(d, q) {
                let i = choose|i: int| 0 <= i < d.len() && #[trigger] d[i].0 == q;
                assert(entries[i].0 == q);
            }
            if q == k {
                assert(entries[entries.len() - 1].0 == q);
            }
        }
    }
}

} // verus!

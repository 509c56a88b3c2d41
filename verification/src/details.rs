use vstd::prelude::*;
use crate::account::{AccountPosition, AccountPositionView, KeeperRequest, ReferralData, VirtualMarginAccount, same_request};
use crate::common::{ListIndex, PairId, ResourceAddress};
use crate::config::{CollateralConfig, PairConfig, VirtualConfig};
use crate::decimal::{Decimal, abs, in_range, in_quotient_range, mul_attos, oabs, omul, scale, div_attos};
use crate::exchange::{pool_value, pool_value_spec, position_funding, skew_ratio, skew_ratio_spec};
use crate::map::{AssocMap, MapKey, has_key, key_pos, lemma_key_pos_unique};
use crate::pool::{PoolPosition, PoolPositionView, VirtualLiquidityPool};

verus! {

/// What an account's position in one pair amounts to.
pub struct PositionDetails {
    pub pair_id: PairId,
    pub amount: Decimal,
    pub margin_initial: Decimal,
    pub margin_maintenance: Decimal,
    pub cost: Decimal,
    pub funding: Decimal,
}

/// What an account holds of one collateral resource.
pub struct CollateralDetails {
    pub pair_id: PairId,
    pub resource: ResourceAddress,
    pub amount: Decimal,
    pub discount: Decimal,
    pub margin: Decimal,
}

/// A stored request with its index.
pub struct RequestDetails {
    pub index: ListIndex,
    pub request: crate::requests::Request,
    pub submission: i64,
    pub expiry: i64,
    pub status: u8,
}

/// An account as a front end shows it.
pub struct AccountDetails {
    pub virtual_balance: Decimal,
    pub positions: Vec<PositionDetails>,
    pub collaterals: Vec<CollateralDetails>,
    pub valid_requests_start: ListIndex,
    pub active_requests: Vec<RequestDetails>,
    pub requests_history: Vec<RequestDetails>,
    pub requests_len: ListIndex,
    pub referral: Option<ReferralData>,
}

/// The pool as a front end shows it.
pub struct PoolDetails {
    pub base_tokens_amount: Decimal,
    pub virtual_balance: Decimal,
    pub unrealized_pool_funding: Decimal,
    pub pnl_snap: Decimal,
    pub skew_ratio: Decimal,
    pub skew_ratio_cap: Decimal,
    pub lp_supply: Decimal,
    pub lp_price: Decimal,
}

/// A pair's pool position and settings.
pub struct PairDetails {
    pub pair_id: PairId,
    pub pool_position: PoolPosition,
    pub pair_config: PairConfig,
}

/// The funding that a position owes and the initial and maintenance margins
/// that its size asks for under the pair's settings.
pub open spec fn position_numbers(pos: AccountPositionView, pp: PoolPositionView, pc: PairConfig) -> Option<
    (int, int, int),
> {
    match (
        position_funding(pos, pp),
        omul(oabs(Some(pos.amount)), Some(pc.margin_initial@)),
        omul(oabs(Some(pos.amount)), Some(pc.margin_maintenance@)),
    ) {
        (Some(f), Some(mi), Some(mm)) => Some((f, mi, mm)),
        _ => None,
    }
}

/// Whether the details of a position are stated by its entry and numbers.
pub open spec fn position_detailed(
    d: PositionDetails,
    entry: (PairId, AccountPosition),
    numbers: (int, int, int),
) -> bool {
    &&& d.pair_id@ == entry.0@
    &&& d.amount == entry.1.amount
    &&& d.cost == entry.1.cost
    &&& d.funding@ == numbers.0
    &&& d.margin_initial@ == numbers.1
    &&& d.margin_maintenance@ == numbers.2
}

/// Whether an account's positions can all be detailed: each pair's settings
/// and pool position are loaded and its numbers fit a decimal.
pub open spec fn positions_detailable(config: VirtualConfig, pool: VirtualLiquidityPool, account: VirtualMarginAccount) -> bool {
    forall|i: int|
        0 <= i < account.positions.entries().len() ==> {
            let k = (#[trigger] account.positions.entries()[i]).0@;
            &&& config.has_pair(k)
            &&& pool.has_position(k)
            &&& position_numbers(
                account.positions.entries()[i].1@,
                pool.position_of(k)@,
                config.pair_of(k),
            ) is Some
        }
}

/// The details of each of an account's positions, in the account's order.
pub fn position_details(
    config: &VirtualConfig,
    pool: &VirtualLiquidityPool,
    account: &VirtualMarginAccount,
) -> (r: Vec<PositionDetails>)
    requires
        positions_detailable(*config, *pool, *account),
    ensures
        r@.len() == account.positions.entries().len(),
        forall|i: int|
            0 <= i < r@.len() ==> {
                let e = account.positions.entries()[i];
                position_detailed(
                    #[trigger] r@[i],
                    e,
                    position_numbers(e.1@, pool.position_of(e.0@)@, config.pair_of(e.0@)).unwrap(),
                )
            },
{
    let mut r: Vec<PositionDetails> = Vec::new();
    let mut i: usize = 0;
    while i < account.positions.len()
        invariant
            i <= account.positions.entries().len(),
            r@.len() == i,
            positions_detailable(*config, *pool, *account),
            forall|j: int|
                0 <= j < i ==> {
                    let e = account.positions.entries()[j];
                    position_detailed(
                        #[trigger] r@[j],
                        e,
                        position_numbers(e.1@, pool.position_of(e.0@)@, config.pair_of(e.0@)).unwrap(),
                    )
                },
        decreases account.positions.entries().len() - i,
    {
        let pair_id = account.positions.key_at(i);
        let position = *account.positions.value_at(i);
        proof {
            let e = account.positions.entries()[i as int];
            assert(e.0@ == pair_id@);
        }
        let pair_config = config.pair_config(pair_id);
        let pool_position = pool.position(pair_id);
        let funding = if position.amount.is_positive() {
            position.amount.mul(pool_position.funding_long_index.sub(position.funding_index))
        } else {
            position.amount.neg().mul(pool_position.funding_short_index.sub(position.funding_index))
        };
        let size = position.amount.abs();
        let margin_initial = size.mul(pair_config.margin_initial);
        let margin_maintenance = size.mul(pair_config.margin_maintenance);
        r.push(
            PositionDetails {
                pair_id: pair_id.clone(),
                amount: position.amount,
                cost: position.cost,
                funding,
                margin_initial,
                margin_maintenance,
            },
        );
        i = i + 1;
    }
    r
}

/// Whether the margin of every collateral resource's balance fits a decimal.
pub open spec fn collaterals_detailable(config: VirtualConfig, account: VirtualMarginAccount) -> bool {
    forall|i: int|
        0 <= i < config.collateral_configs.entries().len() ==> in_quotient_range(
            mul_attos(
                account.collateral_of((#[trigger] config.collateral_configs.entries()[i]).0),
                config.collateral_configs.entries()[i].1.margin@,
            ),
        )
}

/// Whether the details of a collateral resource are stated by its settings and
/// the account's balance of it.
pub open spec fn collateral_detailed(
    d: CollateralDetails,
    entry: (ResourceAddress, CollateralConfig),
    balance: int,
) -> bool {
    &&& d.pair_id@ == entry.1.pair_id@
    &&& d.resource == entry.0
    &&& d.amount@ == balance
    &&& d.discount == entry.1.discount
    &&& d.margin@ == mul_attos(balance, entry.1.margin@)
}

/// The account's balance of every collateral resource that the exchange
/// accepts, in the order of the settings, with its discount and the margin it
/// stands for.
pub fn collateral_details(config: &VirtualConfig, account: &VirtualMarginAccount) -> (r: Vec<CollateralDetails>)
    requires
        collaterals_detailable(*config, *account),
    ensures
        r@.len() == config.collateral_configs.entries().len(),
        forall|i: int|
            0 <= i < r@.len() ==> {
                let e = config.collateral_configs.entries()[i];
                collateral_detailed(#[trigger] r@[i], e, account.collateral_of(e.0))
            },
{
    let mut r: Vec<CollateralDetails> = Vec::new();
    let mut i: usize = 0;
    while i < config.collateral_configs.len()
        invariant
            i <= config.collateral_configs.entries().len(),
            r@.len() == i,
            collaterals_detailable(*config, *account),
            forall|j: int|
                0 <= j < i ==> {
                    let e = config.collateral_configs.entries()[j];
                    collateral_detailed(#[trigger] r@[j], e, account.collateral_of(e.0))
                },
        decreases config.collateral_configs.entries().len() - i,
    {
        let resource = *config.collateral_configs.key_at(i);
        let collateral_config = config.collateral_configs.value_at(i);
        let amount = account.collateral_amount(&resource);
        proof {
            assert(config.collateral_configs.entries()[i as int].0 == resource);
        }
        let margin = amount.mul(collateral_config.margin);
        r.push(
            CollateralDetails {
                pair_id: collateral_config.pair_id.clone(),
                resource,
                amount,
                discount: collateral_config.discount,
                margin,
            },
        );
        i = i + 1;
    }
    r
}

/// Whether request details show a stored request at an index.
pub open spec fn request_detailed(d: RequestDetails, index: ListIndex, k: KeeperRequest) -> bool {
    &&& d.index == index
    &&& d.request@ == k.request@
    &&& d.submission == k.submission
    &&& d.expiry == k.expiry
    &&& d.status == k.status
}

/// The details of stored requests with their indexes, in the same order.
pub fn request_details(requests: &Vec<(ListIndex, KeeperRequest)>) -> (r: Vec<RequestDetails>)
    ensures
        r@.len() == requests@.len(),
        forall|i: int| 0 <= i < r@.len() ==> request_detailed(#[trigger] r@[i], requests@[i].0, requests@[i].1),
{
    let mut r: Vec<RequestDetails> = Vec::new();
    let mut i: usize = 0;
    while i < requests.len()
        invariant
            i <= requests@.len(),
            r@.len() == i,
            forall|j: int| 0 <= j < i ==> request_detailed(#[trigger] r@[j], requests@[j].0, requests@[j].1),
        decreases requests@.len() - i,
    {
        let (index, k) = &requests[i];
        r.push(
            RequestDetails {
                index: *index,
                request: k.request.copy(),
                submission: k.submission,
                expiry: k.expiry,
                status: k.status,
            },
        );
        i = i + 1;
    }
    r
}

/// Whether an index is below the bound (every index is, without one).
pub open spec fn below(k: ListIndex, bound: Option<ListIndex>) -> bool {
    match bound {
        Some(b) => k < b,
        None => true,
    }
}

/// Whether a list of requests is by strictly falling index, and each is the
/// one that `fetched` holds at its index.
pub open spec fn latest_first_of(r: Seq<(ListIndex, KeeperRequest)>, fetched: Map<ListIndex, KeeperRequest>) -> bool {
    &&& forall|i: int, j: int| 0 <= i < j < r.len() ==> #[trigger] r[i].0 > #[trigger] r[j].0
    &&& forall|i: int|
        0 <= i < r.len() ==> fetched.dom().contains((#[trigger] r[i]).0) && same_request(
            r[i].1,
            fetched[r[i].0],
        )
}

/// The fetched requests, latest (highest index) first.
pub fn requests_latest_first(fetched: &AssocMap<ListIndex, KeeperRequest>) -> (r: Vec<(ListIndex, KeeperRequest)>)
    ensures
        latest_first_of(r@, fetched.view_map()),
        forall|k: ListIndex| fetched.view_map().dom().contains(k) ==> exists|i: int| 0 <= i < r@.len() && #[trigger] r@[i].0 == k,
{
    proof {
        use_type_invariant(fetched);
        AssocMap::lemma_inv_distinct(*fetched);
    }
    let ghost e = fetched.entries();
    let mut r: Vec<(ListIndex, KeeperRequest)> = Vec::new();
    let mut bound: Option<ListIndex> = None;
    let mut done = false;
    while !done
        invariant
            e == fetched.entries(),
            crate::map::keys_distinct(e),
            latest_first_of(r@, fetched.view_map()),
            bound is None <==> r@.len() == 0,
            bound matches Some(b) ==> b == r@.last().0,
            forall|t: int| 0 <= t < e.len() && !below((#[trigger] e[t]).0, bound) ==> exists|i: int|
                0 <= i < r@.len() && #[trigger] r@[i].0 == e[t].0,
            done ==> forall|t: int| 0 <= t < e.len() ==> !below((#[trigger] e[t]).0, bound),
        decreases (if done { 0 } else { match bound {
            Some(b) => b as int + 1,
            None => u64::MAX as int + 2,
        } }),
    {
        let mut best: Option<usize> = None;
        let mut j: usize = 0;
        while j < fetched.len()
            invariant
                e == fetched.entries(),
                j <= e.len(),
                best matches Some(b) ==> b < j && below(e[b as int].0, bound) && forall|t: int|
                    0 <= t < j && below((#[trigger] e[t]).0, bound) ==> e[t].0 <= e[b as int].0,
                best is None ==> forall|t: int| 0 <= t < j ==> !below((#[trigger] e[t]).0, bound),
            decreases e.len() - j,
        {
            let key = *fetched.key_at(j);
            let eligible = match bound {
                Some(b) => key < b,
                None => true,
            };
            if eligible {
                match best {
                    Some(b) => {
                        if *fetched.key_at(b) < key {
                            best = Some(j);
                        }
                    },
                    None => {
                        best = Some(j);
                    },
                }
            }
            j = j + 1;
        }
        match best {
            None => {
                done = true;
            },
            Some(b) => {
                let key = *fetched.key_at(b);
                let request = fetched.value_at(b).copy();
                proof {
                    lemma_key_pos_unique(e, b as int);
                    assert(e[b as int].0 == key);
                }
                let ghost old_r = r@;
                let ghost old_bound = bound;
                r.push((key, request));
                bound = Some(key);
                proof {
                    assert forall|t: int| 0 <= t < e.len() && !below((#[trigger] e[t]).0, bound) implies exists|i: int|
                        0 <= i < r@.len() && #[trigger] r@[i].0 == e[t].0 by {
                        if e[t].0 == key {
                            assert(r@[old_r.len() as int].0 == e[t].0);
                        } else if !below(e[t].0, old_bound) {
                            let i = choose|i: int| 0 <= i < old_r.len() && #[trigger] old_r[i].0 == e[t].0;
                            assert(r@[i].0 == e[t].0);
                        } else {
                            assert(e[t].0 <= key);
                            lemma_key_pos_unique(e, t);
                        }
                    }
                    assert forall|i: int, j: int| 0 <= i < j < r@.len() implies #[trigger] r@[i].0 > #[trigger] r@[j].0 by {
                        if j == old_r.len() {
                            if i < old_r.len() - 1 {
                                assert(old_r[i].0 > old_r[old_r.len() - 1].0);
                            }
                        } else {
                            assert(old_r[i].0 > old_r[j].0);
                        }
                    }
                }
            },
        }
    }
    proof {
        assert forall|k: ListIndex| fetched.view_map().dom().contains(k) implies exists|i: int|
            0 <= i < r@.len() && #[trigger] r@[i].0 == k by {
            let t = choose|t: int| 0 <= t < e.len() && #[trigger] e[t].0.key_view() == k;
            assert(e[t].0 == k);
        }
    }
    r
}

/// An account as a front end shows it: its virtual balance, the details of its
/// positions and of its collateral, the start of its valid requests, its active
/// requests latest first (of those `active` fetched), the requests of `history`
/// in their order, the number of requests made and its referral.
pub fn account_details(
    config: &VirtualConfig,
    pool: &VirtualLiquidityPool,
    account: &VirtualMarginAccount,
    active: &AssocMap<ListIndex, KeeperRequest>,
    history: &Vec<(ListIndex, KeeperRequest)>,
) -> (r: AccountDetails)
    requires
        positions_detailable(*config, *pool, *account),
        collaterals_detailable(*config, *account),
    ensures
        r.virtual_balance == account.virtual_balance,
        r.positions@.len() == account.positions.entries().len(),
        forall|i: int|
            0 <= i < r.positions@.len() ==> {
                let e = account.positions.entries()[i];
                position_detailed(
                    #[trigger] r.positions@[i],
                    e,
                    position_numbers(e.1@, pool.position_of(e.0@)@, config.pair_of(e.0@)).unwrap(),
                )
            },
        r.collaterals@.len() == config.collateral_configs.entries().len(),
        forall|i: int|
            0 <= i < r.collaterals@.len() ==> {
                let e = config.collateral_configs.entries()[i];
                collateral_detailed(#[trigger] r.collaterals@[i], e, account.collateral_of(e.0))
            },
        r.valid_requests_start == account.valid_requests_start,
        forall|i: int, j: int|
            0 <= i < j < r.active_requests@.len() ==> #[trigger] r.active_requests@[i].index
                > #[trigger] r.active_requests@[j].index,
        forall|i: int|
            0 <= i < r.active_requests@.len() ==> active.view_map().dom().contains(
                (#[trigger] r.active_requests@[i]).index,
            ) && request_detailed(r.active_requests@[i], r.active_requests@[i].index, active.view_map()[r.active_requests@[i].index]),
        forall|k: ListIndex|
            active.view_map().dom().contains(k) ==> exists|i: int|
                0 <= i < r.active_requests@.len() && #[trigger] r.active_requests@[i].index == k,
        r.requests_history@.len() == history@.len(),
        forall|i: int|
            0 <= i < r.requests_history@.len() ==> request_detailed(
                #[trigger] r.requests_history@[i],
                history@[i].0,
                history@[i].1,
            ),
        r.requests_len == account.requests_len,
        r.referral == account.referral,
{
    let positions = position_details(config, pool, account);
    let collaterals = collateral_details(config, account);
    let latest = requests_latest_first(active);
    let active_requests = request_details(&latest);
    proof {
        assert forall|k: ListIndex| active.view_map().dom().contains(k) implies exists|i: int|
            0 <= i < active_requests@.len() && #[trigger] active_requests@[i].index == k by {
            let i = choose|i: int| 0 <= i < latest@.len() && #[trigger] latest@[i].0 == k;
            assert(active_requests@[i].index == k);
        }
    }
    let requests_history = request_details(history);
    AccountDetails {
        virtual_balance: account.virtual_balance,
        positions,
        collaterals,
        valid_requests_start: account.valid_requests_start,
        active_requests,
        requests_history,
        requests_len: account.requests_len,
        referral: account.referral,
    }
}

/// The price of one LP token: the pool's value (taken as at least one) per
/// token, or one while there are none.
pub open spec fn lp_price_spec(pool: VirtualLiquidityPool, lp_supply: int) -> Option<int> {
    match pool_value_spec(pool) {
        Some(v) => {
            let value = if v >= scale() { v } else { scale() };
            if lp_supply == 0 {
                Some(scale())
            } else if in_quotient_range(div_attos(value, lp_supply)) {
                Some(div_attos(value, lp_supply))
            } else {
                None
            }
        },
        None => None,
    }
}

/// The pool as a front end shows it, with `lp_supply` LP tokens in existence.
pub fn pool_details(config: &VirtualConfig, pool: &VirtualLiquidityPool, lp_supply: Decimal) -> (r: PoolDetails)
    requires
        lp_price_spec(*pool, lp_supply@) is Some,
        skew_ratio_spec(*pool) is Some,
    ensures
        r.base_tokens_amount == pool.base_tokens_amount,
        r.virtual_balance == pool.virtual_balance,
        r.unrealized_pool_funding == pool.unrealized_pool_funding,
        r.pnl_snap == pool.pnl_snap,
        r.skew_ratio@ == skew_ratio_spec(*pool).unwrap(),
        r.skew_ratio_cap == config.exchange_config.skew_ratio_cap,
        r.lp_supply == lp_supply,
        r.lp_price@ == lp_price_spec(*pool, lp_supply@).unwrap(),
{
    let value = pool_value(pool).max(Decimal::one());
    let lp_price = if lp_supply.is_zero() {
        Decimal::one()
    } else {
        value.div(lp_supply)
    };
    PoolDetails {
        base_tokens_amount: pool.base_tokens_amount,
        virtual_balance: pool.virtual_balance,
        unrealized_pool_funding: pool.unrealized_pool_funding,
        pnl_snap: pool.pnl_snap,
        skew_ratio: skew_ratio(pool),
        skew_ratio_cap: config.exchange_config.skew_ratio_cap,
        lp_supply,
        lp_price,
    }
}

/// A pair's pool position and settings, for a pair whose both were loaded.
pub fn pair_details(config: &VirtualConfig, pool: &VirtualLiquidityPool, pair_id: &PairId) -> (r: PairDetails)
    requires
        config.has_pair(pair_id@),
        pool.has_position(pair_id@),
    ensures
        r.pair_id@ == pair_id@,
        r.pool_position == pool.position_of(pair_id@),
        r.pair_config.same_as(config.pair_of(pair_id@)),
{
    PairDetails {
        pair_id: pair_id.clone(),
        pool_position: pool.position(pair_id),
        pair_config: config.pair_config(pair_id).copy(),
    }
}

/// The details of each of the pairs, in the given order.
pub fn pairs_details(config: &VirtualConfig, pool: &VirtualLiquidityPool, pair_ids: &Vec<PairId>) -> (r: Vec<PairDetails>)
    requires
        forall|i: int| 0 <= i < pair_ids@.len() ==> config.has_pair((#[trigger] pair_ids@[i])@) && pool.has_position(pair_ids@[i]@),
    ensures
        r@.len() == pair_ids@.len(),
        forall|i: int|
            0 <= i < r@.len() ==> (#[trigger] r@[i]).pair_id@ == pair_ids@[i]@ && r@[i].pool_position == pool.position_of(
                pair_ids@[i]@,
            ) && r@[i].pair_config.same_as(config.pair_of(pair_ids@[i]@)),
{
    let mut r: Vec<PairDetails> = Vec::new();
    let mut i: usize = 0;
    while i < pair_ids.len()
        invariant
            i <= pair_ids@.len(),
            r@.len() == i,
            forall|j: int| 0 <= j < pair_ids@.len() ==> config.has_pair((#[trigger] pair_ids@[j])@) && pool.has_position(pair_ids@[j]@),
            forall|j: int|
                0 <= j < i ==> (#[trigger] r@[j]).pair_id@ == pair_ids@[j]@ && r@[j].pool_position == pool.position_of(
                    pair_ids@[j]@,
                ) && r@[j].pair_config.same_as(config.pair_of(pair_ids@[j]@)),
        decreases pair_ids@.len() - i,
    {
        r.push(pair_details(config, pool, &pair_ids[i]));
        i = i + 1;
    }
    r
}

} // verus!

use vstd::prelude::*;
use crate::account::{KeeperRequest, VirtualMarginAccount, is_live};
use crate::common::{ComponentAddress, ExchangeError, ListIndex, PairId, ResourceAddress};
use crate::config::VirtualConfig;
use crate::decimal::{Decimal, abs, in_range};
use crate::exchange::assert_active_requests_limit;
use crate::requests::{
    MarginOrderView, PriceLimit, RemoveCollateralView, Request, RequestIndexRef, RequestMarginOrder,
    RequestRemoveCollateral, RequestView, SlippageLimit, STATUS_ACTIVE, STATUS_DORMANT,
};

verus! {

/// The most requests that an order may activate or cancel.
pub const EFFECTED_REQUESTS_MAX: usize = 2;

/// The most claims that a request to remove collateral may make.
pub const CLAIMS_MAX: usize = 10;

/// The indexes that references resolve to, for a request made at `request_index`.
pub open spec fn resolved(refs: Seq<RequestIndexRef>, request_index: u64) -> Seq<ListIndex> {
    refs.map_values(|r: RequestIndexRef| r.spec_resolve(request_index))
}

/// Resolves references to requests made at `request_index`.
pub fn resolve_refs(refs: &Vec<RequestIndexRef>, request_index: ListIndex) -> (r: Vec<ListIndex>)
    requires
        forall|i: int| 0 <= i < refs@.len() ==> (#[trigger] refs@[i]).resolvable(request_index),
    ensures
        r@ == resolved(refs@, request_index),
{
    let mut r: Vec<ListIndex> = Vec::new();
    let mut i: usize = 0;
    while i < refs.len()
        invariant
            i <= refs@.len(),
            forall|j: int| 0 <= j < refs@.len() ==> (#[trigger] refs@[j]).resolvable(request_index),
            r@ == resolved(refs@, request_index).subrange(0, i as int),
        decreases refs@.len() - i,
    {
        r.push(refs[i].resolve(request_index));
        i = i + 1;
        assert(r@ =~= resolved(refs@, request_index).subrange(0, i as int));
    }
    assert(r@ =~= resolved(refs@, request_index));
    r
}

/// Whether a request was added with the given content, window and status.
pub open spec fn added_as(
    added: KeeperRequest,
    request: RequestView,
    now: i64,
    delay_seconds: u64,
    expiry_seconds: u64,
    status: u8,
) -> bool {
    &&& added.request@ == request
    &&& added.submission == now + (delay_seconds as i64)
    &&& added.expiry == now + (delay_seconds as i64) + (expiry_seconds as i64)
    &&& added.status == status
    &&& added.effected_components@.len() == 0
}

/// Whether a request's window stays within the range of times.
pub open spec fn window_fits(now: i64, delay_seconds: u64, expiry_seconds: u64) -> bool {
    &&& i64::MIN <= now + (delay_seconds as i64) <= i64::MAX
    &&& i64::MIN <= now + (delay_seconds as i64) + (expiry_seconds as i64) <= i64::MAX
}

/// Makes a margin order request at time `now` for the account: refused when
/// the order's size is under the pair's minimum trade size, when it names more
/// than two requests to activate or to cancel (given relative to the new
/// request), when the status is neither active nor dormant, or when the
/// account would have too many active requests. Hands back the new request's
/// index, the account's request count.
pub fn margin_order_request(
    config: &VirtualConfig,
    account: &mut VirtualMarginAccount,
    now: i64,
    delay_seconds: u64,
    expiry_seconds: u64,
    pair_id: PairId,
    amount: Decimal,
    reduce_only: bool,
    price_limit: PriceLimit,
    slippage_limit: SlippageLimit,
    activate_requests: &Vec<RequestIndexRef>,
    cancel_requests: &Vec<RequestIndexRef>,
    status: u8,
) -> (r: Result<ListIndex, ExchangeError>)
    requires
        config.has_pair(pair_id@),
        in_range(abs(amount@)),
        window_fits(now, delay_seconds, expiry_seconds),
        old(account).active_requests_len < usize::MAX,
        forall|i: int| 0 <= i < activate_requests@.len() ==> (#[trigger] activate_requests@[i]).resolvable(
            old(account).requests_len,
        ),
        forall|i: int| 0 <= i < cancel_requests@.len() ==> (#[trigger] cancel_requests@[i]).resolvable(
            old(account).requests_len,
        ),
    ensures
        abs(amount@) < config.pair_of(pair_id@).trade_size_min@ ==> r == Err::<ListIndex, ExchangeError>(
            ExchangeError::TradeSizeMinNotMet,
        ),
        abs(amount@) >= config.pair_of(pair_id@).trade_size_min@ && (activate_requests@.len() > 2 || cancel_requests@.len() > 2)
            ==> r == Err::<ListIndex, ExchangeError>(ExchangeError::EffectedRequestsTooMany),
        abs(amount@) >= config.pair_of(pair_id@).trade_size_min@ && activate_requests@.len() <= 2 && cancel_requests@.len() <= 2
            && !is_live(status) ==> r == Err::<ListIndex, ExchangeError>(ExchangeError::InvalidRequestStatus),
        abs(amount@) >= config.pair_of(pair_id@).trade_size_min@ && activate_requests@.len() <= 2 && cancel_requests@.len() <= 2
            && is_live(status) ==> {
            &&& old(account).active_requests_len + 1 > config.exchange_config.active_requests_max ==> r == Err::<
                ListIndex,
                ExchangeError,
            >(ExchangeError::ActiveRequestsTooMany)
            &&& old(account).active_requests_len + 1 <= config.exchange_config.active_requests_max ==> r == Ok::<
                ListIndex,
                ExchangeError,
            >(old(account).requests_len)
        },
        r is Ok ==> {
            &&& final(account).request_additions@ == old(account).request_additions@.push(
                final(account).request_additions@.last(),
            )
            &&& added_as(
                final(account).request_additions@.last(),
                RequestView::MarginOrder(
                    MarginOrderView {
                        pair_id: pair_id@,
                        amount,
                        reduce_only,
                        price_limit,
                        slippage_limit,
                        activate_requests: resolved(activate_requests@, old(account).requests_len),
                        cancel_requests: resolved(cancel_requests@, old(account).requests_len),
                    },
                ),
                now,
                delay_seconds,
                expiry_seconds,
                status,
            )
            &&& final(account).active_requests_len == old(account).active_requests_len + 1
            &&& final(account).active_request_additions@ == old(account).active_request_additions@.push(
                old(account).requests_len,
            )
            &&& final(account).requests() == old(account).requests()
            &&& final(account).same_but_requests(*old(account))
        },
{
    let pair_config = config.pair_config(&pair_id);
    if amount.abs().lt(pair_config.trade_size_min) {
        return Err(ExchangeError::TradeSizeMinNotMet);
    }
    if activate_requests.len() > EFFECTED_REQUESTS_MAX || cancel_requests.len() > EFFECTED_REQUESTS_MAX {
        return Err(ExchangeError::EffectedRequestsTooMany);
    }
    let request_index = account.requests_len();
    let activate = resolve_refs(activate_requests, request_index);
    let cancel = resolve_refs(cancel_requests, request_index);
    let request = Request::MarginOrder(
        RequestMarginOrder {
            pair_id,
            amount,
            reduce_only,
            price_limit,
            slippage_limit,
            activate_requests: activate,
            cancel_requests: cancel,
        },
    );
    account.push_request(request, delay_seconds, expiry_seconds, status, Vec::new(), now)?;
    assert_active_requests_limit(config, account)?;
    Ok(request_index)
}

/// Makes a request at time `now` to move collateral out of the account to
/// `target_account`: refused when it makes more than ten claims or when the
/// account would have too many active requests. Hands back the new request's
/// index, the account's request count.
pub fn remove_collateral_request(
    config: &VirtualConfig,
    account: &mut VirtualMarginAccount,
    now: i64,
    expiry_seconds: u64,
    target_account: ComponentAddress,
    claims: Vec<(ResourceAddress, Decimal)>,
) -> (r: Result<ListIndex, ExchangeError>)
    requires
        window_fits(now, 0, expiry_seconds),
        old(account).active_requests_len < usize::MAX,
    ensures
        claims@.len() > 10 ==> r == Err::<ListIndex, ExchangeError>(ExchangeError::ClaimsTooMany),
        claims@.len() <= 10 && old(account).active_requests_len + 1 > config.exchange_config.active_requests_max ==> r
            == Err::<ListIndex, ExchangeError>(ExchangeError::ActiveRequestsTooMany),
        claims@.len() <= 10 && old(account).active_requests_len + 1 <= config.exchange_config.active_requests_max ==> r
            == Ok::<ListIndex, ExchangeError>(old(account).requests_len),
        r is Ok ==> {
            let added = final(account).request_additions@.last();
            &&& final(account).request_additions@ == old(account).request_additions@.push(added)
            &&& added.request@ == RequestView::RemoveCollateral(RemoveCollateralView { target_account, claims: claims@ })
            &&& added.submission == now && added.expiry == now + (expiry_seconds as i64)
            &&& added.status == STATUS_ACTIVE
            &&& added.effected_components@ == seq![target_account]
            &&& final(account).active_requests_len == old(account).active_requests_len + 1
            &&& final(account).requests() == old(account).requests()
            &&& final(account).same_but_requests(*old(account))
        },
{
    if claims.len() > CLAIMS_MAX {
        return Err(ExchangeError::ClaimsTooMany);
    }
    let request = Request::RemoveCollateral(RequestRemoveCollateral { target_account, claims });
    let request_index = account.requests_len();
    account.push_request(request, 0, expiry_seconds, STATUS_ACTIVE, vec![target_account], now)?;
    assert_active_requests_limit(config, account)?;
    Ok(request_index)
}

/// The indexes of the take-profit and stop-loss requests that follow an order
/// made at index `order` (each when asked for; the stop-loss after the
/// take-profit).
pub open spec fn tp_sl_indexes(order: u64, tp: bool, sl: bool) -> (Option<u64>, Option<u64>) {
    (
        if tp { Some((order + 1) as u64) } else { None },
        if sl { Some((order + 1 + if tp { 1int } else { 0int }) as u64) } else { None },
    )
}

/// The indexes present among two optional ones, in order.
pub open spec fn present(a: Option<u64>, b: Option<u64>) -> Seq<ListIndex> {
    match (a, b) {
        (Some(x), Some(y)) => seq![x, y],
        (Some(x), None) => seq![x],
        (None, Some(y)) => seq![y],
        (None, None) => Seq::empty(),
    }
}

/// The price limit of a take-profit on an order of `amount` at `price`: at or
/// above it for a long, at or below for a short.
pub open spec fn tp_limit(amount: int, price: Decimal) -> PriceLimit {
    if amount > 0 { PriceLimit::Gte(price) } else { PriceLimit::Lte(price) }
}

/// The price limit of a stop-loss on an order of `amount` at `price`.
pub open spec fn sl_limit(amount: int, price: Decimal) -> PriceLimit {
    if amount > 0 { PriceLimit::Lte(price) } else { PriceLimit::Gte(price) }
}

/// Whether a margin order request was added with these terms, window and status.
pub open spec fn order_added(
    added: KeeperRequest,
    pair_id: Seq<char>,
    amount: int,
    reduce_only: bool,
    price_limit: PriceLimit,
    slippage_limit: SlippageLimit,
    activate: Seq<ListIndex>,
    cancel: Seq<ListIndex>,
    now: i64,
    delay_seconds: u64,
    expiry_seconds: u64,
    status: u8,
) -> bool {
    &&& added.request@ matches RequestView::MarginOrder(v) && v.pair_id == pair_id && v.amount@ == amount && v.reduce_only
        == reduce_only && v.price_limit == price_limit && v.slippage_limit == slippage_limit && v.activate_requests
        == activate && v.cancel_requests == cancel
    &&& added.submission == now + (delay_seconds as i64)
    &&& added.expiry == now + (delay_seconds as i64) + (expiry_seconds as i64)
    &&& added.status == status
    &&& added.effected_components@.len() == 0
}

/// Makes an order request at time `now`, with an optional take-profit and an
/// optional stop-loss: the order is active and activates them when it runs;
/// they are dormant, close the order's size (only reducing) at their prices,
/// and each cancels the other. Refused when the order's size is under the
/// pair's minimum trade size or when the account would have too many active
/// requests. Hands back the indexes of the order, the take-profit and the
/// stop-loss.
pub fn margin_order_tp_sl_request(
    config: &VirtualConfig,
    account: &mut VirtualMarginAccount,
    now: i64,
    delay_seconds: u64,
    expiry_seconds: u64,
    pair_id: PairId,
    amount: Decimal,
    reduce_only: bool,
    price_limit: PriceLimit,
    slippage_limit: SlippageLimit,
    price_tp: Option<Decimal>,
    price_sl: Option<Decimal>,
) -> (r: Result<(ListIndex, Option<ListIndex>, Option<ListIndex>), ExchangeError>)
    requires
        config.has_pair(pair_id@),
        in_range(abs(amount@)),
        in_range(-amount@),
        window_fits(now, delay_seconds, expiry_seconds),
        old(account).active_requests_len + 3 < usize::MAX,
        old(account).requests_len + 2 <= u64::MAX,
    ensures
        ({
            let l = old(account).requests_len;
            let (tp, sl) = tp_sl_indexes(l, price_tp is Some, price_sl is Some);
            let n = 1 + (if price_tp is Some { 1int } else { 0int }) + (if price_sl is Some { 1int } else { 0int });
            let k = old(account).request_additions@.len() as int;
            let adds = final(account).request_additions@;
            &&& abs(amount@) < config.pair_of(pair_id@).trade_size_min@ ==> r == Err::<
                (ListIndex, Option<ListIndex>, Option<ListIndex>),
                ExchangeError,
            >(ExchangeError::TradeSizeMinNotMet)
            &&& abs(amount@) >= config.pair_of(pair_id@).trade_size_min@ && old(account).active_requests_len + n
                > config.exchange_config.active_requests_max ==> r == Err::<
                (ListIndex, Option<ListIndex>, Option<ListIndex>),
                ExchangeError,
            >(ExchangeError::ActiveRequestsTooMany)
            &&& abs(amount@) >= config.pair_of(pair_id@).trade_size_min@ && old(account).active_requests_len + n
                <= config.exchange_config.active_requests_max ==> r == Ok::<
                (ListIndex, Option<ListIndex>, Option<ListIndex>),
                ExchangeError,
            >((l, tp, sl))
            &&& r is Ok ==> {
                &&& adds.len() == k + n
                &&& adds.subrange(0, k) == old(account).request_additions@
                &&& order_added(adds[k], pair_id@, amount@, reduce_only, price_limit, slippage_limit, present(tp, sl),
                    Seq::empty(), now, delay_seconds, expiry_seconds, STATUS_ACTIVE)
                &&& price_tp matches Some(price) ==> order_added(adds[k + 1], pair_id@, -amount@, true, tp_limit(amount@, price),
                    slippage_limit, Seq::empty(), present(None, sl), now, delay_seconds, expiry_seconds, STATUS_DORMANT)
                &&& price_sl matches Some(price) ==> order_added(adds[k + n - 1], pair_id@, -amount@, true, sl_limit(amount@, price),
                    slippage_limit, Seq::empty(), present(tp, None), now, delay_seconds, expiry_seconds, STATUS_DORMANT)
                &&& final(account).active_requests_len == old(account).active_requests_len + n
                &&& final(account).requests() == old(account).requests()
                &&& final(account).same_but_requests(*old(account))
            }
        }),
{
    let pair_config = config.pair_config(&pair_id);
    if amount.abs().lt(pair_config.trade_size_min) {
        return Err(ExchangeError::TradeSizeMinNotMet);
    }
    let ghost k: int = account.request_additions@.len() as int;
    let ghost a0 = *account;
    let index_order = account.requests_len();
    let mut next = index_order;
    let mut activate_order: Vec<ListIndex> = Vec::new();
    let mut cancel_tp: Vec<ListIndex> = Vec::new();
    let mut cancel_sl: Vec<ListIndex> = Vec::new();
    let index_tp = match price_tp {
        Some(_) => {
            let index = next + 1;
            next = next + 1;
            activate_order.push(index);
            cancel_sl.push(index);
            Some(index)
        },
        None => None,
    };
    let index_sl = match price_sl {
        Some(_) => {
            let index = next + 1;
            activate_order.push(index);
            cancel_tp.push(index);
            Some(index)
        },
        None => None,
    };
    proof {
        assert(activate_order@ =~= present(index_tp, index_sl));
        assert(cancel_tp@ =~= present(None, index_sl));
        assert(cancel_sl@ =~= present(index_tp, None));
    }
    let order = Request::MarginOrder(
        RequestMarginOrder {
            pair_id: pair_id.clone(),
            amount,
            reduce_only,
            price_limit,
            slippage_limit,
            activate_requests: activate_order,
            cancel_requests: Vec::new(),
        },
    );
    let _ = account.push_request(order, delay_seconds, expiry_seconds, STATUS_ACTIVE, Vec::new(), now);
    let ghost a1 = *account;
    match price_tp {
        Some(price) => {
            let limit = if amount.is_positive() { PriceLimit::Gte(price) } else { PriceLimit::Lte(price) };
            let tp = Request::MarginOrder(
                RequestMarginOrder {
                    pair_id: pair_id.clone(),
                    amount: amount.neg(),
                    reduce_only: true,
                    price_limit: limit,
                    slippage_limit,
                    activate_requests: Vec::new(),
                    cancel_requests: cancel_tp,
                },
            );
            let _ = account.push_request(tp, delay_seconds, expiry_seconds, STATUS_DORMANT, Vec::new(), now);
        },
        None => {},
    }
    let ghost a2 = *account;
    match price_sl {
        Some(price) => {
            let limit = if amount.is_positive() { PriceLimit::Lte(price) } else { PriceLimit::Gte(price) };
            let sl = Request::MarginOrder(
                RequestMarginOrder {
                    pair_id: pair_id.clone(),
                    amount: amount.neg(),
                    reduce_only: true,
                    price_limit: limit,
                    slippage_limit,
                    activate_requests: Vec::new(),
                    cancel_requests: cancel_sl,
                },
            );
            let _ = account.push_request(sl, delay_seconds, expiry_seconds, STATUS_DORMANT, Vec::new(), now);
        },
        None => {},
    }
    proof {
        let adds = account.request_additions@;
        assert(adds.subrange(0, k) =~= a0.request_additions@);
        assert(adds[k] == a1.request_additions@[k]);
        if price_tp is Some {
            assert(adds[k + 1] == a2.request_additions@[k + 1]);
        }
    }
    assert_active_requests_limit(config, account)?;
    Ok((index_order, index_tp, index_sl))
}

} // verus!

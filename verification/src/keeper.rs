use vstd::prelude::*;
use crate::account::{VirtualMarginAccount, coll_views, qualifying, status_applied};
use crate::collateral::{remove_collateral, remove_collateral_spec};
use crate::common::{ExchangeError, ResourceAddress};
use crate::config::VirtualConfig;
use crate::decimal::Decimal;
use crate::oracle::VirtualOracle;
use crate::pool::VirtualLiquidityPool;
use crate::requests::{Request, STATUS_ACTIVE, STATUS_CANCELLED};
use crate::trade::{MarginOrderResult, margin_order, margin_order_spec, order_requests};

verus! {

/// What carrying out a request did.
pub enum Executed {
    /// The collateral paid out to the request's target account.
    Collateral(Vec<(ResourceAddress, Decimal)>),
    /// The trade a margin order made.
    Order(MarginOrderResult),
}

/// Whether a request can be carried out on these working copies: its claims
/// are not negative and removing them can be computed, or the margin order can
/// be computed and the requests it names are known.
pub open spec fn executable(
    config: VirtualConfig,
    pool: VirtualLiquidityPool,
    account: VirtualMarginAccount,
    oracle: VirtualOracle,
    now: i64,
    request: Request,
    base_resource: ResourceAddress,
    places: u8,
) -> bool {
    match request {
        Request::RemoveCollateral(r) => {
            &&& forall|i: int| 0 <= i < r.claims@.len() ==> #[trigger] r.claims@[i].1@ >= 0
            &&& remove_collateral_spec(config, pool.state(), account.state(), oracle, coll_views(r.claims@), base_resource, places) is Some
        },
        Request::MarginOrder(r) => {
            let reqs = account.requests();
            let r1 = status_applied(reqs, qualifying(reqs, r.activate_requests@, STATUS_ACTIVE), STATUS_ACTIVE);
            &&& margin_order_spec(config, pool.state(), account.state(), oracle, now, r@) is Some
            &&& forall|i: int| 0 <= i < r.activate_requests@.len() ==> account.knows(r.activate_requests@[i])
            &&& forall|i: int| 0 <= i < r.cancel_requests@.len() ==> account.knows(r.cancel_requests@[i])
            &&& qualifying(r1, r.cancel_requests@, STATUS_CANCELLED).len() <= account.active_requests_len
        },
    }
}

/// Carries out a processed request at time `now`: a collateral removal pays
/// its claims out of the account (see [`remove_collateral`]), a margin order
/// trades (see [`margin_order`]).
pub fn execute_request(
    config: &VirtualConfig,
    pool: &mut VirtualLiquidityPool,
    account: &mut VirtualMarginAccount,
    oracle: &VirtualOracle,
    now: i64,
    request: Request,
    base_resource: ResourceAddress,
    places: u8,
) -> (r: Result<Executed, ExchangeError>)
    requires
        executable(*config, *old(pool), *old(account), *oracle, now, request, base_resource, places),
    ensures
        match request {
            Request::RemoveCollateral(rc) => match remove_collateral_spec(
                *config,
                old(pool).state(),
                old(account).state(),
                *oracle,
                coll_views(rc.claims@),
                base_resource,
                places,
            ).unwrap() {
                Ok((p, a, out)) => r matches Ok(Executed::Collateral(x)) && final(pool).state() == p && final(account).state()
                    == a && coll_views(x@) == out && final(account).requests() == old(account).requests()
                    && final(account).address == old(account).address && final(account).active_requests_len == old(
                    account,
                ).active_requests_len,
                Err(e) => r == Err::<Executed, ExchangeError>(e),
            },
            Request::MarginOrder(mo) => match margin_order_spec(*config, old(pool).state(), old(account).state(), *oracle, now, mo@).unwrap() {
                Ok(o) => r matches Ok(Executed::Order(x)) && {
                    let reqs = old(account).requests();
                    let r1 = status_applied(reqs, qualifying(reqs, mo.activate_requests@, STATUS_ACTIVE), STATUS_ACTIVE);
                    let cancelled = qualifying(r1, mo.cancel_requests@, STATUS_CANCELLED);
                    &&& final(pool).state() == o.pool
                    &&& final(account).state() == o.account
                    &&& x.price == oracle.price_of(mo.pair_id@)
                    &&& x.amount_close@ == o.amount_close && x.amount_open@ == o.amount_open
                    &&& x.pnl@ == o.pnl && x.funding@ == o.funding
                    &&& (x.fee_pool@, x.fee_protocol@, x.fee_treasury@, x.fee_referral@) == o.fees
                    &&& x.activated_requests@ == qualifying(reqs, mo.activate_requests@, STATUS_ACTIVE)
                    &&& x.cancelled_requests@ == cancelled
                    &&& final(account).requests() == order_requests(reqs, mo.activate_requests@, mo.cancel_requests@)
                    &&& final(account).active_requests_len == old(account).active_requests_len - cancelled.len()
                    &&& final(account).address == old(account).address
                },
                Err(e) => r == Err::<Executed, ExchangeError>(e),
            },
        },
{
    match request {
        Request::RemoveCollateral(rc) => {
            let paid = remove_collateral(config, pool, account, oracle, &rc.claims, base_resource, places)?;
            Ok(Executed::Collateral(paid))
        },
        Request::MarginOrder(mo) => {
            let result = margin_order(config, pool, account, oracle, now, &mo)?;
            Ok(Executed::Order(result))
        },
    }
}

} // verus!

use vstd::prelude::*;
use crate::common::{ComponentAddress, ListIndex, ListIndexOffset, PairId, ResourceAddress};
use crate::decimal::{Decimal, div_attos, in_range, in_quotient_range, mul_attos, scale, two_191};

verus! {

/// A request waits for its turn (for instance a take-profit before its order runs).
pub const STATUS_DORMANT: u8 = 0;

/// A request a keeper may process.
pub const STATUS_ACTIVE: u8 = 1;

pub const STATUS_EXECUTED: u8 = 2;

pub const STATUS_CANCELLED: u8 = 3;

pub const STATUS_EXPIRED: u8 = 4;

/// A bound that the oracle price must meet for an order to execute.
#[derive(Clone, Copy, Debug)]
pub enum PriceLimit {
    Unlimited,
    Gte(Decimal),
    Lte(Decimal),
}

impl PriceLimit {
    pub open spec fn spec_compare(self, value: int) -> bool {
        match self {
            PriceLimit::Unlimited => true,
            PriceLimit::Gte(limit) => value >= limit@,
            PriceLimit::Lte(limit) => value <= limit@,
        }
    }

    /// Whether `value` meets the limit.
    pub fn compare(&self, value: Decimal) -> (r: bool)
        ensures
            r == self.spec_compare(value@),
    {
        match self {
            PriceLimit::Unlimited => true,
            PriceLimit::Gte(limit) => value.ge(*limit),
            PriceLimit::Lte(limit) => value.le(*limit),
        }
    }

    /// The limit's price (zero when there is none).
    pub fn price(&self) -> (r: Decimal)
        ensures
            r@ == match self {
                PriceLimit::Unlimited => 0,
                PriceLimit::Gte(limit) => limit@,
                PriceLimit::Lte(limit) => limit@,
            },
    {
        match self {
            PriceLimit::Unlimited => Decimal::zero(),
            PriceLimit::Gte(limit) => *limit,
            PriceLimit::Lte(limit) => *limit,
        }
    }

    /// The comparison that the limit makes, as it is shown in messages.
    pub fn op(&self) -> (r: &'static str)
        ensures
            r@ == match self {
                PriceLimit::Unlimited => "True"@,
                PriceLimit::Gte(_) => ">="@,
                PriceLimit::Lte(_) => "<="@,
            },
    {
        match self {
            PriceLimit::Unlimited => "True",
            PriceLimit::Gte(_) => ">=",
            PriceLimit::Lte(_) => "<=",
        }
    }
}

/// A bound on the fees that an order may pay, relative to its value or absolute.
#[derive(Clone, Copy, Debug)]
pub enum SlippageLimit {
    Unlimited,
    Percent(Decimal),
    Absolute(Decimal),
}

/// `amount * limit / 100`, as the ledger computes it.
pub open spec fn percent_of(amount: int, limit: int) -> int {
    div_attos(mul_attos(amount, limit), 100 * scale())
}

impl SlippageLimit {
    /// Whether the limit can be evaluated on `amount` without overflow.
    pub open spec fn computable(self, amount: int) -> bool {
        match self {
            SlippageLimit::Percent(limit) => in_quotient_range(mul_attos(amount, limit@)) && in_quotient_range(
                percent_of(amount, limit@),
            ),
            _ => true,
        }
    }

    /// The slippage that the limit allows on a trade of value `amount`.
    pub open spec fn spec_allowed(self, amount: int) -> int {
        match self {
            SlippageLimit::Unlimited => two_191() - 1,
            SlippageLimit::Percent(limit) => percent_of(amount, limit@),
            SlippageLimit::Absolute(limit) => limit@,
        }
    }

    pub open spec fn spec_compare(self, slippage: int, amount: int) -> bool {
        match self {
            SlippageLimit::Unlimited => true,
            _ => slippage <= self.spec_allowed(amount),
        }
    }

    /// Whether `slippage` stays within the limit on a trade of value `amount`.
    pub fn compare(&self, slippage: Decimal, amount: Decimal) -> (r: bool)
        requires
            self.computable(amount@),
        ensures
            r == self.spec_compare(slippage@, amount@),
    {
        match self {
            SlippageLimit::Unlimited => true,
            SlippageLimit::Percent(limit) => {
                let allowed = amount.mul(*limit).div(Decimal::from_int(100));
                slippage.le(allowed)
            },
            SlippageLimit::Absolute(limit) => slippage.le(*limit),
        }
    }

    /// The slippage that the limit allows on a trade of value `amount`
    /// (the largest decimal when there is no limit).
    pub fn allowed_slippage(&self, amount: Decimal) -> (r: Decimal)
        requires
            self.computable(amount@),
        ensures
            r@ == self.spec_allowed(amount@),
    {
        match self {
            SlippageLimit::Unlimited => Decimal::max_value(),
            SlippageLimit::Percent(limit) => amount.mul(*limit).div(Decimal::from_int(100)),
            SlippageLimit::Absolute(limit) => *limit,
        }
    }
}

/// A reference to a request: its index, or its offset from the request being made.
#[derive(Clone, Copy, Debug)]
pub enum RequestIndexRef {
    Index(ListIndex),
    RelativeIndex(ListIndexOffset),
}

impl RequestIndexRef {
    /// Whether the reference resolves from `request_index` (a relative one must
    /// point forward and stay within the index range).
    pub open spec fn resolvable(self, request_index: u64) -> bool {
        match self {
            RequestIndexRef::Index(_) => true,
            RequestIndexRef::RelativeIndex(offset) => offset >= 0 && request_index + offset
                <= u64::MAX,
        }
    }

    pub open spec fn spec_resolve(self, request_index: u64) -> u64 {
        match self {
            RequestIndexRef::Index(index) => index,
            RequestIndexRef::RelativeIndex(offset) => (request_index + offset) as u64,
        }
    }

    /// The index that the reference points to, for a request made at `request_index`.
    pub fn resolve(&self, request_index: ListIndex) -> (r: ListIndex)
        requires
            self.resolvable(request_index),
        ensures
            r == self.spec_resolve(request_index),
    {
        match self {
            RequestIndexRef::Index(index) => *index,
            RequestIndexRef::RelativeIndex(offset) => {
                let offset = *offset as u64;
                request_index + offset
            },
        }
    }
}

/// A request to move collateral out of an account.
#[derive(Debug)]
pub struct RequestRemoveCollateral {
    pub target_account: ComponentAddress,
    pub claims: Vec<(ResourceAddress, Decimal)>,
}

/// A request to trade.
#[derive(Debug)]
pub struct RequestMarginOrder {
    pub pair_id: PairId,
    pub amount: Decimal,
    pub reduce_only: bool,
    pub price_limit: PriceLimit,
    pub slippage_limit: SlippageLimit,
    pub activate_requests: Vec<ListIndex>,
    pub cancel_requests: Vec<ListIndex>,
}

#[derive(Debug)]
pub enum Request {
    RemoveCollateral(RequestRemoveCollateral),
    MarginOrder(RequestMarginOrder),
}

/// The content of a [`RequestRemoveCollateral`].
pub struct RemoveCollateralView {
    pub target_account: ComponentAddress,
    pub claims: Seq<(ResourceAddress, Decimal)>,
}

/// The content of a [`RequestMarginOrder`].
pub struct MarginOrderView {
    pub pair_id: Seq<char>,
    pub amount: Decimal,
    pub reduce_only: bool,
    pub price_limit: PriceLimit,
    pub slippage_limit: SlippageLimit,
    pub activate_requests: Seq<ListIndex>,
    pub cancel_requests: Seq<ListIndex>,
}

/// The content of a [`Request`].
pub enum RequestView {
    RemoveCollateral(RemoveCollateralView),
    MarginOrder(MarginOrderView),
}

impl View for RequestRemoveCollateral {
    type V = RemoveCollateralView;

    open spec fn view(&self) -> RemoveCollateralView {
        RemoveCollateralView { target_account: self.target_account, claims: self.claims@ }
    }
}

impl View for RequestMarginOrder {
    type V = MarginOrderView;

    open spec fn view(&self) -> MarginOrderView {
        MarginOrderView {
            pair_id: self.pair_id@,
            amount: self.amount,
            reduce_only: self.reduce_only,
            price_limit: self.price_limit,
            slippage_limit: self.slippage_limit,
            activate_requests: self.activate_requests@,
            cancel_requests: self.cancel_requests@,
        }
    }
}

impl View for Request {
    type V = RequestView;

    open spec fn view(&self) -> RequestView {
        match self {
            Request::RemoveCollateral(r) => RequestView::RemoveCollateral(r@),
            Request::MarginOrder(r) => RequestView::MarginOrder(r@),
        }
    }
}

/// A copy of a list of request indexes.
pub fn copy_indexes(v: &Vec<ListIndex>) -> (r: Vec<ListIndex>)
    ensures
        r@ == v@,
{
    let mut r: Vec<ListIndex> = Vec::new();
    let mut i: usize = 0;
    while i < v.len()
        invariant
            i <= v@.len(),
            r@ == v@.subrange(0, i as int),
        decreases v@.len() - i,
    {
        r.push(v[i]);
        i = i + 1;
        assert(r@ =~= v@.subrange(0, i as int));
    }
    assert(r@ =~= v@);
    r
}

/// A copy of a list of claims.
pub fn copy_claims(v: &Vec<(ResourceAddress, Decimal)>) -> (r: Vec<(ResourceAddress, Decimal)>)
    ensures
        r@ == v@,
{
    let mut r: Vec<(ResourceAddress, Decimal)> = Vec::new();
    let mut i: usize = 0;
    while i < v.len()
        invariant
            i <= v@.len(),
            r@ == v@.subrange(0, i as int),
        decreases v@.len() - i,
    {
        let (a, b) = v[i];
        r.push((a, b));
        i = i + 1;
        assert(r@ =~= v@.subrange(0, i as int));
    }
    assert(r@ =~= v@);
    r
}

impl Request {
    /// A copy of the request.
    pub fn copy(&self) -> (r: Request)
        ensures
            r@ == self@,
    {
        match self {
            Request::RemoveCollateral(req) => Request::RemoveCollateral(
                RequestRemoveCollateral {
                    target_account: req.target_account,
                    claims: copy_claims(&req.claims),
                },
            ),
            Request::MarginOrder(req) => Request::MarginOrder(
                RequestMarginOrder {
                    pair_id: req.pair_id.clone(),
                    amount: req.amount,
                    reduce_only: req.reduce_only,
                    price_limit: req.price_limit,
                    slippage_limit: req.slippage_limit,
                    activate_requests: copy_indexes(&req.activate_requests),
                    cancel_requests: copy_indexes(&req.cancel_requests),
                },
            ),
        }
    }
}

} // verus!

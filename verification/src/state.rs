use vstd::prelude::*;
use crate::account::{AccountPositionView, KeeperRequest, ReferralView, VirtualMarginAccount, coll_views, referral_view};
use crate::common::{ComponentAddress, ListIndex, ResourceAddress};
use crate::decimal::Decimal;
use crate::pool::{PoolPositionView, VirtualLiquidityPool};

verus! {

/// The numbers of a working copy of the pool.
pub struct PoolState {
    pub views: Map<Seq<char>, PoolPositionView>,
    /// Pairs whose positions were changed.
    pub updated: Set<Seq<char>>,
    pub base: int,
    pub virtual_balance: int,
    pub unrealized_pool_funding: int,
    pub skew_abs_snap: int,
    pub pnl_snap: int,
}

/// A working copy of an account: its numbers, and its requests with their
/// bookkeeping.
pub struct AccountState {
    pub address: ComponentAddress,
    pub positions: Seq<(Seq<char>, AccountPositionView)>,
    /// Pairs whose positions were changed.
    pub updated: Set<Seq<char>>,
    pub virtual_balance: int,
    pub referral: Option<ReferralView>,
    pub collaterals: Seq<(ResourceAddress, int)>,
    /// Whether the referrer was credited.
    pub rewarded: bool,
    /// The index from which requests are valid.
    pub valid_requests_start: ListIndex,
    /// How many requests the account has, and how many of them are active.
    pub requests_len: ListIndex,
    pub active_requests_len: usize,
    /// The requests it knows, by index, with their current statuses.
    pub requests: Map<ListIndex, KeeperRequest>,
    /// The changes to its requests not yet written back: the indexes of the
    /// requests whose status changed (their new statuses are in `requests`),
    /// requests added, and indexes that became active or stopped being active.
    pub pending: Set<ListIndex>,
    pub request_additions: Seq<KeeperRequest>,
    pub active_request_additions: Seq<ListIndex>,
    pub active_request_removals: Seq<ListIndex>,
}

impl VirtualLiquidityPool {
    pub open spec fn state(self) -> PoolState {
        PoolState {
            views: self.views(),
            updated: self.position_updates.view_map().dom(),
            base: self.base_tokens_amount@,
            virtual_balance: self.virtual_balance@,
            unrealized_pool_funding: self.unrealized_pool_funding@,
            skew_abs_snap: self.skew_abs_snap@,
            pnl_snap: self.pnl_snap@,
        }
    }
}

impl VirtualMarginAccount {
    pub open spec fn state(self) -> AccountState {
        AccountState {
            positions: self.position_views(),
            updated: self.positions_updated.view_map().dom(),
            virtual_balance: self.virtual_balance@,
            referral: referral_view(self.referral),
            collaterals: coll_views(self.collateral_balances.entries()),
            rewarded: self.referral_rewarded,
            address: self.address,
            valid_requests_start: self.valid_requests_start,
            requests_len: self.requests_len,
            active_requests_len: self.active_requests_len,
            requests: self.requests(),
            pending: self.request_updates.view_map().dom(),
            request_additions: self.request_additions@,
            active_request_additions: self.active_request_additions@,
            active_request_removals: self.active_request_removals@,
        }
    }
}

} // verus!

use vstd::prelude::*;
use crate::common::PairId;
use crate::decimal::{Decimal, in_range};
use crate::map::{AssocMap, MapKey};

verus! {

/// The pool's side of one trading pair: open interest, cost basis, snapshots
/// of skew and PnL, and the funding state.
#[derive(Clone, Copy, Debug)]
pub struct PoolPosition {
    pub oi_long: Decimal,
    pub oi_short: Decimal,
    pub cost: Decimal,
    pub skew_abs_snap: Decimal,
    pub pnl_snap: Decimal,
    pub funding_2_rate: Decimal,
    pub funding_long_index: Decimal,
    pub funding_short_index: Decimal,
    /// Seconds since the Unix epoch of the last pair update.
    pub last_update: i64,
    pub last_price: Decimal,
}

/// The numbers of a [`PoolPosition`].
pub struct PoolPositionView {
    pub oi_long: int,
    pub oi_short: int,
    pub cost: int,
    pub skew_abs_snap: int,
    pub pnl_snap: int,
    pub funding_2_rate: int,
    pub funding_long_index: int,
    pub funding_short_index: int,
    pub last_update: i64,
    pub last_price: int,
}

impl View for PoolPosition {
    type V = PoolPositionView;

    open spec fn view(&self) -> PoolPositionView {
        PoolPositionView {
            oi_long: self.oi_long@,
            oi_short: self.oi_short@,
            cost: self.cost@,
            skew_abs_snap: self.skew_abs_snap@,
            pnl_snap: self.pnl_snap@,
            funding_2_rate: self.funding_2_rate@,
            funding_long_index: self.funding_long_index@,
            funding_short_index: self.funding_short_index@,
            last_update: self.last_update,
            last_price: self.last_price@,
        }
    }
}

/// What the ledger's margin pool is told after an operation.
pub struct MarginPoolUpdates {
    pub position_updates: Vec<(PairId, PoolPosition)>,
    pub virtual_balance: Decimal,
    pub unrealized_pool_funding: Decimal,
    pub skew_abs_snap: Decimal,
    pub pnl_snap: Decimal,
}

/// The entries whose pairs are in `changed`, in order.
pub open spec fn changed_positions(entries: Seq<(PairId, PoolPosition)>, changed: Set<Seq<char>>) -> Seq<(PairId, PoolPosition)>
    decreases entries.len(),
{
    if entries.len() == 0 {
        Seq::empty()
    } else {
        let rest = changed_positions(entries.drop_last(), changed);
        if changed.contains(entries.last().0@) {
            rest.push(entries.last())
        } else {
            rest
        }
    }
}

/// A working copy of the margin pool: the positions of the pairs that an
/// operation touches and the pool's balances, with a record of the positions
/// that were changed.
pub struct VirtualLiquidityPool {
    pub positions: AssocMap<PairId, PoolPosition>,
    pub position_updates: AssocMap<PairId, ()>,
    pub base_tokens_amount: Decimal,
    pub virtual_balance: Decimal,
    pub unrealized_pool_funding: Decimal,
    pub skew_abs_snap: Decimal,
    pub pnl_snap: Decimal,
}

impl VirtualLiquidityPool {
    /// A working copy of the pool as the ledger holds it, with nothing changed yet.
    pub fn new(
        positions: AssocMap<PairId, PoolPosition>,
        base_tokens_amount: Decimal,
        virtual_balance: Decimal,
        unrealized_pool_funding: Decimal,
        skew_abs_snap: Decimal,
        pnl_snap: Decimal,
    ) -> (r: Self)
        ensures
            r.positions == positions,
            r.position_updates.entries().len() == 0,
            r.base_tokens_amount == base_tokens_amount,
            r.virtual_balance == virtual_balance,
            r.unrealized_pool_funding == unrealized_pool_funding,
            r.skew_abs_snap == skew_abs_snap,
            r.pnl_snap == pnl_snap,
    {
        VirtualLiquidityPool {
            positions,
            position_updates: AssocMap::new(),
            base_tokens_amount,
            virtual_balance,
            unrealized_pool_funding,
            skew_abs_snap,
            pnl_snap,
        }
    }

    /// What the ledger's margin pool is to be told: the changed pair
    /// positions and the pool's balances.
    pub fn realize(self) -> (r: MarginPoolUpdates)
        ensures
            r.position_updates@ == changed_positions(self.positions.entries(), self.position_updates.view_map().dom()),
            r.virtual_balance == self.virtual_balance,
            r.unrealized_pool_funding == self.unrealized_pool_funding,
            r.skew_abs_snap == self.skew_abs_snap,
            r.pnl_snap == self.pnl_snap,
    {
        let mut position_updates: Vec<(PairId, PoolPosition)> = Vec::new();
        let mut i: usize = 0;
        assert(self.positions.entries().subrange(0, 0) =~= Seq::<(PairId, PoolPosition)>::empty());
        while i < self.positions.len()
            invariant
                i <= self.positions.entries().len(),
                position_updates@ == changed_positions(
                    self.positions.entries().subrange(0, i as int),
                    self.position_updates.view_map().dom(),
                ),
            decreases self.positions.entries().len() - i,
        {
            let key = self.positions.key_at(i);
            proof {
                assert(self.positions.entries().subrange(0, i as int + 1).drop_last() =~= self.positions.entries().subrange(
                    0,
                    i as int,
                ));
            }
            if self.position_updates.contains_key(key) {
                position_updates.push((key.clone(), *self.positions.value_at(i)));
            }
            i = i + 1;
        }
        assert(self.positions.entries().subrange(0, self.positions.entries().len() as int) =~= self.positions.entries());
        MarginPoolUpdates {
            position_updates,
            virtual_balance: self.virtual_balance,
            unrealized_pool_funding: self.unrealized_pool_funding,
            skew_abs_snap: self.skew_abs_snap,
            pnl_snap: self.pnl_snap,
        }
    }

    /// Everything but the balances is as in `other`.
    pub open spec fn same_positions(self, other: Self) -> bool {
        &&& self.positions == other.positions
        &&& self.position_updates == other.position_updates
    }

    pub fn add_virtual_balance(&mut self, amount: Decimal)
        requires
            in_range(old(self).virtual_balance@ + amount@),
        ensures
            final(self).virtual_balance@ == old(self).virtual_balance@ + amount@,
            final(self).same_positions(*old(self)),
            final(self).base_tokens_amount == old(self).base_tokens_amount,
            final(self).unrealized_pool_funding == old(self).unrealized_pool_funding,
            final(self).skew_abs_snap == old(self).skew_abs_snap,
            final(self).pnl_snap == old(self).pnl_snap,
    {
        self.virtual_balance = self.virtual_balance.add(amount);
    }

    pub fn add_unrealized_pool_funding(&mut self, amount: Decimal)
        requires
            in_range(old(self).unrealized_pool_funding@ + amount@),
        ensures
            final(self).unrealized_pool_funding@ == old(self).unrealized_pool_funding@ + amount@,
            final(self).same_positions(*old(self)),
            final(self).base_tokens_amount == old(self).base_tokens_amount,
            final(self).virtual_balance == old(self).virtual_balance,
            final(self).skew_abs_snap == old(self).skew_abs_snap,
            final(self).pnl_snap == old(self).pnl_snap,
    {
        self.unrealized_pool_funding = self.unrealized_pool_funding.add(amount);
    }

    pub fn add_skew_abs_snap(&mut self, amount: Decimal)
        requires
            in_range(old(self).skew_abs_snap@ + amount@),
        ensures
            final(self).skew_abs_snap@ == old(self).skew_abs_snap@ + amount@,
            final(self).same_positions(*old(self)),
            final(self).base_tokens_amount == old(self).base_tokens_amount,
            final(self).virtual_balance == old(self).virtual_balance,
            final(self).unrealized_pool_funding == old(self).unrealized_pool_funding,
            final(self).pnl_snap == old(self).pnl_snap,
    {
        self.skew_abs_snap = self.skew_abs_snap.add(amount);
    }

    pub fn add_pnl_snap(&mut self, amount: Decimal)
        requires
            in_range(old(self).pnl_snap@ + amount@),
        ensures
            final(self).pnl_snap@ == old(self).pnl_snap@ + amount@,
            final(self).same_positions(*old(self)),
            final(self).base_tokens_amount == old(self).base_tokens_amount,
            final(self).virtual_balance == old(self).virtual_balance,
            final(self).unrealized_pool_funding == old(self).unrealized_pool_funding,
            final(self).skew_abs_snap == old(self).skew_abs_snap,
    {
        self.pnl_snap = self.pnl_snap.add(amount);
    }

    /// Records base tokens deposited into the pool.
    pub fn deposit(&mut self, amount: Decimal)
        requires
            in_range(old(self).base_tokens_amount@ + amount@),
        ensures
            final(self).base_tokens_amount@ == old(self).base_tokens_amount@ + amount@,
            final(self).same_positions(*old(self)),
            final(self).virtual_balance == old(self).virtual_balance,
            final(self).unrealized_pool_funding == old(self).unrealized_pool_funding,
            final(self).skew_abs_snap == old(self).skew_abs_snap,
            final(self).pnl_snap == old(self).pnl_snap,
    {
        self.base_tokens_amount = self.base_tokens_amount.add(amount);
    }

    /// Records base tokens withdrawn from the pool.
    pub fn withdraw(&mut self, amount: Decimal)
        requires
            in_range(old(self).base_tokens_amount@ - amount@),
        ensures
            final(self).base_tokens_amount@ == old(self).base_tokens_amount@ - amount@,
            final(self).same_positions(*old(self)),
            final(self).virtual_balance == old(self).virtual_balance,
            final(self).unrealized_pool_funding == old(self).unrealized_pool_funding,
            final(self).skew_abs_snap == old(self).skew_abs_snap,
            final(self).pnl_snap == old(self).pnl_snap,
    {
        self.base_tokens_amount = self.base_tokens_amount.sub(amount);
    }

    /// The base tokens the pool holds.
    pub fn base_tokens_amount(&self) -> (r: Decimal)
        ensures
            r == self.base_tokens_amount,
    {
        self.base_tokens_amount
    }

    /// The pool's virtual balance.
    pub fn virtual_balance(&self) -> (r: Decimal)
        ensures
            r == self.virtual_balance,
    {
        self.virtual_balance
    }

    /// The funding the pool has received but not yet realized.
    pub fn unrealized_pool_funding(&self) -> (r: Decimal)
        ensures
            r == self.unrealized_pool_funding,
    {
        self.unrealized_pool_funding
    }

    /// The pool's absolute skew, as of the pairs' last snapshots.
    pub fn skew_abs_snap(&self) -> (r: Decimal)
        ensures
            r == self.skew_abs_snap,
    {
        self.skew_abs_snap
    }

    /// The pool's PnL, as of the pairs' last snapshots.
    pub fn pnl_snap(&self) -> (r: Decimal)
        ensures
            r == self.pnl_snap,
    {
        self.pnl_snap
    }

    /// The numbers of the pool's positions, by pair.
    pub open spec fn views(self) -> Map<Seq<char>, PoolPositionView> {
        self.positions.view_map().map_values(|p: PoolPosition| p@)
    }

    /// The pool position of a pair, as a spec value.
    pub open spec fn position_of(self, pair_id: Seq<char>) -> PoolPosition {
        self.positions.view_map()[pair_id]
    }

    pub open spec fn has_position(self, pair_id: Seq<char>) -> bool {
        self.positions.view_map().dom().contains(pair_id)
    }

    /// The pool position of a pair that the pool holds.
    pub fn position(&self, pair_id: &PairId) -> (r: PoolPosition)
        requires
            self.has_position(pair_id@),
        ensures
            r == self.position_of(pair_id@),
    {
        *self.positions.get(pair_id).unwrap()
    }

    /// Replaces the pool position of a pair that the pool holds and records it as changed.
    pub fn set_position(&mut self, pair_id: &PairId, position: PoolPosition)
        requires
            old(self).has_position(pair_id@),
        ensures
            final(self).positions.view_map() == old(self).positions.view_map().insert(
                pair_id@,
                position,
            ),
            final(self).position_updates.view_map().dom() == old(
                self,
            ).position_updates.view_map().dom().insert(pair_id@),
            final(self).base_tokens_amount == old(self).base_tokens_amount,
            final(self).virtual_balance == old(self).virtual_balance,
            final(self).unrealized_pool_funding == old(self).unrealized_pool_funding,
            final(self).skew_abs_snap == old(self).skew_abs_snap,
            final(self).pnl_snap == old(self).pnl_snap,
    {
        let i = self.positions.find(pair_id).unwrap();
        self.positions.set_value_at(i, position);
        self.position_updates.insert(pair_id.key_clone(), ());
    }
}

} // verus!

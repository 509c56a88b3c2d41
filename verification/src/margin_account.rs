use vstd::prelude::*;
use crate::account::{
    AccountPosition, KeeperRequest, MarginAccountInfo, MarginAccountUpdates, add_amounts, coll_views,
    deposit_entries, deposit_total, map_balance, same_request,
};
use crate::common::{ListIndex, PairId, ResourceAddress};
use crate::decimal::{Decimal, in_range};
use crate::list::List;
use crate::account::{VirtualMarginAccount, updated_entries};
use crate::map::{AssocMap, MapKey, has_key, keys_distinct, seq_map};

verus! {

/// What the ledger keeps for a margin account: its collateral balances,
/// positions, virtual balance, requests, the indexes of its active requests,
/// the index from which requests are valid, and its referral.
pub struct MarginAccount {
    pub collateral_balances: AssocMap<ResourceAddress, Decimal>,
    pub positions: AssocMap<PairId, AccountPosition>,
    pub virtual_balance: Decimal,
    pub requests: List<KeeperRequest>,
    pub active_requests: AssocMap<ListIndex, ()>,
    pub valid_requests_start: ListIndex,
    /// The referral badge's id, in its text form.
    pub referral_id: Option<String>,
}

/// The positions after each update in turn: a position with a size is stored,
/// an empty one is dropped.
pub open spec fn apply_positions(
    m: Map<Seq<char>, AccountPosition>,
    updates: Seq<(PairId, AccountPosition)>,
) -> Map<Seq<char>, AccountPosition>
    decreases updates.len(),
{
    if updates.len() == 0 {
        m
    } else {
        let prev = apply_positions(m, updates.drop_last());
        let (k, p) = updates.last();
        if p.amount@ != 0 {
            prev.insert(k@, p)
        } else {
            prev.remove(k@)
        }
    }
}

/// The requests after each update in turn replaces the request at its index.
pub open spec fn apply_requests(
    requests: Seq<KeeperRequest>,
    updates: Seq<(ListIndex, KeeperRequest)>,
) -> Seq<KeeperRequest>
    decreases updates.len(),
{
    if updates.len() == 0 {
        requests
    } else {
        apply_requests(requests.update(updates[0].0 as int, updates[0].1), updates.subrange(1, updates.len() as int))
    }
}

/// The indexes that a list holds.
pub open spec fn index_set(s: Seq<ListIndex>) -> Set<ListIndex> {
    Set::new(|k: ListIndex| s.contains(k))
}

impl MarginAccount {
    /// Whether `after` is this account with `updates` written back: changed
    /// positions stored (empty ones dropped), the virtual balance replaced, the
    /// valid-requests start raised, requests added and changed, active indexes
    /// added and removed (and those before a raised start dropped).
    pub open spec fn writes_back(self, updates: MarginAccountUpdates, after: MarginAccount) -> bool {
        &&& after.positions.view_map() == apply_positions(self.positions.view_map(), updates.position_updates@)
        &&& after.virtual_balance == updates.virtual_balance
        &&& after.valid_requests_start == (if updates.valid_requests_start > self.valid_requests_start {
            updates.valid_requests_start
        } else {
            self.valid_requests_start
        })
        &&& after.requests@ == apply_requests(self.requests@ + updates.request_additions@, updates.request_updates@)
        &&& after.active() == (if updates.valid_requests_start > self.valid_requests_start {
            self.active().filter(|k: ListIndex| k >= updates.valid_requests_start)
        } else {
            self.active()
        }).union(index_set(updates.active_request_additions@)).difference(index_set(updates.active_request_removals@))
        &&& after.collateral_balances == self.collateral_balances
        &&& after.referral_id == self.referral_id
    }

    /// The indexes of the active requests.
    pub open spec fn active(self) -> Set<ListIndex> {
        self.active_requests.view_map().dom()
    }

    /// A new account, with nothing in it.
    pub fn new(referral_id: Option<String>) -> (r: MarginAccount)
        ensures
            r.collateral_balances.entries().len() == 0,
            r.positions.entries().len() == 0,
            r.virtual_balance@ == 0,
            r.requests@.len() == 0,
            r.active() == Set::<ListIndex>::empty(),
            r.valid_requests_start == 0,
            r.referral_id == referral_id,
    {
        let r = MarginAccount {
            collateral_balances: AssocMap::new(),
            positions: AssocMap::new(),
            virtual_balance: Decimal::zero(),
            requests: List::new(),
            active_requests: AssocMap::new(),
            valid_requests_start: 0,
            referral_id,
        };
        assert(r.active() =~= Set::<ListIndex>::empty());
        r
    }

    /// What an operation loads of the account.
    pub fn get_info(&self) -> (r: MarginAccountInfo)
        requires
            self.requests@.len() <= u64::MAX,
        ensures
            r.positions.view_map() == self.positions.view_map(),
            r.positions.entries().len() == self.positions.entries().len(),
            forall|i: int| 0 <= i < self.positions.entries().len() ==> (#[trigger] r.positions.entries()[i]).0@
                == self.positions.entries()[i].0@ && r.positions.entries()[i].1 == self.positions.entries()[i].1,
            r.collateral_balances.view_map() == self.collateral_balances.view_map(),
            coll_views(r.collateral_balances.entries()) == coll_views(self.collateral_balances.entries()),
            r.virtual_balance == self.virtual_balance,
            r.requests_len == self.requests@.len(),
            r.active_requests_len == self.active_requests.entries().len(),
            r.valid_requests_start == self.valid_requests_start,
    {
        let collateral_balances = self.collateral_balances.copy_map();
        proof {
            let a = coll_views(collateral_balances.entries());
            let b = coll_views(self.collateral_balances.entries());
            assert forall|i: int| 0 <= i < a.len() implies a[i] == b[i] by {
                assert(collateral_balances.entries()[i].0.key_view() == self.collateral_balances.entries()[i].0.key_view());
            }
            assert(a =~= b);
        }
        MarginAccountInfo {
            positions: self.positions.copy_map(),
            collateral_balances,
            virtual_balance: self.virtual_balance,
            requests_len: self.requests.len(),
            active_requests_len: self.active_requests.len(),
            valid_requests_start: self.valid_requests_start,
        }
    }

    /// A copy of the request at `index`, if there is one.
    pub fn get_request(&self, index: ListIndex) -> (r: Option<KeeperRequest>)
        ensures
            index < self.requests@.len() ==> (r matches Some(x) && same_request(x, self.requests@[index as int])),
            index >= self.requests@.len() ==> r is None,
    {
        match self.requests.get(index) {
            Some(request) => Some(request.copy()),
            None => None,
        }
    }

    /// The number of requests made.
    pub fn get_requests_len(&self) -> (r: ListIndex)
        requires
            self.requests@.len() <= u64::MAX,
        ensures
            r == self.requests@.len(),
    {
        self.requests.len()
    }

    /// Up to `n` requests from index `start` (zero when not given) on, with
    /// their indexes.
    pub fn get_requests(&self, n: ListIndex, start: Option<ListIndex>) -> (r: Vec<(ListIndex, KeeperRequest)>)
        requires
            self.requests@.len() <= u64::MAX,
            start.unwrap_or(0) + n <= u64::MAX,
        ensures
            ({
                let s = start.unwrap_or(0);
                let end = if s + n <= self.requests@.len() { s + n } else { self.requests@.len() as int };
                &&& r@.len() == (if s < end { end - s } else { 0 })
                &&& forall|i: int| 0 <= i < r@.len() ==> (#[trigger] r@[i]).0 == s + i && same_request(
                    r@[i].1,
                    self.requests@[s + i],
                )
            }),
    {
        let start = match start {
            Some(s) => s,
            None => 0,
        };
        let len = self.requests.len();
        let end = if start + n <= len {
            start + n
        } else {
            len
        };
        let items = self.requests.range(start, end);
        let mut r: Vec<(ListIndex, KeeperRequest)> = Vec::new();
        let mut i: usize = 0;
        while i < items.len()
            invariant
                i <= items@.len(),
                r@.len() == i,
                items@.len() == (if start < end { end - start } else { 0 }),
                end <= self.requests@.len(),
                forall|j: int| 0 <= j < items@.len() ==> *items@[j] == self.requests@[start + j],
                forall|j: int| 0 <= j < i ==> (#[trigger] r@[j]).0 == start + j && same_request(
                    r@[j].1,
                    self.requests@[start + j],
                ),
            decreases items@.len() - i,
        {
            r.push((start + i as u64, items[i].copy()));
            i = i + 1;
        }
        r
    }

    /// Up to `n` requests ending at index `end` (the last one when not given),
    /// latest first, with their indexes.
    pub fn get_requests_tail(&self, n: ListIndex, end: Option<ListIndex>) -> (r: Vec<(ListIndex, KeeperRequest)>)
        requires
            self.requests@.len() <= u64::MAX,
            end matches Some(e) ==> e < u64::MAX,
        ensures
            ({
                let len = self.requests@.len() as int;
                let stop = match end {
                    Some(e) => if e + 1 <= len { e + 1 } else { len },
                    None => len,
                };
                let start = stop - (if n <= stop { n as int } else { stop });
                &&& r@.len() == stop - start
                &&& forall|i: int| 0 <= i < r@.len() ==> (#[trigger] r@[i]).0 == stop - 1 - i && same_request(
                    r@[i].1,
                    self.requests@[stop - 1 - i],
                )
            }),
    {
        let len = self.requests.len();
        let stop = match end {
            Some(e) => if e + 1 <= len {
                e + 1
            } else {
                len
            },
            None => len,
        };
        let start = stop - if n <= stop {
            n
        } else {
            stop
        };
        let mut r: Vec<(ListIndex, KeeperRequest)> = Vec::new();
        let mut i = stop;
        while i > start
            invariant
                start <= i <= stop,
                stop <= self.requests@.len(),
                r@.len() == stop - i,
                forall|j: int| 0 <= j < r@.len() ==> (#[trigger] r@[j]).0 == stop - 1 - j && same_request(
                    r@[j].1,
                    self.requests@[stop - 1 - j],
                ),
            decreases i - start,
        {
            i = i - 1;
            let request = self.requests.get(i).unwrap();
            r.push((i, request.copy()));
        }
        r
    }

    /// The requests at the given indexes (nothing for an index with none).
    pub fn get_requests_by_indexes(&self, indexes: &Vec<ListIndex>) -> (r: AssocMap<ListIndex, Option<KeeperRequest>>)
        ensures
            forall|k: ListIndex| r.view_map().dom().contains(k) <==> indexes@.contains(k),
            forall|k: ListIndex| #[trigger] r.view_map().dom().contains(k) ==> (if k < self.requests@.len() {
                (r.view_map()[k] matches Some(x) && same_request(x, self.requests@[k as int]))
            } else {
                r.view_map()[k] is None
            }),
    {
        let mut r: AssocMap<ListIndex, Option<KeeperRequest>> = AssocMap::new();
        let mut i: usize = 0;
        while i < indexes.len()
            invariant
                i <= indexes@.len(),
                forall|k: ListIndex| r.view_map().dom().contains(k) <==> indexes@.subrange(0, i as int).contains(k),
                forall|k: ListIndex| #[trigger] r.view_map().dom().contains(k) ==> (if k < self.requests@.len() {
                    (r.view_map()[k] matches Some(x) && same_request(x, self.requests@[k as int]))
                } else {
                    r.view_map()[k] is None
                }),
            decreases indexes@.len() - i,
        {
            let index = indexes[i];
            let request = self.get_request(index);
            r.insert(index, request);
            proof {
                assert forall|k: ListIndex| r.view_map().dom().contains(k) <==> indexes@.subrange(0, i as int + 1).contains(k) by {
                    if indexes@.subrange(0, i as int + 1).contains(k) && k != index {
                        let t = choose|t: int| 0 <= t < i + 1 && #[trigger] indexes@.subrange(0, i as int + 1)[t] == k;
                        assert(indexes@.subrange(0, i as int)[t] == k);
                    }
                    if indexes@.subrange(0, i as int).contains(k) {
                        let t = choose|t: int| 0 <= t < i && #[trigger] indexes@.subrange(0, i as int)[t] == k;
                        assert(indexes@.subrange(0, i as int + 1)[t] == k);
                    }
                    if k == index {
                        assert(indexes@.subrange(0, i as int + 1)[i as int] == k);
                    }
                }
            }
            i = i + 1;
        }
        assert(indexes@.subrange(0, indexes@.len() as int) =~= indexes@);
        r
    }

    /// The active requests, by index.
    pub fn get_active_requests(&self) -> (r: AssocMap<ListIndex, KeeperRequest>)
        requires
            forall|k: ListIndex| self.active().contains(k) ==> k < self.requests@.len(),
        ensures
            r.view_map().dom() == self.active(),
            forall|k: ListIndex| #[trigger] r.view_map().dom().contains(k) ==> same_request(
                r.view_map()[k],
                self.requests@[k as int],
            ),
    {
        let mut r: AssocMap<ListIndex, KeeperRequest> = AssocMap::new();
        let mut i: usize = 0;
        while i < self.active_requests.len()
            invariant
                i <= self.active_requests.entries().len(),
                forall|k: ListIndex| self.active().contains(k) ==> k < self.requests@.len(),
                forall|k: ListIndex| r.view_map().dom().contains(k) <==> exists|j: int|
                    0 <= j < i && #[trigger] self.active_requests.entries()[j].0 == k,
                forall|k: ListIndex| #[trigger] r.view_map().dom().contains(k) ==> same_request(
                    r.view_map()[k],
                    self.requests@[k as int],
                ),
            decreases self.active_requests.entries().len() - i,
        {
            let index = *self.active_requests.key_at(i);
            proof {
                assert(self.active_requests.entries()[i as int].0.key_view() == index);
                assert(has_key(self.active_requests.entries(), index));
                assert(self.active().contains(index));
            }
            let request = self.requests.get(index).unwrap().copy();
            r.insert(index, request);
            proof {
                assert(self.active_requests.entries()[i as int].0 == index);
            }
            i = i + 1;
        }
        proof {
            assert forall|k: ListIndex| r.view_map().dom().contains(k) == self.active().contains(k) by {
                if self.active().contains(k) {
                    let j = choose|j: int| 0 <= j < self.active_requests.entries().len() && #[trigger] self.active_requests.entries()[j].0.key_view() == k;
                    assert(self.active_requests.entries()[j].0 == k);
                }
                if r.view_map().dom().contains(k) {
                    let j = choose|j: int| 0 <= j < self.active_requests.entries().len() && #[trigger] self.active_requests.entries()[j].0 == k;
                    assert(self.active_requests.entries()[j].0.key_view() == k);
                }
            }
        }
        assert(r.view_map().dom() =~= self.active());
        r
    }

    /// Applies what an operation changed: the changed positions (an empty one
    /// is dropped), the virtual balance, a later start of the valid requests
    /// (active requests before it stop being active), the new requests, the
    /// changed requests, and the active requests added and then removed.
    pub fn update(&mut self, updates: MarginAccountUpdates)
        requires
            old(self).requests@.len() + updates.request_additions@.len() <= u64::MAX,
            forall|i: int| 0 <= i < updates.request_updates@.len() ==> (#[trigger] updates.request_updates@[i]).0
                < old(self).requests@.len() + updates.request_additions@.len(),
        ensures
            old(self).writes_back(updates, *final(self)),
    {
        let MarginAccountUpdates {
            position_updates,
            virtual_balance,
            valid_requests_start,
            request_additions,
            request_updates,
            active_request_additions,
            active_request_removals,
        } = updates;
        let ghost pu = position_updates@;
        let mut i: usize = 0;
        assert(pu.subrange(0, 0) =~= Seq::<(PairId, AccountPosition)>::empty());
        while i < position_updates.len()
            invariant
                i <= pu.len(),
                pu == position_updates@,
                self.positions.view_map() == apply_positions(old(self).positions.view_map(), pu.subrange(0, i as int)),
                self.collateral_balances == old(self).collateral_balances,
                self.referral_id == old(self).referral_id,
                self.requests == old(self).requests,
                self.active_requests == old(self).active_requests,
                self.valid_requests_start == old(self).valid_requests_start,
            decreases pu.len() - i,
        {
            let (pair_id, position) = &position_updates[i];
            proof {
                assert(pu.subrange(0, i as int + 1).drop_last() =~= pu.subrange(0, i as int));
            }
            if !position.amount.is_zero() {
                self.positions.insert(pair_id.clone(), *position);
            } else {
                self.positions.remove(pair_id);
            }
            i = i + 1;
        }
        assert(pu.subrange(0, pu.len() as int) =~= pu);
        self.virtual_balance = virtual_balance;
        let ghost active0 = self.active();
        if valid_requests_start > self.valid_requests_start {
            self.valid_requests_start = valid_requests_start;
            let mut kept: AssocMap<ListIndex, ()> = AssocMap::new();
            let mut j: usize = 0;
            while j < self.active_requests.len()
                invariant
                    j <= self.active_requests.entries().len(),
                    active0 == self.active(),
                    forall|k: ListIndex| kept.view_map().dom().contains(k) <==> (k >= valid_requests_start && exists|t: int|
                        0 <= t < j && #[trigger] self.active_requests.entries()[t].0 == k),
                decreases self.active_requests.entries().len() - j,
            {
                let index = *self.active_requests.key_at(j);
                if index >= valid_requests_start {
                    kept.insert(index, ());
                }
                proof {
                    assert(self.active_requests.entries()[j as int].0 == index);
                }
                j = j + 1;
            }
            proof {
                assert forall|k: ListIndex| kept.view_map().dom().contains(k) == active0.filter(
                    |x: ListIndex| x >= valid_requests_start,
                ).contains(k) by {
                    if active0.contains(k) {
                        let t = choose|t: int| 0 <= t < self.active_requests.entries().len() && #[trigger] self.active_requests.entries()[t].0.key_view() == k;
                        assert(self.active_requests.entries()[t].0 == k);
                    }
                    if kept.view_map().dom().contains(k) {
                        let t = choose|t: int| 0 <= t < self.active_requests.entries().len() && #[trigger] self.active_requests.entries()[t].0 == k;
                        assert(self.active_requests.entries()[t].0.key_view() == k);
                    }
                }
            }
            self.active_requests = kept;
            assert(self.active() =~= active0.filter(|x: ListIndex| x >= valid_requests_start));
        }
        let ghost active1 = self.active();
        let ghost requests0 = self.requests@;
        let ghost adds = request_additions@;
        let mut request_additions = request_additions;
        while request_additions.len() > 0
            invariant
                requests0 == old(self).requests@,
                old(self).requests@.len() + adds.len() <= u64::MAX,
                self.requests@ + request_additions@ == requests0 + adds,
                self.active() == active1,
                self.virtual_balance == virtual_balance,
                self.valid_requests_start == (if valid_requests_start > old(self).valid_requests_start {
                    valid_requests_start
                } else {
                    old(self).valid_requests_start
                }),
                self.positions.view_map() == apply_positions(old(self).positions.view_map(), pu),
                self.collateral_balances == old(self).collateral_balances,
                self.referral_id == old(self).referral_id,
            decreases request_additions@.len(),
        {
            let ghost before = self.requests@;
            let ghost rest = request_additions@;
            let item = request_additions.remove(0);
            proof {
                assert((before + rest).len() == requests0.len() + adds.len());
            }
            self.requests.push(item);
            assert(self.requests@ + request_additions@ =~= before + rest);
        }
        assert(self.requests@ =~= requests0 + adds);
        let ghost base = self.requests@;
        let ghost ups = request_updates@;
        let mut request_updates = request_updates;
        while request_updates.len() > 0
            invariant
                base.len() == old(self).requests@.len() + adds.len(),
                self.requests@.len() == base.len(),
                forall|i: int| 0 <= i < request_updates@.len() ==> (#[trigger] request_updates@[i]).0 < base.len(),
                apply_requests(self.requests@, request_updates@) == apply_requests(base, ups),
                self.active() == active1,
                self.virtual_balance == virtual_balance,
                self.valid_requests_start == (if valid_requests_start > old(self).valid_requests_start {
                    valid_requests_start
                } else {
                    old(self).valid_requests_start
                }),
                self.positions.view_map() == apply_positions(old(self).positions.view_map(), pu),
                self.collateral_balances == old(self).collateral_balances,
                self.referral_id == old(self).referral_id,
            decreases request_updates@.len(),
        {
            let ghost rest = request_updates@;
            let (index, request) = request_updates.remove(0);
            assert(request_updates@ =~= rest.subrange(1, rest.len() as int));
            assert(rest[0] == (index, request));
            self.requests.update(index, request);
        }
        let ghost vs = self.valid_requests_start;
        let mut k: usize = 0;
        while k < active_request_additions.len()
            invariant
                k <= active_request_additions@.len(),
                self.active() == active1.union(index_set(active_request_additions@.subrange(0, k as int))),
                self.requests@ == apply_requests(base, ups),
                self.positions.view_map() == apply_positions(old(self).positions.view_map(), pu),
                self.collateral_balances == old(self).collateral_balances,
                self.referral_id == old(self).referral_id,
                self.virtual_balance == virtual_balance,
                self.valid_requests_start == vs,
            decreases active_request_additions@.len() - k,
        {
            let ghost prev = self.active();
            let x = active_request_additions[k];
            self.active_requests.insert(x, ());
            proof {
                let s = active_request_additions@;
                assert(self.active() =~= prev.insert(x));
                assert forall|y: ListIndex| index_set(s.subrange(0, k as int + 1)).contains(y) == (index_set(
                    s.subrange(0, k as int),
                ).contains(y) || y == x) by {
                    if s.subrange(0, k as int + 1).contains(y) && y != x {
                        let t = choose|t: int| 0 <= t < k + 1 && #[trigger] s.subrange(0, k as int + 1)[t] == y;
                        assert(s.subrange(0, k as int)[t] == y);
                    }
                    if s.subrange(0, k as int).contains(y) {
                        let t = choose|t: int| 0 <= t < k && #[trigger] s.subrange(0, k as int)[t] == y;
                        assert(s.subrange(0, k as int + 1)[t] == y);
                    }
                    if y == x {
                        assert(s.subrange(0, k as int + 1)[k as int] == y);
                    }
                }
                assert forall|y: ListIndex| #[trigger] self.active().contains(y) == active1.union(
                    index_set(s.subrange(0, k as int + 1)),
                ).contains(y) by {
                    assert(index_set(s.subrange(0, k as int + 1)).contains(y) == (index_set(s.subrange(0, k as int)).contains(y) || y == x));
                }
                assert(self.active() =~= active1.union(index_set(s.subrange(0, k as int + 1))));
            }
            k = k + 1;
        }
        assert(active_request_additions@.subrange(0, k as int) =~= active_request_additions@);
        let ghost active2 = self.active();
        let mut k: usize = 0;
        while k < active_request_removals.len()
            invariant
                k <= active_request_removals@.len(),
                self.active() == active2.difference(index_set(active_request_removals@.subrange(0, k as int))),
                self.requests@ == apply_requests(base, ups),
                self.positions.view_map() == apply_positions(old(self).positions.view_map(), pu),
                self.collateral_balances == old(self).collateral_balances,
                self.referral_id == old(self).referral_id,
                self.virtual_balance == virtual_balance,
                self.valid_requests_start == vs,
            decreases active_request_removals@.len() - k,
        {
            let ghost prev = self.active();
            let x = active_request_removals[k];
            self.active_requests.remove(&x);
            proof {
                let s = active_request_removals@;
                assert(self.active() =~= prev.remove(x));
                assert forall|y: ListIndex| index_set(s.subrange(0, k as int + 1)).contains(y) == (index_set(
                    s.subrange(0, k as int),
                ).contains(y) || y == x) by {
                    if s.subrange(0, k as int + 1).contains(y) && y != x {
                        let t = choose|t: int| 0 <= t < k + 1 && #[trigger] s.subrange(0, k as int + 1)[t] == y;
                        assert(s.subrange(0, k as int)[t] == y);
                    }
                    if s.subrange(0, k as int).contains(y) {
                        let t = choose|t: int| 0 <= t < k && #[trigger] s.subrange(0, k as int)[t] == y;
                        assert(s.subrange(0, k as int + 1)[t] == y);
                    }
                    if y == x {
                        assert(s.subrange(0, k as int + 1)[k as int] == y);
                    }
                }
                assert forall|y: ListIndex| #[trigger] self.active().contains(y) == active2.difference(
                    index_set(s.subrange(0, k as int + 1)),
                ).contains(y) by {
                    assert(index_set(s.subrange(0, k as int + 1)).contains(y) == (index_set(s.subrange(0, k as int)).contains(y) || y == x));
                }
                assert(self.active() =~= active2.difference(index_set(s.subrange(0, k as int + 1))));
            }
            k = k + 1;
        }
        assert(active_request_removals@.subrange(0, k as int) =~= active_request_removals@);
    }

    /// Sets the referral badge's id.
    pub fn update_referral_id(&mut self, referral_id: Option<String>)
        ensures
            final(self).referral_id == referral_id,
            final(self).collateral_balances == old(self).collateral_balances,
            final(self).positions == old(self).positions,
            final(self).virtual_balance == old(self).virtual_balance,
            final(self).requests == old(self).requests,
            final(self).active_requests == old(self).active_requests,
            final(self).valid_requests_start == old(self).valid_requests_start,
    {
        self.referral_id = referral_id;
    }

    /// Adds deposited tokens to the collateral balances.
    pub fn deposit_collateral_batch(&mut self, tokens: &Vec<(ResourceAddress, Decimal)>)
        requires
            forall|i: int| 0 <= i < tokens@.len() ==> tokens@[i].1@ >= 0,
            forall|res: ResourceAddress| in_range(map_balance(old(self).collateral_balances, res) + deposit_total(tokens@, res)),
        ensures
            coll_views(final(self).collateral_balances.entries()) == deposit_entries(
                coll_views(old(self).collateral_balances.entries()),
                coll_views(tokens@),
            ),
            forall|res: ResourceAddress| #[trigger] map_balance(final(self).collateral_balances, res) == map_balance(
                old(self).collateral_balances,
                res,
            ) + deposit_total(tokens@, res),
            final(self).positions == old(self).positions,
            final(self).virtual_balance == old(self).virtual_balance,
            final(self).requests == old(self).requests,
            final(self).active_requests == old(self).active_requests,
            final(self).valid_requests_start == old(self).valid_requests_start,
            final(self).referral_id == old(self).referral_id,
    {
        add_amounts(&mut self.collateral_balances, tokens);
    }

    /// Takes withdrawn tokens out of the collateral balances; a balance that
    /// reaches zero leaves the list.
    pub fn withdraw_collateral_batch(&mut self, tokens: &Vec<(ResourceAddress, Decimal)>)
        requires
            forall|i: int| 0 <= i < tokens@.len() ==> old(self).collateral_balances.view_map().dom().contains(
                #[trigger] tokens@[i].0,
            ),
            forall|res: ResourceAddress| in_range(map_balance(old(self).collateral_balances, res) - deposit_total(tokens@, res)),
            crate::map::keys_distinct(tokens@),
        ensures
            forall|res: ResourceAddress| #[trigger] map_balance(final(self).collateral_balances, res) == map_balance(
                old(self).collateral_balances,
                res,
            ) - deposit_total(tokens@, res),
            final(self).positions == old(self).positions,
            final(self).virtual_balance == old(self).virtual_balance,
            final(self).requests == old(self).requests,
            final(self).active_requests == old(self).active_requests,
            final(self).valid_requests_start == old(self).valid_requests_start,
            final(self).referral_id == old(self).referral_id,
    {
        let mut i: usize = 0;
        while i < tokens.len()
            invariant
                i <= tokens@.len(),
                crate::map::keys_distinct(tokens@),
                forall|j: int| 0 <= j < tokens@.len() ==> old(self).collateral_balances.view_map().dom().contains(
                    #[trigger] tokens@[j].0,
                ),
                forall|res: ResourceAddress| in_range(map_balance(old(self).collateral_balances, res) - deposit_total(tokens@, res)),
                forall|j: int| i <= j < tokens@.len() ==> self.collateral_balances.view_map().dom().contains(
                    #[trigger] tokens@[j].0,
                ) && map_balance(self.collateral_balances, tokens@[j].0) == map_balance(old(self).collateral_balances, tokens@[j].0),
                forall|res: ResourceAddress| #[trigger] map_balance(self.collateral_balances, res) == map_balance(
                    old(self).collateral_balances,
                    res,
                ) - deposit_total(tokens@.subrange(0, i as int), res),
                self.positions == old(self).positions,
                self.virtual_balance == old(self).virtual_balance,
                self.requests == old(self).requests,
                self.active_requests == old(self).active_requests,
                self.valid_requests_start == old(self).valid_requests_start,
                self.referral_id == old(self).referral_id,
            decreases tokens@.len() - i,
        {
            let (resource, amount) = tokens[i];
            let ghost pre = tokens@.subrange(0, i as int);
            let ghost post = tokens@.subrange(0, i as int + 1);
            proof {
                assert(post.drop_last() =~= pre);
                assert(post.last() == tokens@[i as int]);
                assert(!has_key(pre, resource)) by {
                    if has_key(pre, resource) {
                        let k = choose|k: int| 0 <= k < pre.len() && #[trigger] pre[k].0.key_view() == resource;
                        assert(tokens@[k].0.key_view() == tokens@[i as int].0.key_view());
                    }
                }
                crate::account::lemma_deposit_total_absent(pre, resource);
                let rest = tokens@.subrange(i as int + 1, tokens@.len() as int);
                assert(!has_key(rest, resource)) by {
                    if has_key(rest, resource) {
                        let k = choose|k: int| 0 <= k < rest.len() && #[trigger] rest[k].0.key_view() == resource;
                        assert(tokens@[i + 1 + k].0.key_view() == tokens@[i as int].0.key_view());
                    }
                }
                crate::account::lemma_deposit_total_absent(rest, resource);
                lemma_total_split(tokens@, i as int + 1, resource);
            }
            let balance = *self.collateral_balances.get(&resource).unwrap();
            let new_balance = balance.sub(amount);
            let ghost before = self.collateral_balances;
            if new_balance.is_zero() {
                self.collateral_balances.remove(&resource);
            } else {
                self.collateral_balances.insert(resource, new_balance);
            }
            i = i + 1;
            proof {
                assert forall|res: ResourceAddress| #[trigger] map_balance(self.collateral_balances, res) == map_balance(
                    old(self).collateral_balances,
                    res,
                ) - deposit_total(post, res) by {
                    assert(deposit_total(post, res) == deposit_total(pre, res) + if post.last().0 == res {
                        post.last().1@
                    } else {
                        0
                    });
                    assert(map_balance(before, res) == map_balance(old(self).collateral_balances, res) - deposit_total(pre, res));
                }
                assert forall|j: int| i <= j < tokens@.len() implies self.collateral_balances.view_map().dom().contains(
                    #[trigger] tokens@[j].0,
                ) && map_balance(self.collateral_balances, tokens@[j].0) == map_balance(old(self).collateral_balances, tokens@[j].0) by {
                    assert(tokens@[j].0.key_view() != tokens@[i - 1].0.key_view());
                    assert(before.view_map().dom().contains(tokens@[j].0));
                }
            }
        }
        assert(tokens@.subrange(0, tokens@.len() as int) =~= tokens@);
    }
}

/// A total over a list is the total over a prefix plus the total over the rest.
pub proof fn lemma_total_split(tokens: Seq<(ResourceAddress, Decimal)>, n: int, res: ResourceAddress)
    requires
        0 <= n <= tokens.len(),
    ensures
        deposit_total(tokens, res) == deposit_total(tokens.subrange(0, n), res) + deposit_total(
            tokens.subrange(n, tokens.len() as int),
            res,
        ),
    decreases tokens.len(),
{
    if tokens.len() == n {
        assert(tokens.subrange(0, n) =~= tokens);
        assert(tokens.subrange(n, tokens.len() as int) =~= Seq::<(ResourceAddress, Decimal)>::empty());
    } else {
        let p = tokens.drop_last();
        lemma_total_split(p, n, res);
        assert(p.subrange(0, n) =~= tokens.subrange(0, n));
        assert(tokens.subrange(n, tokens.len() as int).drop_last() =~= p.subrange(n, p.len() as int));
    }
}

/// Writing an operation's positions back and reading them again: a pair that
/// the operation changed reads back as the operation left it, or is gone when
/// that position is empty; every other pair reads back as it was stored.
pub proof fn law_positions_write_back(
    stored: Map<Seq<char>, AccountPosition>,
    entries: Seq<(PairId, AccountPosition)>,
    updated: Set<Seq<char>>,
    k: Seq<char>,
)
    requires
        keys_distinct(entries),
    ensures
        ({
            let after = apply_positions(stored, updated_entries(entries, updated));
            let current = seq_map(entries);
            &&& (updated.contains(k) && current.dom().contains(k) && current[k].amount@ != 0) ==> after.dom().contains(k)
                && after[k] == current[k]
            &&& (updated.contains(k) && current.dom().contains(k) && current[k].amount@ == 0) ==> !after.dom().contains(k)
            &&& !(updated.contains(k) && current.dom().contains(k)) ==> (after.dom().contains(k) == stored.dom().contains(k)
                && (stored.dom().contains(k) ==> after[k] == stored[k]))
        }),
    decreases entries.len(),
{
    if entries.len() > 0 {
        let p = entries.drop_last();
        let (kl, pl) = entries.last();
        assert(keys_distinct(p)) by {
            assert forall|i: int, j: int| 0 <= i < p.len() && 0 <= j < p.len() && i != j implies #[trigger] p[i].0.key_view()
                != #[trigger] p[j].0.key_view() by {
                assert(entries[i] == p[i] && entries[j] == p[j]);
            }
        }
        law_positions_write_back(stored, p, updated, k);
        let n = entries.len() - 1;
        crate::map::lemma_key_pos_unique(entries, n);
        if k == kl@ {
            assert(!has_key(p, k)) by {
                if has_key(p, k) {
                    let j = choose|j: int| 0 <= j < p.len() && #[trigger] p[j].0.key_view() == k;
                    assert(entries[j].0.key_view() == entries[n].0.key_view());
                }
            }
            assert(!seq_map(p).dom().contains(k));
        } else {
            if has_key(entries, k) {
                let j = crate::map::key_pos(entries, k);
                assert(0 <= j < entries.len() && entries[j].0.key_view() == k);
                assert(j != n);
                assert(p[j] == entries[j]);
                crate::map::lemma_key_pos_unique(entries, j);
                crate::map::lemma_key_pos_unique(p, j);
            } else {
                assert(!has_key(p, k)) by {
                    if has_key(p, k) {
                        let j = choose|j: int| 0 <= j < p.len() && #[trigger] p[j].0.key_view() == k;
                        assert(entries[j].0.key_view() == k);
                    }
                }
            }
        }
        let ue = updated_entries(entries, updated);
        if updated.contains(kl@) {
            assert(ue.drop_last() =~= updated_entries(p, updated));
        }
    }
}

/// Writing back changed requests keeps the number of requests.
pub proof fn law_requests_write_back_len(requests: Seq<KeeperRequest>, updates: Seq<(ListIndex, KeeperRequest)>)
    requires
        forall|i: int| 0 <= i < updates.len() ==> (#[trigger] updates[i]).0 < requests.len(),
    ensures
        apply_requests(requests, updates).len() == requests.len(),
    decreases updates.len(),
{
    if updates.len() > 0 {
        let rest = updates.subrange(1, updates.len() as int);
        assert forall|i: int| 0 <= i < rest.len() implies (#[trigger] rest[i]).0 < requests.len() by {
            assert(rest[i] == updates[i + 1]);
        }
        law_requests_write_back_len(requests.update(updates[0].0 as int, updates[0].1), rest);
    }
}

/// Writing back changed requests, each index once, gives each changed index its
/// new request and keeps every other request.
pub proof fn lemma_apply_requests_at(requests: Seq<KeeperRequest>, updates: Seq<(ListIndex, KeeperRequest)>, i: int)
    requires
        keys_distinct(updates),
        forall|j: int| 0 <= j < updates.len() ==> (#[trigger] updates[j]).0 < requests.len(),
        requests.len() <= u64::MAX,
        0 <= i < requests.len(),
    ensures
        apply_requests(requests, updates)[i] == (if seq_map(updates).dom().contains(i as ListIndex) {
            seq_map(updates)[i as ListIndex]
        } else {
            requests[i]
        }),
    decreases updates.len(),
{
    if updates.len() > 0 {
        let rest = updates.subrange(1, updates.len() as int);
        let first = requests.update(updates[0].0 as int, updates[0].1);
        assert forall|j: int| 0 <= j < rest.len() implies (#[trigger] rest[j]).0 < first.len() by {
            assert(rest[j] == updates[j + 1]);
        }
        assert(keys_distinct(rest)) by {
            assert forall|a: int, b: int| 0 <= a < rest.len() && 0 <= b < rest.len() && a != b implies #[trigger] rest[a].0.key_view()
                != #[trigger] rest[b].0.key_view() by {
                assert(rest[a] == updates[a + 1] && rest[b] == updates[b + 1]);
            }
        }
        lemma_apply_requests_at(first, rest, i);
        let k = i as ListIndex;
        crate::map::lemma_key_pos_unique(updates, 0);
        if has_key(rest, k) {
            let j = crate::map::key_pos(rest, k);
            assert(rest[j] == updates[j + 1]);
            crate::map::lemma_key_pos_unique(updates, j + 1);
            crate::map::lemma_key_pos_unique(rest, j);
            assert(updates[0].0 != k);
        } else if updates[0].0 == k {
            assert(has_key(updates, k));
        } else {
            assert(!has_key(updates, k)) by {
                if has_key(updates, k) {
                    let j = choose|j: int| 0 <= j < updates.len() && #[trigger] updates[j].0.key_view() == k;
                    assert(j != 0);
                    assert(rest[j - 1] == updates[j]);
                }
            }
        }
    }
}

/// Writing an operation's working copy back and loading the account again
/// gives back what the operation left: its virtual balance and valid-requests
/// start; each position it changed, or none where it emptied one, and every
/// other position as it was; its added
/// requests after the ones the account had; each request whose status it
/// changed with its new status, and every other request as it was.
pub proof fn law_account_write_back(m: MarginAccount, v: VirtualMarginAccount, u: MarginAccountUpdates, after: MarginAccount)
    requires
        v.positions.inv(),
        v.request_updates.inv(),
        // the working copy was loaded from `m`: the positions it did not change are m's
        forall|k: Seq<char>| !#[trigger] v.positions_updated.view_map().dom().contains(k) ==> (v.positions.view_map().dom().contains(k)
            == m.positions.view_map().dom().contains(k) && (m.positions.view_map().dom().contains(k)
            ==> v.positions.view_map()[k] == m.positions.view_map()[k])),
        forall|k: Seq<char>| #[trigger] v.positions_updated.view_map().dom().contains(k) ==> v.positions.view_map().dom().contains(k),
        v.valid_requests_start >= m.valid_requests_start,
        m.requests@.len() + v.request_additions@.len() <= u64::MAX,
        forall|j: int| 0 <= j < v.request_updates.entries().len() ==> (#[trigger] v.request_updates.entries()[j]).0
            < m.requests@.len() + v.request_additions@.len(),
        v.realizes(u),
        m.writes_back(u, after),
    ensures
        after.virtual_balance == v.virtual_balance,
        after.valid_requests_start == v.valid_requests_start,
        after.requests@.len() == m.requests@.len() + v.request_additions@.len(),
        forall|k: Seq<char>| #[trigger] v.positions_updated.view_map().dom().contains(k) ==> (after.positions.view_map().dom().contains(k)
            <==> v.positions.view_map()[k].amount@ != 0),
        forall|k: Seq<char>| !#[trigger] v.positions_updated.view_map().dom().contains(k) ==> (after.positions.view_map().dom().contains(k)
            <==> v.positions.view_map().dom().contains(k)),
        forall|k: Seq<char>| #[trigger] after.positions.view_map().dom().contains(k) ==> after.positions.view_map()[k]
            == v.positions.view_map()[k],
        forall|i: int| 0 <= i < after.requests@.len() ==> #[trigger] after.requests@[i] == (if v.request_updates.view_map().dom().contains(
            i as ListIndex,
        ) {
            v.request_updates.view_map()[i as ListIndex]
        } else {
            (m.requests@ + v.request_additions@)[i]
        }),
{
    AssocMap::lemma_inv_distinct(v.positions);
    AssocMap::lemma_inv_distinct(v.request_updates);
    let updated = v.positions_updated.view_map().dom();
    assert forall|k: Seq<char>| #[trigger] updated.contains(k) implies (after.positions.view_map().dom().contains(k)
        <==> v.positions.view_map()[k].amount@ != 0) by {
        law_positions_write_back(m.positions.view_map(), v.positions.entries(), updated, k);
    }
    assert forall|k: Seq<char>| !#[trigger] updated.contains(k) implies (after.positions.view_map().dom().contains(k)
        <==> v.positions.view_map().dom().contains(k)) by {
        law_positions_write_back(m.positions.view_map(), v.positions.entries(), updated, k);
    }
    assert forall|k: Seq<char>| #[trigger] after.positions.view_map().dom().contains(k) implies after.positions.view_map()[k]
        == v.positions.view_map()[k] by {
        law_positions_write_back(m.positions.view_map(), v.positions.entries(), updated, k);
    }
    let base = m.requests@ + v.request_additions@;
    law_requests_write_back_len(base, u.request_updates@);
    assert forall|i: int| 0 <= i < after.requests@.len() implies #[trigger] after.requests@[i] == (if v.request_updates.view_map().dom().contains(
        i as ListIndex,
    ) {
        v.request_updates.view_map()[i as ListIndex]
    } else {
        base[i]
    }) by {
        lemma_apply_requests_at(base, u.request_updates@, i);
    }
}

} // verus!

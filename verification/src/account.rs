use vstd::prelude::*;
use crate::common::{ComponentAddress, ExchangeError, ListIndex, PairId, ResourceAddress};
use crate::decimal::{Decimal, in_range, scale};
use crate::map::{AssocMap, MapKey, has_key, key_pos, keys_distinct};
use crate::requests::{
    Request, STATUS_ACTIVE, STATUS_CANCELLED, STATUS_DORMANT, STATUS_EXECUTED, STATUS_EXPIRED,
};

verus! {

/// A trader's position in one pair.
#[derive(Clone, Copy, Debug)]
pub struct AccountPosition {
    pub amount: Decimal,
    pub cost: Decimal,
    pub funding_index: Decimal,
}

/// The numbers of an [`AccountPosition`].
pub struct AccountPositionView {
    pub amount: int,
    pub cost: int,
    pub funding_index: int,
}

impl View for AccountPosition {
    type V = AccountPositionView;

    open spec fn view(&self) -> AccountPositionView {
        AccountPositionView { amount: self.amount@, cost: self.cost@, funding_index: self.funding_index@ }
    }
}

/// The positions of a list of entries, by the views of their pairs and numbers.
pub open spec fn entry_views(entries: Seq<(PairId, AccountPosition)>) -> Seq<(Seq<char>, AccountPositionView)> {
    entries.map_values(|e: (PairId, AccountPosition)| (e.0@, e.1@))
}

/// Whether some entry of a list of views has the pair `k`.
pub open spec fn view_has<V>(views: Seq<(Seq<char>, V)>, k: Seq<char>) -> bool {
    exists|i: int| 0 <= i < views.len() && #[trigger] views[i].0 == k
}

/// The position of the entry with pair `k`.
pub open spec fn view_pos<V>(views: Seq<(Seq<char>, V)>, k: Seq<char>) -> int {
    choose|i: int| 0 <= i < views.len() && #[trigger] views[i].0 == k
}

/// The list of views with `v` stored under `k`: in place when `k` has an entry,
/// else appended.
pub open spec fn insert_view<V>(views: Seq<(Seq<char>, V)>, k: Seq<char>, v: V) -> Seq<(Seq<char>, V)> {
    if view_has(views, k) {
        views.update(view_pos(views, k), (k, v))
    } else {
        views.push((k, v))
    }
}

/// An entry has pair `k` exactly when its view does.
pub proof fn lemma_view_has(entries: Seq<(PairId, AccountPosition)>, k: Seq<char>)
    ensures
        view_has(entry_views(entries), k) == has_key(entries, k),
{
    let views = entry_views(entries);
    if has_key(entries, k) {
        let i = key_pos(entries, k);
        assert(views[i].0 == k);
    }
    if view_has(views, k) {
        let i = view_pos(views, k);
        assert(entries[i].0.key_view() == k);
    }
}

/// Storing a position in a map of positions stores its view in the list of views.
pub proof fn lemma_insert_views(entries: Seq<(PairId, AccountPosition)>, key: PairId, v: AccountPosition)
    requires
        keys_distinct(entries),
    ensures
        has_key(entries, key@) ==> entry_views(entries.update(key_pos(entries, key@), (entries[key_pos(entries, key@)].0, v)))
            == insert_view(entry_views(entries), key@, v@),
        !has_key(entries, key@) ==> entry_views(entries.push((key, v))) == insert_view(entry_views(entries), key@, v@),
        view_has(entry_views(entries), key@) == has_key(entries, key@),
{
    let views = entry_views(entries);
    let k = key@;
    assert(view_has(views, k) == has_key(entries, k)) by {
        if has_key(entries, k) {
            let i = key_pos(entries, k);
            assert(views[i].0 == k);
        }
        if view_has(views, k) {
            let i = view_pos(views, k);
            assert(entries[i].0.key_view() == k);
        }
    }
    if has_key(entries, k) {
        let p = key_pos(entries, k);
        let q = view_pos(views, k);
        assert(views[q].0 == k);
        assert(entries[q].0.key_view() == k);
        assert(p == q);
        assert(entry_views(entries.update(p, (entries[p].0, v))) =~= views.update(q, (k, v@)));
    } else {
        assert(entry_views(entries.push((key, v))) =~= views.push((k, v@)));
    }
}

/// The numbers of the position with pair `k` in a list of views (an empty
/// position when there is none).
pub open spec fn pos_in(views: Seq<(Seq<char>, AccountPositionView)>, k: Seq<char>) -> AccountPositionView {
    if view_has(views, k) {
        views[view_pos(views, k)].1
    } else {
        AccountPositionView { amount: 0, cost: 0, funding_index: 0 }
    }
}

/// The pairs of a list of views.
pub open spec fn view_keys<V>(views: Seq<(Seq<char>, V)>) -> Set<Seq<char>> {
    Set::new(|k: Seq<char>| view_has(views, k))
}

/// The list of views of a map of positions reads as the map does.
pub proof fn lemma_pos_in(entries: Seq<(PairId, AccountPosition)>, k: Seq<char>)
    requires
        keys_distinct(entries),
    ensures
        view_has(entry_views(entries), k) == crate::map::seq_map(entries).dom().contains(k),
        view_has(entry_views(entries), k) ==> pos_in(entry_views(entries), k) == crate::map::seq_map(entries)[k]@,
        view_keys(entry_views(entries)) == crate::map::seq_map(entries).dom(),
{
    lemma_view_has(entries, k);
    let views = entry_views(entries);
    if view_has(views, k) {
        let i = view_pos(views, k);
        let j = key_pos(entries, k);
        assert(entries[i].0.key_view() == k);
        assert(entries[j].0.key_view() == k);
    }
    assert forall|q: Seq<char>| view_keys(views).contains(q) == crate::map::seq_map(entries).dom().contains(q) by {
        lemma_view_has(entries, q);
    }
    assert(view_keys(views) =~= crate::map::seq_map(entries).dom());
}

/// Whether no pair occurs twice in a list of views.
pub open spec fn views_distinct<V>(views: Seq<(Seq<char>, V)>) -> bool {
    forall|i: int, j: int|
        0 <= i < views.len() && 0 <= j < views.len() && i != j ==> #[trigger] views[i].0 != #[trigger] views[j].0
}

/// The views of entries with distinct keys have distinct pairs.
pub proof fn lemma_entry_views_distinct(entries: Seq<(PairId, AccountPosition)>)
    requires
        keys_distinct(entries),
    ensures
        views_distinct(entry_views(entries)),
{
    let views = entry_views(entries);
    assert forall|i: int, j: int| 0 <= i < views.len() && 0 <= j < views.len() && i != j implies #[trigger] views[i].0
        != #[trigger] views[j].0 by {
        assert(entries[i].0.key_view() != entries[j].0.key_view());
    }
}

/// Storing a position under `k` in a list of views: reading `k` gives it back,
/// other pairs read as before, and no pair occurs twice.
pub proof fn lemma_pos_in_insert(views: Seq<(Seq<char>, AccountPositionView)>, k: Seq<char>, v: AccountPositionView)
    requires
        views_distinct(views),
    ensures
        pos_in(insert_view(views, k, v), k) == v,
        views_distinct(insert_view(views, k, v)),
        forall|q: Seq<char>| q != k ==> #[trigger] pos_in(insert_view(views, k, v), q) == pos_in(views, q),
        view_keys(insert_view(views, k, v)) == view_keys(views).insert(k),
        insert_view(views, k, v).len() == (if view_has(views, k) { views.len() } else { views.len() + 1 }),
{
    let w = insert_view(views, k, v);
    if view_has(views, k) {
        let i = view_pos(views, k);
        assert(w[i].0 == k);
        assert(view_has(w, k));
        let j = view_pos(w, k);
        assert(w[j].0 == k);
        assert(j == i) by {
            if j != i {
                assert(views[j].0 == k);
            }
        }
        assert forall|q: Seq<char>| q != k implies #[trigger] pos_in(w, q) == pos_in(views, q) by {
            if view_has(views, q) {
                let a = view_pos(views, q);
                assert(a != i);
                assert(w[a].0 == q);
                assert(view_has(w, q));
                let b = view_pos(w, q);
                assert(b != i);
                assert(views[b].0 == q);
            }
            if view_has(w, q) {
                let b = view_pos(w, q);
                assert(b != i);
                assert(views[b].0 == q);
            }
        }
        assert forall|q: Seq<char>| view_keys(w).contains(q) == view_keys(views).insert(k).contains(q) by {
            if view_has(views, q) {
                let a = view_pos(views, q);
                if a != i {
                    assert(w[a].0 == q);
                }
            }
            if view_has(w, q) {
                let b = view_pos(w, q);
                if b != i {
                    assert(views[b].0 == q);
                }
            }
        }
    } else {
        let n = views.len() as int;
        assert(w[n].0 == k);
        assert(view_has(w, k));
        let j = view_pos(w, k);
        assert(j == n) by {
            if j != n {
                assert(views[j].0 == k);
            }
        }
        assert forall|q: Seq<char>| q != k implies #[trigger] pos_in(w, q) == pos_in(views, q) by {
            if view_has(views, q) {
                let a = view_pos(views, q);
                assert(w[a].0 == q);
                assert(view_has(w, q));
                let b = view_pos(w, q);
                assert(b != n);
                assert(views[b].0 == q);
            }
            if view_has(w, q) {
                let b = view_pos(w, q);
                assert(b != n);
                assert(views[b].0 == q);
            }
        }
        assert forall|q: Seq<char>| view_keys(w).contains(q) == view_keys(views).insert(k).contains(q) by {
            if view_has(views, q) {
                let a = view_pos(views, q);
                assert(w[a].0 == q);
            }
            if view_has(w, q) {
                let b = view_pos(w, q);
                if b != n {
                    assert(views[b].0 == q);
                }
            }
        }
    }
    assert(view_keys(w) =~= view_keys(views).insert(k));
}

/// A list of views with every position emptied.
pub open spec fn zeroed(views: Seq<(Seq<char>, AccountPositionView)>) -> Seq<(Seq<char>, AccountPositionView)> {
    views.map_values(|e: (Seq<char>, AccountPositionView)| (e.0, AccountPositionView { amount: 0, cost: 0, funding_index: 0 }))
}

/// The pairs of a list of views, in order.
pub open spec fn view_pairs(views: Seq<(Seq<char>, AccountPositionView)>) -> Seq<Seq<char>> {
    views.map_values(|e: (Seq<char>, AccountPositionView)| e.0)
}

/// The balances of a list of collateral entries, as numbers.
pub open spec fn coll_views(entries: Seq<(ResourceAddress, Decimal)>) -> Seq<(ResourceAddress, int)> {
    entries.map_values(|e: (ResourceAddress, Decimal)| (e.0, e.1@))
}

/// The collateral list after depositing each token in turn: added to the
/// balance of its resource, or appended as a new entry.
pub open spec fn deposit_entries(entries: Seq<(ResourceAddress, int)>, tokens: Seq<(ResourceAddress, int)>) -> Seq<
    (ResourceAddress, int),
>
    decreases tokens.len(),
{
    if tokens.len() == 0 {
        entries
    } else {
        let e = deposit_entries(entries, tokens.drop_last());
        let (res, amount) = tokens.last();
        if has_key(e, res) {
            let i = key_pos(e, res);
            e.update(i, (res, e[i].1 + amount))
        } else {
            e.push((res, amount))
        }
    }
}

/// The collateral list after each claim in turn takes its amount from the
/// balance of its resource; a balance that reaches zero leaves the list.
pub open spec fn withdraw_entries(entries: Seq<(ResourceAddress, int)>, claims: Seq<(ResourceAddress, int)>) -> Seq<
    (ResourceAddress, int),
>
    decreases claims.len(),
{
    if claims.len() == 0 {
        entries
    } else {
        let e = withdraw_entries(entries, claims.drop_last());
        let (res, amount) = claims.last();
        let i = key_pos(e, res);
        if e[i].1 - amount == 0 {
            e.remove(i)
        } else {
            e.update(i, (res, e[i].1 - amount))
        }
    }
}

/// The numbers of a collateral list find their entries as the list does.
pub proof fn lemma_coll_views_key(e: Seq<(ResourceAddress, Decimal)>, res: ResourceAddress)
    requires
        keys_distinct(e),
    ensures
        keys_distinct(coll_views(e)),
        has_key(coll_views(e), res) == has_key(e, res),
        has_key(e, res) ==> key_pos(coll_views(e), res) == key_pos(e, res),
        has_key(e, res) ==> coll_views(e)[key_pos(e, res)] == (e[key_pos(e, res)].0, e[key_pos(e, res)].1@),
{
    let c = coll_views(e);
    assert forall|i: int, j: int| 0 <= i < c.len() && 0 <= j < c.len() && i != j implies #[trigger] c[i].0.key_view()
        != #[trigger] c[j].0.key_view() by {
        assert(e[i].0.key_view() != e[j].0.key_view());
    }
    if has_key(e, res) {
        let i = key_pos(e, res);
        assert(e[i].0.key_view() == res);
        assert(c[i].0.key_view() == res);
        crate::map::lemma_key_pos_unique(c, i);
        crate::map::lemma_key_pos_unique(e, i);
    }
    if has_key(c, res) {
        let i = key_pos(c, res);
        assert(c[i].0.key_view() == res);
        assert(e[i].0.key_view() == res);
    }
}

/// The balance of `res` in a map of balances by resource (zero when absent).
pub open spec fn map_balance(m: AssocMap<ResourceAddress, Decimal>, res: ResourceAddress) -> int {
    if m.view_map().dom().contains(res) {
        m.view_map()[res]@
    } else {
        0
    }
}

/// Adds the amounts to a map of balances by resource: to the balance of each
/// resource, or as a new entry after the others. The amounts are not negative,
/// or each names a different resource.
pub fn add_amounts(balances: &mut AssocMap<ResourceAddress, Decimal>, tokens: &Vec<(ResourceAddress, Decimal)>)
    requires
        (forall|i: int| 0 <= i < tokens@.len() ==> tokens@[i].1@ >= 0) || keys_distinct(tokens@),
        forall|res: ResourceAddress| in_range(map_balance(*old(balances), res) + deposit_total(tokens@, res)),
    ensures
        forall|res: ResourceAddress| #[trigger] map_balance(*final(balances), res) == map_balance(*old(balances), res)
            + deposit_total(tokens@, res),
        forall|res: ResourceAddress| #[trigger] final(balances).view_map().dom().contains(res)
            <==> (old(balances).view_map().dom().contains(res) || has_key(tokens@, res)),
        coll_views(final(balances).entries()) == deposit_entries(
            coll_views(old(balances).entries()),
            coll_views(tokens@),
        ),
{
    let mut i: usize = 0;
    while i < tokens.len()
        invariant
            i <= tokens@.len(),
            (forall|j: int| 0 <= j < tokens@.len() ==> tokens@[j].1@ >= 0) || keys_distinct(tokens@),
            forall|res: ResourceAddress| in_range(map_balance(*old(balances), res) + deposit_total(tokens@, res)),
            forall|res: ResourceAddress| #[trigger] map_balance(*balances, res) == map_balance(*old(balances), res)
                + deposit_total(tokens@.subrange(0, i as int), res),
            forall|res: ResourceAddress| #[trigger] balances.view_map().dom().contains(res)
                <==> (old(balances).view_map().dom().contains(res) || has_key(tokens@.subrange(0, i as int), res)),
            coll_views(balances.entries()) == deposit_entries(
                coll_views(old(balances).entries()),
                coll_views(tokens@.subrange(0, i as int)),
            ),
        decreases tokens@.len() - i,
    {
        let (resource, amount) = tokens[i];
        let ghost pre = tokens@.subrange(0, i as int);
        let ghost post = tokens@.subrange(0, i as int + 1);
        proof {
            assert(post.drop_last() =~= pre);
            assert(post.last() == tokens@[i as int]);
            if forall|j: int| 0 <= j < tokens@.len() ==> tokens@[j].1@ >= 0 {
                lemma_deposit_total_nonneg_prefix(tokens@, i as int + 1, resource);
                lemma_deposit_total_prefix_le(tokens@, i as int + 1, resource);
            } else {
                lemma_deposit_total_distinct_prefix(tokens@, i as int + 1, resource);
                if old(balances).view_map().dom().contains(resource) {
                    crate::decimal::lemma_decimal_in_range(old(balances).view_map()[resource]);
                }
            }
        }
        proof {
            use_type_invariant(&*balances);
            AssocMap::lemma_inv_distinct(*balances);
            lemma_coll_views_key(balances.entries(), resource);
            assert(coll_views(post).drop_last() =~= coll_views(pre));
            assert(coll_views(post).last() == (resource, amount@));
        }
        let balance = match balances.get(&resource) {
            Some(b) => *b,
            None => Decimal::zero(),
        };
        assert(balance@ == map_balance(*balances, resource));
        let new_balance = balance.add(amount);
        let ghost prev = balances.view_map();
        let ghost before_entries = balances.entries();
        let ghost before = *balances;
        balances.insert(resource, new_balance);
        proof {
            let e0 = coll_views(before_entries);
            let e1 = coll_views(balances.entries());
            if has_key(before_entries, resource) {
                assert(e1 =~= e0.update(key_pos(e0, resource), (resource, e0[key_pos(e0, resource)].1 + amount@)));
            } else {
                assert(e1 =~= e0.push((resource, amount@)));
            }
        }
        i = i + 1;
        proof {
            assert forall|res: ResourceAddress| #[trigger] map_balance(*balances, res) == map_balance(*old(balances), res)
                + deposit_total(post, res) by {
                assert(deposit_total(post, res) == deposit_total(pre, res) + if post.last().0 == res {
                    post.last().1@
                } else {
                    0
                });
                if res != resource {
                    assert(balances.view_map().dom().contains(res) == prev.dom().contains(res));
                    assert(map_balance(*balances, res) == map_balance(before, res));
                }
            }
            assert forall|res: ResourceAddress| #[trigger] balances.view_map().dom().contains(res)
                <==> (old(balances).view_map().dom().contains(res) || has_key(post, res)) by {
                if has_key(post, res) && !has_key(pre, res) {
                    assert(res == resource) by {
                        let k = choose|k: int| 0 <= k < post.len() && #[trigger] post[k].0.key_view() == res;
                        if k < pre.len() {
                            assert(pre[k] == post[k]);
                            assert(pre[k].0.key_view() == res);
                            assert(has_key(pre, res));
                        } else {
                            assert(k == pre.len());
                            assert(post[k] == post.last());
                            assert(post.last().0 == resource);
                            assert(post[k].0.key_view() == post[k].0);
                        }
                    }
                }
                if has_key(pre, res) {
                    let k = choose|k: int| 0 <= k < pre.len() && #[trigger] pre[k].0.key_view() == res;
                    assert(post[k] == pre[k]);
                }
                if res == resource {
                    assert(post[i - 1].0.key_view() == res);
                }
            }
        }
    }
    assert(tokens@.subrange(0, tokens@.len() as int) =~= tokens@);
}


impl AccountPosition {
    pub open spec fn is_empty(self) -> bool {
        self.amount@ == 0 && self.cost@ == 0 && self.funding_index@ == 0
    }

    /// An empty position.
    pub fn default() -> (r: AccountPosition)
        ensures
            r.is_empty(),
    {
        AccountPosition { amount: Decimal::zero(), cost: Decimal::zero(), funding_index: Decimal::zero() }
    }

    /// Empties the position.
    pub fn remove(&mut self)
        ensures
            final(self).is_empty(),
    {
        self.amount = Decimal::zero();
        self.cost = Decimal::zero();
        self.funding_index = Decimal::zero();
    }
}

/// The terms of a referral badge.
#[derive(Clone, Copy, Debug)]
pub struct ReferralData {
    pub fee_referral: Decimal,
    pub fee_rebate: Decimal,
    pub referrals: u64,
    pub max_referrals: u64,
    pub balance: Decimal,
    pub total_rewarded: Decimal,
}

/// The numbers of a [`ReferralData`].
pub struct ReferralView {
    pub fee_referral: int,
    pub fee_rebate: int,
    pub referrals: u64,
    pub max_referrals: u64,
    pub balance: int,
    pub total_rewarded: int,
}

impl View for ReferralData {
    type V = ReferralView;

    open spec fn view(&self) -> ReferralView {
        ReferralView {
            fee_referral: self.fee_referral@,
            fee_rebate: self.fee_rebate@,
            referrals: self.referrals,
            max_referrals: self.max_referrals,
            balance: self.balance@,
            total_rewarded: self.total_rewarded@,
        }
    }
}

/// The view of an optional referral.
pub open spec fn referral_view(r: Option<ReferralData>) -> Option<ReferralView> {
    match r {
        Some(d) => Some(d@),
        None => None,
    }
}

/// A request stored in an account, with the window in which a keeper may
/// process it (seconds since the Unix epoch) and its status.
pub struct KeeperRequest {
    pub request: Request,
    pub submission: i64,
    pub expiry: i64,
    pub status: u8,
    pub effected_components: Vec<ComponentAddress>,
}

/// Whether two stored requests hold the same request, window, status and components.
pub open spec fn same_request(a: KeeperRequest, b: KeeperRequest) -> bool {
    &&& a.request@ == b.request@
    &&& a.submission == b.submission
    &&& a.expiry == b.expiry
    &&& a.status == b.status
    &&& a.effected_components@ == b.effected_components@
}

impl KeeperRequest {
    /// A copy of the stored request.
    pub fn copy(&self) -> (r: KeeperRequest)
        ensures
            same_request(r, *self),
    {
        let mut components: Vec<ComponentAddress> = Vec::new();
        let mut i: usize = 0;
        while i < self.effected_components.len()
            invariant
                i <= self.effected_components@.len(),
                components@ == self.effected_components@.subrange(0, i as int),
            decreases self.effected_components@.len() - i,
        {
            components.push(self.effected_components[i]);
            i = i + 1;
            assert(components@ =~= self.effected_components@.subrange(0, i as int));
        }
        assert(components@ =~= self.effected_components@);
        KeeperRequest {
            request: self.request.copy(),
            submission: self.submission,
            expiry: self.expiry,
            status: self.status,
            effected_components: components,
        }
    }
}

/// What the ledger's margin account holds, as an operation loads it.
pub struct MarginAccountInfo {
    pub positions: AssocMap<PairId, AccountPosition>,
    pub collateral_balances: AssocMap<ResourceAddress, Decimal>,
    pub virtual_balance: Decimal,
    pub requests_len: ListIndex,
    pub active_requests_len: usize,
    pub valid_requests_start: ListIndex,
}

/// The entries whose pairs are in `updated`, in order.
pub open spec fn updated_entries(
    entries: Seq<(PairId, AccountPosition)>,
    updated: Set<Seq<char>>,
) -> Seq<(PairId, AccountPosition)>
    decreases entries.len(),
{
    if entries.len() == 0 {
        Seq::empty()
    } else {
        let rest = updated_entries(entries.drop_last(), updated);
        if updated.contains(entries.last().0@) {
            rest.push(entries.last())
        } else {
            rest
        }
    }
}

/// What the ledger's margin account is told after an operation.
pub struct MarginAccountUpdates {
    pub position_updates: Vec<(PairId, AccountPosition)>,
    pub virtual_balance: Decimal,
    pub valid_requests_start: ListIndex,
    pub request_additions: Vec<KeeperRequest>,
    pub request_updates: Vec<(ListIndex, KeeperRequest)>,
    pub active_request_additions: Vec<ListIndex>,
    pub active_request_removals: Vec<ListIndex>,
}

/// Whether a request in status `from` may move to status `to`.
pub open spec fn phase_allows(to: u8, from: u8) -> bool {
    ||| to == STATUS_ACTIVE && from == STATUS_DORMANT
    ||| to == STATUS_EXECUTED && from == STATUS_ACTIVE
    ||| to == STATUS_CANCELLED && (from == STATUS_ACTIVE || from == STATUS_DORMANT)
}

/// Whether a status counts among an account's active requests.
pub open spec fn is_live(status: u8) -> bool {
    status == STATUS_ACTIVE || status == STATUS_DORMANT
}

/// The statuses from which a request may move to `status` (one of active,
/// executed or cancelled).
pub fn status_phases(status: u8) -> (r: Vec<u8>)
    requires
        status == STATUS_ACTIVE || status == STATUS_EXECUTED || status == STATUS_CANCELLED,
    ensures
        forall|from: u8| r@.contains(from) <==> phase_allows(status, from),
{
    let r = if status == STATUS_ACTIVE {
        vec![STATUS_DORMANT]
    } else if status == STATUS_EXECUTED {
        vec![STATUS_ACTIVE]
    } else {
        vec![STATUS_ACTIVE, STATUS_DORMANT]
    };
    assert forall|from: u8| r@.contains(from) <==> phase_allows(status, from) by {
        if phase_allows(status, from) {
            if status == STATUS_CANCELLED && from == STATUS_DORMANT {
                assert(r@[1] == from);
            } else {
                assert(r@[0] == from);
            }
        }
    }
    r
}

/// A working copy of a margin account: its positions, collateral balances,
/// virtual balance and requests, with a record of what an operation changed.
pub struct VirtualMarginAccount {
    pub address: ComponentAddress,
    pub positions: AssocMap<PairId, AccountPosition>,
    pub collateral_balances: AssocMap<ResourceAddress, Decimal>,
    pub virtual_balance: Decimal,
    pub valid_requests_start: ListIndex,
    pub requests_len: ListIndex,
    pub active_requests_len: usize,
    pub positions_updated: AssocMap<PairId, ()>,
    pub request_additions: Vec<KeeperRequest>,
    /// Requests whose status changed, by index.
    pub request_updates: AssocMap<ListIndex, KeeperRequest>,
    /// Requests as the ledger holds them, fetched for this operation.
    pub request_cache: AssocMap<ListIndex, KeeperRequest>,
    pub active_request_additions: Vec<ListIndex>,
    pub active_request_removals: Vec<ListIndex>,
    pub referral: Option<ReferralData>,
    pub referral_rewarded: bool,
}

/// The statuses of the requests that an account knows, the changed ones
/// taking precedence over the fetched ones.
pub open spec fn known_requests(
    cache: Map<ListIndex, KeeperRequest>,
    updates: Map<ListIndex, KeeperRequest>,
) -> Map<ListIndex, KeeperRequest> {
    cache.union_prefer_right(updates)
}

/// `r` with another status.
pub open spec fn with_status(r: KeeperRequest, status: u8) -> KeeperRequest {
    KeeperRequest { status, ..r }
}

impl VirtualMarginAccount {
    /// The requests this working copy knows.
    pub open spec fn requests(self) -> Map<ListIndex, KeeperRequest> {
        known_requests(self.request_cache.view_map(), self.request_updates.view_map())
    }

    pub open spec fn knows(self, index: ListIndex) -> bool {
        self.requests().dom().contains(index)
    }

    /// The account's positions in order, as views.
    pub open spec fn position_views(self) -> Seq<(Seq<char>, AccountPositionView)> {
        entry_views(self.positions.entries())
    }

    /// The position of a pair (empty when the account has none).
    pub open spec fn position_of(self, pair_id: Seq<char>) -> AccountPosition {
        if self.positions.view_map().dom().contains(pair_id) {
            self.positions.view_map()[pair_id]
        } else {
            AccountPosition {
                amount: Decimal { digits: [0, 0, 0] },
                cost: Decimal { digits: [0, 0, 0] },
                funding_index: Decimal { digits: [0, 0, 0] },
            }
        }
    }

    /// The collateral balance of a resource (zero when there is none).
    pub open spec fn collateral_of(self, resource: ResourceAddress) -> int {
        map_balance(self.collateral_balances, resource)
    }

    /// Everything but the requests and their bookkeeping is as in `other`.
    pub open spec fn same_but_requests(self, other: Self) -> bool {
        &&& self.address == other.address
        &&& self.positions == other.positions
        &&& self.collateral_balances == other.collateral_balances
        &&& self.virtual_balance == other.virtual_balance
        &&& self.valid_requests_start == other.valid_requests_start
        &&& self.requests_len == other.requests_len
        &&& self.positions_updated == other.positions_updated
        &&& self.referral == other.referral
        &&& self.referral_rewarded == other.referral_rewarded
    }

    /// Whether `u` is what writing this working copy back tells the ledger: the
    /// positions it changed, its virtual balance and valid-requests start, and
    /// its pending request changes.
    pub open spec fn realizes(self, u: MarginAccountUpdates) -> bool {
        &&& u.position_updates@ == updated_entries(self.positions.entries(), self.positions_updated.view_map().dom())
        &&& u.virtual_balance == self.virtual_balance
        &&& u.valid_requests_start == self.valid_requests_start
        &&& u.request_additions == self.request_additions
        &&& u.request_updates@ == self.request_updates.entries()
        &&& u.active_request_additions == self.active_request_additions
        &&& u.active_request_removals == self.active_request_removals
    }

    /// The changes to the requests not yet written back are as in `other`.
    pub open spec fn same_request_changes(self, other: Self) -> bool {
        &&& self.request_additions == other.request_additions
        &&& self.request_updates == other.request_updates
        &&& self.request_cache == other.request_cache
        &&& self.active_request_additions == other.active_request_additions
        &&& self.active_request_removals == other.active_request_removals
    }

    /// The position of a pair; an empty one when the account has none.
    pub fn position(&self, pair_id: &PairId) -> (r: AccountPosition)
        ensures
            r == self.position_of(pair_id@),
    {
        match self.positions.get(pair_id) {
            Some(p) => *p,
            None => AccountPosition {
                amount: Decimal { digits: [0, 0, 0] },
                cost: Decimal { digits: [0, 0, 0] },
                funding_index: Decimal { digits: [0, 0, 0] },
            },
        }
    }

    /// Stores the position of a pair and records it as changed.
    pub fn set_position(&mut self, pair_id: &PairId, position: AccountPosition)
        ensures
            final(self).same_request_changes(*old(self)),
            final(self).positions.view_map() == old(self).positions.view_map().insert(
                pair_id@,
                position,
            ),
            final(self).position_views() == insert_view(old(self).position_views(), pair_id@, position@),
            final(self).positions_updated.view_map().dom() == old(
                self,
            ).positions_updated.view_map().dom().insert(pair_id@),
            final(self).address == old(self).address,
            final(self).collateral_balances == old(self).collateral_balances,
            final(self).virtual_balance == old(self).virtual_balance,
            final(self).referral == old(self).referral,
            final(self).referral_rewarded == old(self).referral_rewarded,
            final(self).requests() == old(self).requests(),
            final(self).active_requests_len == old(self).active_requests_len,
            final(self).requests_len == old(self).requests_len,
            final(self).valid_requests_start == old(self).valid_requests_start,
    {
        proof {
            use_type_invariant(&self.positions);
            AssocMap::lemma_inv_distinct(self.positions);
            lemma_insert_views(self.positions.entries(), *pair_id, position);
        }
        self.positions.insert(pair_id.key_clone(), position);
        self.positions_updated.insert(pair_id.key_clone(), ());
    }

    /// Records every position of the account as changed.
    pub fn touch_positions(&mut self)
        ensures
            final(self).same_request_changes(*old(self)),
            final(self).positions_updated.view_map().dom() == old(self).positions_updated.view_map().dom().union(
                old(self).positions.view_map().dom(),
            ),
            final(self).positions == old(self).positions,
            final(self).collateral_balances == old(self).collateral_balances,
            final(self).virtual_balance == old(self).virtual_balance,
            final(self).referral == old(self).referral,
            final(self).referral_rewarded == old(self).referral_rewarded,
            final(self).address == old(self).address,
            final(self).requests() == old(self).requests(),
            final(self).active_requests_len == old(self).active_requests_len,
            final(self).requests_len == old(self).requests_len,
            final(self).valid_requests_start == old(self).valid_requests_start,
    {
        let mut i: usize = 0;
        proof {
            use_type_invariant(&self.positions);
            AssocMap::lemma_inv_distinct(self.positions);
        }
        while i < self.positions.len()
            invariant
                self.same_request_changes(*old(self)),
                i <= self.positions.entries().len(),
                self.positions == old(self).positions,
                self.collateral_balances == old(self).collateral_balances,
                self.virtual_balance == old(self).virtual_balance,
                self.referral == old(self).referral,
                self.referral_rewarded == old(self).referral_rewarded,
                self.address == old(self).address,
                self.requests() == old(self).requests(),
                self.active_requests_len == old(self).active_requests_len,
                self.requests_len == old(self).requests_len,
                self.valid_requests_start == old(self).valid_requests_start,
                crate::map::keys_distinct(self.positions.entries()),
                forall|k: Seq<char>| self.positions_updated.view_map().dom().contains(k) <==> (old(self).positions_updated.view_map().dom().contains(k)
                    || exists|j: int| 0 <= j < i && #[trigger] self.positions.entries()[j].0@ == k),
            decreases self.positions.entries().len() - i,
        {
            let key = self.positions.key_at(i).key_clone();
            self.positions_updated.insert(key, ());
            proof {
                assert(self.positions.entries()[i as int].0@ == key@);
            }
            i = i + 1;
        }
        assert forall|k: Seq<char>| old(self).positions.view_map().dom().contains(k) <==> exists|j: int|
            0 <= j < self.positions.entries().len() && #[trigger] self.positions.entries()[j].0@ == k by {
            if old(self).positions.view_map().dom().contains(k) {
                assert(has_key(self.positions.entries(), k));
            }
            if exists|j: int| 0 <= j < self.positions.entries().len() && #[trigger] self.positions.entries()[j].0@ == k {
                let j = choose|j: int| 0 <= j < self.positions.entries().len() && #[trigger] self.positions.entries()[j].0@ == k;
                assert(self.positions.entries()[j].0.key_view() == k);
            }
        }
        assert(self.positions_updated.view_map().dom() =~= old(self).positions_updated.view_map().dom().union(
            old(self).positions.view_map().dom()));
    }

    /// Empties every position of the account (they stay listed, with nothing in
    /// them) and records them all as changed.
    pub fn clear_positions(&mut self)
        ensures
            final(self).same_request_changes(*old(self)),
            final(self).position_views() == zeroed(old(self).position_views()),
            final(self).positions_updated.view_map().dom() == old(self).positions_updated.view_map().dom().union(
                old(self).positions.view_map().dom(),
            ),
            final(self).collateral_balances == old(self).collateral_balances,
            final(self).virtual_balance == old(self).virtual_balance,
            final(self).referral == old(self).referral,
            final(self).referral_rewarded == old(self).referral_rewarded,
            final(self).address == old(self).address,
            final(self).requests() == old(self).requests(),
            final(self).active_requests_len == old(self).active_requests_len,
            final(self).requests_len == old(self).requests_len,
            final(self).valid_requests_start == old(self).valid_requests_start,
    {
        self.touch_positions();
        let ghost entries0 = self.positions.entries();
        let mut i: usize = 0;
        while i < self.positions.len()
            invariant
                self.same_request_changes(*old(self)),
                i <= entries0.len(),
                self.positions.entries().len() == entries0.len(),
                forall|j: int| 0 <= j < entries0.len() ==> (#[trigger] self.positions.entries()[j]).0 == entries0[j].0,
                forall|j: int| 0 <= j < i ==> (#[trigger] self.positions.entries()[j]).1.is_empty(),
                forall|j: int| i <= j < entries0.len() ==> (#[trigger] self.positions.entries()[j]).1 == entries0[j].1,
                self.positions_updated.view_map().dom() == old(self).positions_updated.view_map().dom().union(
                    old(self).positions.view_map().dom(),
                ),
                entries0 == old(self).positions.entries(),
                self.collateral_balances == old(self).collateral_balances,
                self.virtual_balance == old(self).virtual_balance,
                self.referral == old(self).referral,
                self.referral_rewarded == old(self).referral_rewarded,
                self.address == old(self).address,
                self.requests() == old(self).requests(),
                self.active_requests_len == old(self).active_requests_len,
                self.requests_len == old(self).requests_len,
                self.valid_requests_start == old(self).valid_requests_start,
            decreases entries0.len() - i,
        {
            self.positions.set_value_at(i, AccountPosition::default());
            i = i + 1;
        }
        assert(self.position_views() =~= zeroed(old(self).position_views()));
    }

    /// The pairs in which the account holds a position.
    pub fn position_ids(&self) -> (r: Vec<PairId>)
        ensures
            r@.len() == self.positions.entries().len(),
            forall|i: int|
                0 <= i < r@.len() ==> r@[i]@ == (#[trigger] self.positions.entries()[i]).0@,
    {
        let mut r: Vec<PairId> = Vec::new();
        let mut i: usize = 0;
        while i < self.positions.len()
            invariant
                i <= self.positions.entries().len(),
                r@.len() == i,
                forall|j: int| 0 <= j < i ==> r@[j]@ == (#[trigger] self.positions.entries()[j]).0@,
            decreases self.positions.entries().len() - i,
        {
            r.push(self.positions.key_at(i).key_clone());
            i = i + 1;
        }
        r
    }

    /// The referrer's share of the fees (zero without a referral).
    pub fn fee_share_referral(&self) -> (r: Decimal)
        ensures
            r@ == match self.referral {
                Some(d) => d.fee_referral@,
                None => 0,
            },
    {
        match &self.referral {
            Some(d) => d.fee_referral,
            None => Decimal::zero(),
        }
    }

    /// The factor applied to the account's trading fees: one minus the referral's
    /// rebate, or one (the full fee) without a referral.
    pub fn fee_rebate(&self) -> (r: Decimal)
        requires
            self.referral matches Some(d) ==> in_range(scale() - d.fee_rebate@),
        ensures
            r@ == match self.referral {
                Some(d) => scale() - d.fee_rebate@,
                None => scale(),
            },
    {
        match &self.referral {
            Some(d) => Decimal::one().sub(d.fee_rebate),
            None => Decimal::one(),
        }
    }

    /// Credits the referrer with `amount` (nothing without a referral).
    pub fn reward_referral(&mut self, amount: Decimal)
        requires
            old(self).referral matches Some(d) ==> in_range(d.balance@ + amount@) && in_range(
                d.total_rewarded@ + amount@,
            ),
        ensures
            final(self).same_request_changes(*old(self)),
            match old(self).referral {
                Some(d) => final(self).referral matches Some(e) && e.balance@ == d.balance@ + amount@
                    && e.total_rewarded@ == d.total_rewarded@ + amount@ && e.fee_referral
                    == d.fee_referral && e.fee_rebate == d.fee_rebate && e.referrals
                    == d.referrals && e.max_referrals == d.max_referrals
                    && final(self).referral_rewarded,
                None => final(self).referral is None && final(self).referral_rewarded == old(
                    self,
                ).referral_rewarded,
            },
            final(self).address == old(self).address,
            final(self).positions == old(self).positions,
            final(self).collateral_balances == old(self).collateral_balances,
            final(self).virtual_balance == old(self).virtual_balance,
            final(self).positions_updated == old(self).positions_updated,
            final(self).requests() == old(self).requests(),
            final(self).active_requests_len == old(self).active_requests_len,
            final(self).requests_len == old(self).requests_len,
            final(self).valid_requests_start == old(self).valid_requests_start,
    {
        match self.referral {
            Some(d) => {
                let e = ReferralData {
                    balance: d.balance.add(amount),
                    total_rewarded: d.total_rewarded.add(amount),
                    ..d
                };
                self.referral = Some(e);
                self.referral_rewarded = true;
            },
            None => {},
        }
    }

    /// Adds to the account's virtual balance.
    pub fn add_virtual_balance(&mut self, amount: Decimal)
        requires
            in_range(old(self).virtual_balance@ + amount@),
        ensures
            final(self).same_request_changes(*old(self)),
            final(self).virtual_balance@ == old(self).virtual_balance@ + amount@,
            final(self).positions == old(self).positions,
            final(self).collateral_balances == old(self).collateral_balances,
            final(self).referral == old(self).referral,
            final(self).referral_rewarded == old(self).referral_rewarded,
            final(self).address == old(self).address,
            final(self).positions_updated == old(self).positions_updated,
            final(self).requests() == old(self).requests(),
            final(self).active_requests_len == old(self).active_requests_len,
            final(self).requests_len == old(self).requests_len,
            final(self).valid_requests_start == old(self).valid_requests_start,
    {
        self.virtual_balance = self.virtual_balance.add(amount);
    }

    /// The collateral balance of a resource (zero when there is none).
    pub fn collateral_amount(&self, resource: &ResourceAddress) -> (r: Decimal)
        ensures
            r@ == self.collateral_of(*resource),
    {
        match self.collateral_balances.get(resource) {
            Some(a) => *a,
            None => Decimal::zero(),
        }
    }

    /// Adds deposited collateral to the balances.
    pub fn deposit_collateral_batch(&mut self, tokens: &Vec<(ResourceAddress, Decimal)>)
        requires
            (forall|i: int| 0 <= i < tokens@.len() ==> tokens@[i].1@ >= 0) || keys_distinct(tokens@),
            forall|res: ResourceAddress| in_range(old(self).collateral_of(res) + deposit_total(tokens@, res)),
        ensures
            final(self).same_request_changes(*old(self)),
            forall|res: ResourceAddress| #[trigger] final(self).collateral_of(res) == old(self).collateral_of(res)
                + deposit_total(tokens@, res),
            forall|res: ResourceAddress| #[trigger] final(self).collateral_balances.view_map().dom().contains(res)
                <==> (old(self).collateral_balances.view_map().dom().contains(res) || has_key(tokens@, res)),
            coll_views(final(self).collateral_balances.entries()) == deposit_entries(
                coll_views(old(self).collateral_balances.entries()),
                coll_views(tokens@),
            ),
            final(self).positions == old(self).positions,
            final(self).virtual_balance == old(self).virtual_balance,
            final(self).referral == old(self).referral,
            final(self).referral_rewarded == old(self).referral_rewarded,
            final(self).positions_updated == old(self).positions_updated,
            final(self).valid_requests_start == old(self).valid_requests_start,
            final(self).requests_len == old(self).requests_len,
            final(self).address == old(self).address,
            final(self).requests() == old(self).requests(),
            final(self).active_requests_len == old(self).active_requests_len,
    {
        add_amounts(&mut self.collateral_balances, tokens);
    }

    /// Takes every collateral balance out of the account, handing them back in
    /// order.
    pub fn take_all_collateral(&mut self) -> (r: Vec<(ResourceAddress, Decimal)>)
        ensures
            final(self).same_request_changes(*old(self)),
            r@ == old(self).collateral_balances.entries(),
            final(self).collateral_balances.entries().len() == 0,
            final(self).valid_requests_start == old(self).valid_requests_start,
            final(self).requests_len == old(self).requests_len,
            final(self).positions == old(self).positions,
            final(self).virtual_balance == old(self).virtual_balance,
            final(self).referral == old(self).referral,
            final(self).referral_rewarded == old(self).referral_rewarded,
            final(self).positions_updated == old(self).positions_updated,
            final(self).address == old(self).address,
            final(self).requests() == old(self).requests(),
            final(self).active_requests_len == old(self).active_requests_len,
    {
        let r = self.collateral_balances.to_vec();
        self.collateral_balances = AssocMap::new();
        r
    }

    /// Takes the claimed amounts out of the collateral balances (each claim names
    /// a different resource that the account holds, for no more than its
    /// balance); a balance that reaches zero leaves the list.
    pub fn withdraw_collateral_batch(&mut self, claims: &Vec<(ResourceAddress, Decimal)>)
        requires
            keys_distinct(claims@),
            forall|i: int| 0 <= i < claims@.len() ==> #[trigger] claims@[i].1@ >= 0,
            forall|i: int| 0 <= i < claims@.len() ==> old(self).collateral_balances.view_map().dom().contains(
                #[trigger] claims@[i].0,
            ) && old(self).collateral_of(claims@[i].0) >= claims@[i].1@,
        ensures
            final(self).same_request_changes(*old(self)),
            forall|res: ResourceAddress| #[trigger] final(self).collateral_of(res) == old(self).collateral_of(res)
                - deposit_total(claims@, res),
            forall|res: ResourceAddress| #[trigger] final(self).collateral_balances.view_map().dom().contains(res) <==> (old(
                self,
            ).collateral_balances.view_map().dom().contains(res) && !(has_key(claims@, res) && old(self).collateral_of(res)
                == deposit_total(claims@, res))),
            coll_views(final(self).collateral_balances.entries()) == withdraw_entries(
                coll_views(old(self).collateral_balances.entries()),
                coll_views(claims@),
            ),
            final(self).valid_requests_start == old(self).valid_requests_start,
            final(self).requests_len == old(self).requests_len,
            final(self).positions == old(self).positions,
            final(self).virtual_balance == old(self).virtual_balance,
            final(self).referral == old(self).referral,
            final(self).referral_rewarded == old(self).referral_rewarded,
            final(self).positions_updated == old(self).positions_updated,
            final(self).address == old(self).address,
            final(self).requests() == old(self).requests(),
            final(self).active_requests_len == old(self).active_requests_len,
    {
        let mut i: usize = 0;
        while i < claims.len()
            invariant
                self.same_request_changes(*old(self)),
                i <= claims@.len(),
                keys_distinct(claims@),
                forall|j: int| 0 <= j < claims@.len() ==> #[trigger] claims@[j].1@ >= 0,
                forall|j: int| 0 <= j < claims@.len() ==> old(self).collateral_balances.view_map().dom().contains(
                    #[trigger] claims@[j].0,
                ) && old(self).collateral_of(claims@[j].0) >= claims@[j].1@,
                forall|res: ResourceAddress| #[trigger] self.collateral_of(res) == old(self).collateral_of(res)
                    - deposit_total(claims@.subrange(0, i as int), res),
                forall|res: ResourceAddress| #[trigger] self.collateral_balances.view_map().dom().contains(res) <==> (old(
                    self,
                ).collateral_balances.view_map().dom().contains(res) && !(has_key(claims@.subrange(0, i as int), res)
                    && old(self).collateral_of(res) == deposit_total(claims@.subrange(0, i as int), res))),
                coll_views(self.collateral_balances.entries()) == withdraw_entries(
                    coll_views(old(self).collateral_balances.entries()),
                    coll_views(claims@.subrange(0, i as int)),
                ),
                self.valid_requests_start == old(self).valid_requests_start,
                self.requests_len == old(self).requests_len,
                self.positions == old(self).positions,
                self.virtual_balance == old(self).virtual_balance,
                self.referral == old(self).referral,
                self.referral_rewarded == old(self).referral_rewarded,
                self.positions_updated == old(self).positions_updated,
                self.address == old(self).address,
                self.requests() == old(self).requests(),
                self.active_requests_len == old(self).active_requests_len,
            decreases claims@.len() - i,
        {
            let (resource, amount) = claims[i];
            let ghost pre = claims@.subrange(0, i as int);
            let ghost post = claims@.subrange(0, i as int + 1);
            proof {
                assert(post.drop_last() =~= pre);
                assert(post.last() == claims@[i as int]);
                assert(!has_key(pre, resource)) by {
                    if has_key(pre, resource) {
                        let k = choose|k: int| 0 <= k < pre.len() && #[trigger] pre[k].0.key_view() == resource;
                        assert(claims@[k].0.key_view() == claims@[i as int].0.key_view());
                    }
                }
                lemma_deposit_total_absent(pre, resource);
            }
            proof {
                use_type_invariant(&self.collateral_balances);
                AssocMap::lemma_inv_distinct(self.collateral_balances);
                lemma_coll_views_key(self.collateral_balances.entries(), resource);
                assert(coll_views(post).drop_last() =~= coll_views(pre));
                assert(coll_views(post).last() == (resource, amount@));
            }
            let balance = self.collateral_amount(&resource);
            let new_balance = balance.sub(amount);
            let ghost prev = self.collateral_balances.view_map();
            let ghost before = *self;
            let ghost before_entries = self.collateral_balances.entries();
            if new_balance.is_zero() {
                self.collateral_balances.remove(&resource);
            } else {
                self.collateral_balances.insert(resource, new_balance);
            }
            proof {
                let e0 = coll_views(before_entries);
                let e1 = coll_views(self.collateral_balances.entries());
                let k = key_pos(e0, resource);
                if new_balance@ == 0 {
                    assert(e1 =~= e0.remove(k));
                } else {
                    assert(e1 =~= e0.update(k, (resource, e0[k].1 - amount@)));
                }
            }
            i = i + 1;
            proof {
                assert forall|res: ResourceAddress| #[trigger] self.collateral_of(res) == old(self).collateral_of(res)
                    - deposit_total(post, res) by {
                    assert(deposit_total(post, res) == deposit_total(pre, res) + if post.last().0 == res {
                        post.last().1@
                    } else {
                        0
                    });
                    assert(before.collateral_of(res) == old(self).collateral_of(res) - deposit_total(pre, res));
                    if res != resource {
                        assert(self.collateral_balances.view_map().dom().contains(res) == prev.dom().contains(res));
                    }
                }
                assert forall|res: ResourceAddress| #[trigger] self.collateral_balances.view_map().dom().contains(res) <==> (old(
                    self,
                ).collateral_balances.view_map().dom().contains(res) && !(has_key(post, res) && old(self).collateral_of(res)
                    == deposit_total(post, res))) by {
                    assert(before.collateral_of(res) == old(self).collateral_of(res) - deposit_total(pre, res));
                    assert(before.collateral_balances.view_map().dom().contains(res) <==> (old(
                        self,
                    ).collateral_balances.view_map().dom().contains(res) && !(has_key(pre, res) && old(self).collateral_of(res)
                        == deposit_total(pre, res))));
                    assert(deposit_total(post, res) == deposit_total(pre, res) + if post.last().0 == res {
                        post.last().1@
                    } else {
                        0
                    });
                    if has_key(post, res) && !has_key(pre, res) {
                        assert(res == resource) by {
                            let k = choose|k: int| 0 <= k < post.len() && #[trigger] post[k].0.key_view() == res;
                            if k < pre.len() {
                                assert(pre[k] == post[k]);
                            }
                        }
                    }
                    if has_key(pre, res) {
                        let k = choose|k: int| 0 <= k < pre.len() && #[trigger] pre[k].0.key_view() == res;
                        assert(post[k] == pre[k]);
                    }
                    if res == resource {
                        assert(post[i - 1].0.key_view() == res);
                    }
                }
            }
        }
        assert(claims@.subrange(0, claims@.len() as int) =~= claims@);
        assert forall|res: ResourceAddress| #[trigger] self.collateral_balances.view_map().dom().contains(res) <==> (old(
            self,
        ).collateral_balances.view_map().dom().contains(res) && !(has_key(claims@, res) && old(self).collateral_of(res)
            == deposit_total(claims@, res))) by {
            assert(claims@.subrange(0, i as int) == claims@);
        }
    }

    /// A request the account knows, the changed copy taking precedence.
    pub fn keeper_request(&self, index: ListIndex) -> (r: &KeeperRequest)
        requires
            self.knows(index),
        ensures
            *r == self.requests()[index],
    {
        match self.request_updates.get(&index) {
            Some(r) => r,
            None => self.request_cache.get(&index).unwrap(),
        }
    }

    /// Gives a known request another status.
    fn set_request_status(&mut self, index: ListIndex, status: u8)
        requires
            old(self).knows(index),
        ensures
            final(self).requests() == old(self).requests().insert(
                index,
                with_status(old(self).requests()[index], status),
            ),
            // the new status waits among the changes to write back
            final(self).request_updates.view_map() == old(self).request_updates.view_map().insert(
                index,
                with_status(old(self).requests()[index], status),
            ),
            final(self).request_cache.view_map() == (if old(self).request_updates.view_map().dom().contains(index) {
                old(self).request_cache.view_map()
            } else {
                old(self).request_cache.view_map().remove(index)
            }),
            final(self).same_but_requests(*old(self)),
            final(self).active_requests_len == old(self).active_requests_len,
            final(self).active_request_additions == old(self).active_request_additions,
            final(self).active_request_removals == old(self).active_request_removals,
            final(self).request_additions == old(self).request_additions,
    {
        let ghost before = self.requests();
        let ghost cache0 = self.request_cache.view_map();
        let ghost updates0 = self.request_updates.view_map();
        let r = match self.request_updates.take(&index) {
            Some(r) => r,
            None => self.request_cache.take(&index).unwrap(),
        };
        let updated = KeeperRequest { status, ..r };
        self.request_updates.insert(index, updated);
        assert(self.requests() =~= before.insert(index, with_status(before[index], status)));
    }

    fn add_active_request(&mut self, index: ListIndex)
        requires
            old(self).active_requests_len < usize::MAX,
        ensures
            final(self).active_requests_len == old(self).active_requests_len + 1,
            final(self).active_request_additions@ == old(self).active_request_additions@.push(index),
            final(self).active_request_removals == old(self).active_request_removals,
            final(self).request_updates == old(self).request_updates,
            final(self).request_cache == old(self).request_cache,
            final(self).request_additions == old(self).request_additions,
            final(self).same_but_requests(*old(self)),
    {
        self.active_requests_len = self.active_requests_len + 1;
        self.active_request_additions.push(index);
    }

    fn remove_active_request(&mut self, index: ListIndex)
        requires
            old(self).active_requests_len > 0,
        ensures
            final(self).active_requests_len == old(self).active_requests_len - 1,
            final(self).active_request_removals@ == old(self).active_request_removals@.push(index),
            final(self).active_request_additions == old(self).active_request_additions,
            final(self).request_updates == old(self).request_updates,
            final(self).request_cache == old(self).request_cache,
            final(self).request_additions == old(self).request_additions,
            final(self).same_but_requests(*old(self)),
    {
        self.active_requests_len = self.active_requests_len - 1;
        self.active_request_removals.push(index);
    }

    /// Moves each of the listed requests whose status allows it to `status`
    /// (active, executed or cancelled), once per request, and lists them.
    pub fn try_set_keeper_requests_status(&mut self, indexes: &Vec<ListIndex>, status: u8) -> (r: Vec<ListIndex>)
        requires
            status == STATUS_ACTIVE || status == STATUS_EXECUTED || status == STATUS_CANCELLED,
            forall|k: int| 0 <= k < indexes@.len() ==> old(self).knows(indexes@[k]),
            status != STATUS_ACTIVE ==> qualifying(old(self).requests(), indexes@, status).len()
                <= old(self).active_requests_len,
        ensures
            r@ == qualifying(old(self).requests(), indexes@, status),
            final(self).requests() == status_applied(old(self).requests(), r@, status),
            final(self).request_updates.view_map().dom() == old(self).request_updates.view_map().dom() + r@.to_set(),
            final(self).active_requests_len == old(self).active_requests_len - (if status
                == STATUS_ACTIVE {
                0
            } else {
                r@.len() as int
            }),
            final(self).active_request_removals@ == old(self).active_request_removals@ + (if status
                == STATUS_ACTIVE {
                Seq::<ListIndex>::empty()
            } else {
                r@
            }),
            final(self).active_request_additions == old(self).active_request_additions,
            final(self).request_additions == old(self).request_additions,
            final(self).same_but_requests(*old(self)),
    {
        let ghost reqs0 = self.requests();
        let ghost removals0 = self.active_request_removals@;
        let mut r: Vec<ListIndex> = Vec::new();
        let mut j: usize = 0;
        assert(status_applied(reqs0, r@, status) =~= reqs0);
        assert(self.request_updates.view_map().dom() =~= self.request_updates.view_map().dom() + r@.to_set());
        while j < indexes.len()
            invariant
                j <= indexes@.len(),
                status == STATUS_ACTIVE || status == STATUS_EXECUTED || status == STATUS_CANCELLED,
                forall|k: int| 0 <= k < indexes@.len() ==> reqs0.dom().contains(indexes@[k]),
                status != STATUS_ACTIVE ==> qualifying(reqs0, indexes@, status).len()
                    <= old(self).active_requests_len,
                r@ == qualifying(reqs0, indexes@.subrange(0, j as int), status),
                self.requests() == status_applied(reqs0, r@, status),
                self.request_updates.view_map().dom() == old(self).request_updates.view_map().dom() + r@.to_set(),
                self.active_requests_len == old(self).active_requests_len - (if status
                    == STATUS_ACTIVE {
                    0
                } else {
                    r@.len() as int
                }),
                self.active_request_removals@ == removals0 + (if status == STATUS_ACTIVE {
                    Seq::<ListIndex>::empty()
                } else {
                    r@
                }),
                self.active_request_additions == old(self).active_request_additions,
                self.request_additions == old(self).request_additions,
                self.same_but_requests(*old(self)),
            decreases indexes@.len() - j,
        {
            let index = indexes[j];
            let ghost pre = indexes@.subrange(0, j as int);
            let ghost post = indexes@.subrange(0, j as int + 1);
            proof {
                assert(post.drop_last() =~= pre);
                assert(post.last() == index);
                lemma_qualifying_prefix_len(reqs0, indexes@, j as int + 1, status);
            }
            let current = self.keeper_request(index).status;
            let allowed = (status == STATUS_ACTIVE && current == STATUS_DORMANT) || (status
                == STATUS_EXECUTED && current == STATUS_ACTIVE) || (status == STATUS_CANCELLED
                && (current == STATUS_ACTIVE || current == STATUS_DORMANT));
            proof {
                if r@.contains(index) {
                    assert(current == status);
                    assert(!allowed);
                } else {
                    assert(current == reqs0[index].status);
                }
            }
            if allowed {
                let ghost rold = r@;
                let ghost prev = self.requests();
                if status != STATUS_ACTIVE {
                    self.remove_active_request(index);
                }
                self.set_request_status(index, status);
                r.push(index);
                proof {
                    assert(r@ == rold.push(index));
                    assert(prev[index] == reqs0[index]);
                    assert forall|k: ListIndex| r@.contains(k) <==> (rold.contains(k) || k == index) by {
                        if r@.contains(k) {
                            let t = choose|t: int| 0 <= t < r@.len() && r@[t] == k;
                            if t < rold.len() {
                                assert(rold[t] == k);
                            }
                        }
                        if rold.contains(k) {
                            let t = choose|t: int| 0 <= t < rold.len() && rold[t] == k;
                            assert(r@[t] == k);
                        }
                        if k == index {
                            assert(r@[rold.len() as int] == k);
                        }
                    }
                    assert(self.requests() =~= status_applied(reqs0, r@, status));
                    assert(self.request_updates.view_map().dom() =~= old(self).request_updates.view_map().dom() + r@.to_set());
                    assert(self.active_request_removals@ =~= removals0 + (if status == STATUS_ACTIVE {
                        Seq::<ListIndex>::empty()
                    } else {
                        r@
                    }));
                }
            }
            j = j + 1;
        }
        assert(indexes@.subrange(0, indexes@.len() as int) =~= indexes@);
        r
    }

    /// Cancels the listed requests; refused unless each of them is active or dormant.
    pub fn cancel_requests(&mut self, indexes: &Vec<ListIndex>) -> (r: Result<(), ExchangeError>)
        requires
            forall|k: int| 0 <= k < indexes@.len() ==> old(self).knows(indexes@[k]),
            qualifying(old(self).requests(), indexes@, STATUS_CANCELLED).len()
                <= old(self).active_requests_len,
        ensures
            r is Err <==> exists|k: int|
                0 <= k < indexes@.len() && !is_live(old(self).requests()[indexes@[k]].status),
            r is Err ==> r == Err::<(), ExchangeError>(ExchangeError::CancelRequestNotActiveOrDormant),
            r is Ok ==> {
                let changed = qualifying(old(self).requests(), indexes@, STATUS_CANCELLED);
                &&& forall|k: ListIndex| changed.contains(k) <==> indexes@.contains(k)
                &&& final(self).requests() == status_applied(old(self).requests(), changed, STATUS_CANCELLED)
                &&& final(self).request_updates.view_map().dom() == old(self).request_updates.view_map().dom() + changed.to_set()
                &&& final(self).active_requests_len == old(self).active_requests_len - changed.len()
                &&& final(self).same_but_requests(*old(self))
            },
    {
        let mut j: usize = 0;
        while j < indexes.len()
            invariant
                j <= indexes@.len(),
                forall|k: int| 0 <= k < indexes@.len() ==> self.knows(indexes@[k]),
                forall|k: int| 0 <= k < j ==> is_live(self.requests()[indexes@[k]].status),
            decreases indexes@.len() - j,
        {
            let status = self.keeper_request(indexes[j]).status;
            if !(status == STATUS_ACTIVE || status == STATUS_DORMANT) {
                return Err(ExchangeError::CancelRequestNotActiveOrDormant);
            }
            j = j + 1;
        }
        let ghost reqs0 = self.requests();
        proof {
            lemma_qualifying_all(reqs0, indexes@);
        }
        self.try_set_keeper_requests_status(indexes, STATUS_CANCELLED);
        Ok(())
    }

    /// Marks a request processed: executed when it is active and its window is
    /// open, expired when its window has closed (`now` is at or past its expiry)
    /// and it was active or dormant. Hands back a copy of what was requested and
    /// whether it had expired.
    pub fn process_request(&mut self, index: ListIndex, now: i64) -> (r: Result<(Request, bool), ExchangeError>)
        requires
            old(self).knows(index),
            old(self).active_requests_len > 0,
        ensures
            ({
                let req = old(self).requests()[index];
                let expired = now >= req.expiry;
                &&& index < old(self).valid_requests_start ==> r == Err::<(Request, bool), ExchangeError>(
                    ExchangeError::ProcessRequestBeforeValidStart)
                &&& index >= old(self).valid_requests_start && (if expired { !is_live(req.status) } else { req.status
                    != STATUS_ACTIVE }) ==> r == Err::<(Request, bool), ExchangeError>(ExchangeError::ProcessRequestNotActive)
                &&& index >= old(self).valid_requests_start && (if expired { is_live(req.status) } else { req.status
                    == STATUS_ACTIVE }) && now <= req.submission ==> r == Err::<(Request, bool), ExchangeError>(
                    ExchangeError::ProcessRequestBeforeSubmission)
                &&& r is Ok <==> index >= old(self).valid_requests_start && (if expired { is_live(req.status) } else {
                    req.status == STATUS_ACTIVE }) && now > req.submission
                &&& r matches Ok((request, e)) ==> {
                    &&& e == expired
                    &&& request@ == req.request@
                    &&& final(self).requests() == old(self).requests().insert(
                        index,
                        with_status(req, if expired { STATUS_EXPIRED } else { STATUS_EXECUTED }),
                    )
                    &&& final(self).request_updates.view_map().dom() == old(self).request_updates.view_map().dom().insert(index)
                    &&& final(self).active_requests_len == old(self).active_requests_len - 1
                    &&& final(self).active_request_removals@ == old(self).active_request_removals@.push(index)
                    &&& final(self).same_but_requests(*old(self))
                }
            }),
    {
        if index < self.valid_requests_start {
            return Err(ExchangeError::ProcessRequestBeforeValidStart);
        }
        let kr = self.keeper_request(index);
        let expired = now >= kr.expiry;
        let status = kr.status;
        if expired {
            if !(status == STATUS_ACTIVE || status == STATUS_DORMANT) {
                return Err(ExchangeError::ProcessRequestNotActive);
            }
        } else {
            if status != STATUS_ACTIVE {
                return Err(ExchangeError::ProcessRequestNotActive);
            }
        }
        if !(now > kr.submission) {
            return Err(ExchangeError::ProcessRequestBeforeSubmission);
        }
        let request = kr.request.copy();
        self.remove_active_request(index);
        let new_status = if expired {
            STATUS_EXPIRED
        } else {
            STATUS_EXECUTED
        };
        self.set_request_status(index, new_status);
        Ok((request, expired))
    }

    /// Adds a request, active or dormant, whose window opens `delay_seconds` after
    /// `now` and lasts `expiry_seconds`. The active-request index recorded is the
    /// account's request count when the operation began.
    pub fn push_request(
        &mut self,
        request: Request,
        delay_seconds: u64,
        expiry_seconds: u64,
        status: u8,
        effected_components: Vec<ComponentAddress>,
        now: i64,
    ) -> (r: Result<(), ExchangeError>)
        requires
            i64::MIN <= now + (delay_seconds as i64) <= i64::MAX,
            i64::MIN <= now + (delay_seconds as i64) + (expiry_seconds as i64) <= i64::MAX,
            old(self).active_requests_len < usize::MAX,
        ensures
            r is Err <==> !is_live(status),
            r is Err ==> r == Err::<(), ExchangeError>(ExchangeError::InvalidRequestStatus),
            r is Ok ==> {
                &&& final(self).request_additions@.len() == old(self).request_additions@.len() + 1
                &&& forall|k: int| 0 <= k < old(self).request_additions@.len() ==> final(self).request_additions@[k]
                    == old(self).request_additions@[k]
                &&& ({
                    let added = final(self).request_additions@.last();
                    &&& added.submission == now + (delay_seconds as i64)
                    &&& added.expiry == now + (delay_seconds as i64) + (expiry_seconds as i64)
                    &&& added.status == status
                    &&& added.request == request
                    &&& added.effected_components == effected_components
                })
                &&& final(self).active_requests_len == old(self).active_requests_len + 1
                &&& final(self).active_request_additions@ == old(self).active_request_additions@.push(
                    old(self).requests_len)
                &&& final(self).requests() == old(self).requests()
                &&& final(self).same_but_requests(*old(self))
            },
    {
        if !(status == STATUS_ACTIVE || status == STATUS_DORMANT) {
            return Err(ExchangeError::InvalidRequestStatus);
        }
        let submission = now + delay_seconds as i64;
        let expiry = submission + expiry_seconds as i64;
        let keeper_request = KeeperRequest {
            request,
            submission,
            expiry,
            status,
            effected_components,
        };
        let len = self.requests_len;
        self.add_active_request(len);
        self.request_additions.push(keeper_request);
        Ok(())
    }

    /// Invalidates every request made so far: from now on only later ones may be processed.
    pub fn update_valid_requests_start(&mut self)
        ensures
            final(self).same_request_changes(*old(self)),
            final(self).valid_requests_start == old(self).requests_len,
            final(self).requests_len == old(self).requests_len,
            final(self).positions == old(self).positions,
            final(self).collateral_balances == old(self).collateral_balances,
            final(self).virtual_balance == old(self).virtual_balance,
            final(self).requests() == old(self).requests(),
            final(self).referral == old(self).referral,
            final(self).referral_rewarded == old(self).referral_rewarded,
            final(self).positions_updated == old(self).positions_updated,
            final(self).address == old(self).address,
            final(self).active_requests_len == old(self).active_requests_len,
    {
        self.valid_requests_start = self.requests_len;
    }

    /// A working copy of an account as the ledger holds it, with the referral
    /// badge's terms and the requests fetched for the operation; nothing is
    /// changed yet.
    pub fn new(
        address: ComponentAddress,
        info: MarginAccountInfo,
        referral: Option<ReferralData>,
        request_cache: AssocMap<ListIndex, KeeperRequest>,
    ) -> (r: VirtualMarginAccount)
        ensures
            r.address == address,
            r.positions == info.positions,
            r.collateral_balances == info.collateral_balances,
            r.virtual_balance == info.virtual_balance,
            r.valid_requests_start == info.valid_requests_start,
            r.requests_len == info.requests_len,
            r.active_requests_len == info.active_requests_len,
            r.positions_updated.entries().len() == 0,
            r.request_additions@.len() == 0,
            r.request_updates.entries().len() == 0,
            r.request_cache == request_cache,
            r.active_request_additions@.len() == 0,
            r.active_request_removals@.len() == 0,
            r.referral == referral,
            !r.referral_rewarded,
    {
        VirtualMarginAccount {
            address,
            positions: info.positions,
            collateral_balances: info.collateral_balances,
            virtual_balance: info.virtual_balance,
            valid_requests_start: info.valid_requests_start,
            requests_len: info.requests_len,
            active_requests_len: info.active_requests_len,
            positions_updated: AssocMap::new(),
            request_additions: Vec::new(),
            request_updates: AssocMap::new(),
            request_cache,
            active_request_additions: Vec::new(),
            active_request_removals: Vec::new(),
            referral,
            referral_rewarded: false,
        }
    }

    /// What the ledger's account is to be told: the changed positions, the
    /// virtual balance, the start of the valid requests, the new and changed
    /// requests and the changes to the active requests.
    pub fn realize(self) -> (r: MarginAccountUpdates)
        ensures
            self.realizes(r),
    {
        let mut position_updates: Vec<(PairId, AccountPosition)> = Vec::new();
        let mut i: usize = 0;
        assert(self.positions.entries().subrange(0, 0) =~= Seq::<(PairId, AccountPosition)>::empty());
        while i < self.positions.len()
            invariant
                i <= self.positions.entries().len(),
                position_updates@ == updated_entries(
                    self.positions.entries().subrange(0, i as int),
                    self.positions_updated.view_map().dom(),
                ),
            decreases self.positions.entries().len() - i,
        {
            let key = self.positions.key_at(i);
            proof {
                assert(self.positions.entries().subrange(0, i as int + 1).drop_last() =~= self.positions.entries().subrange(
                    0,
                    i as int,
                ));
            }
            if self.positions_updated.contains_key(key) {
                position_updates.push((key.clone(), *self.positions.value_at(i)));
                proof {
                    let e = self.positions.entries()[i as int];
                    assert(position_updates@.last().0@ == e.0@);
                }
            }
            i = i + 1;
        }
        assert(self.positions.entries().subrange(0, self.positions.entries().len() as int) =~= self.positions.entries());
        MarginAccountUpdates {
            position_updates,
            virtual_balance: self.virtual_balance,
            valid_requests_start: self.valid_requests_start,
            request_additions: self.request_additions,
            request_updates: self.request_updates.into_entries(),
            active_request_additions: self.active_request_additions,
            active_request_removals: self.active_request_removals,
        }
    }

    /// The account's request count when the operation began.
    pub fn requests_len(&self) -> (r: ListIndex)
        ensures
            r == self.requests_len,
    {
        self.requests_len
    }

    /// The account's address.
    pub fn address(&self) -> (r: ComponentAddress)
        ensures
            r == self.address,
    {
        self.address
    }

    /// The account's virtual balance.
    pub fn virtual_balance(&self) -> (r: Decimal)
        ensures
            r == self.virtual_balance,
    {
        self.virtual_balance
    }

    /// The index from which the account's requests are valid.
    pub fn valid_requests_start(&self) -> (r: ListIndex)
        ensures
            r == self.valid_requests_start,
    {
        self.valid_requests_start
    }

    /// The number of the account's active requests, as this operation left it.
    pub fn active_requests_len(&self) -> (r: usize)
        ensures
            r == self.active_requests_len,
    {
        self.active_requests_len
    }

    /// The terms of the account's referral, if it has one.
    pub fn referral(&self) -> (r: Option<ReferralData>)
        ensures
            r == self.referral,
    {
        self.referral
    }

    /// The requests at the given indexes, each as the account knows it (its
    /// changed copy taking precedence).
    pub fn keeper_requests(&self, indexes: &Vec<ListIndex>) -> (r: AssocMap<ListIndex, KeeperRequest>)
        requires
            forall|k: int| 0 <= k < indexes@.len() ==> self.knows(#[trigger] indexes@[k]),
        ensures
            forall|k: ListIndex| #[trigger] r.view_map().dom().contains(k) <==> indexes@.contains(k),
            forall|k: ListIndex| #[trigger] r.view_map().dom().contains(k) ==> same_request(r.view_map()[k], self.requests()[k]),
    {
        let mut r: AssocMap<ListIndex, KeeperRequest> = AssocMap::new();
        let mut i: usize = 0;
        while i < indexes.len()
            invariant
                i <= indexes@.len(),
                forall|k: int| 0 <= k < indexes@.len() ==> self.knows(#[trigger] indexes@[k]),
                forall|k: ListIndex| #[trigger] r.view_map().dom().contains(k) <==> indexes@.subrange(0, i as int).contains(k),
                forall|k: ListIndex| #[trigger] r.view_map().dom().contains(k) ==> same_request(r.view_map()[k], self.requests()[k]),
            decreases indexes@.len() - i,
        {
            let index = indexes[i];
            let request = self.keeper_request(index).copy();
            r.insert(index, request);
            proof {
                assert forall|k: ListIndex| r.view_map().dom().contains(k) <==> indexes@.subrange(0, i as int + 1).contains(k) by {
                    if indexes@.subrange(0, i as int + 1).contains(k) && k != index {
                        let t = choose|t: int| 0 <= t < i + 1 && #[trigger] indexes@.subrange(0, i as int + 1)[t] == k;
                        assert(indexes@.subrange(0, i as int)[t] == k);
                    }
                    if indexes@.subrange(0, i as int).contains(k) {
                        let t = choose|t: int| 0 <= t < i && #[trigger] indexes@.subrange(0, i as int)[t] == k;
                        assert(indexes@.subrange(0, i as int + 1)[t] == k);
                    }
                    if k == index {
                        assert(indexes@.subrange(0, i as int + 1)[i as int] == k);
                    }
                }
            }
            i = i + 1;
        }
        assert(indexes@.subrange(0, indexes@.len() as int) =~= indexes@);
        r
    }

    /// Cancels one request (see [`Self::cancel_requests`]).
    pub fn cancel_request(&mut self, index: ListIndex) -> (r: Result<(), ExchangeError>)
        requires
            old(self).knows(index),
            is_live(old(self).requests()[index].status) ==> old(self).active_requests_len >= 1,
        ensures
            r is Err <==> !is_live(old(self).requests()[index].status),
            r is Err ==> r == Err::<(), ExchangeError>(ExchangeError::CancelRequestNotActiveOrDormant),
            r is Ok ==> {
                &&& final(self).requests() == old(self).requests().insert(
                    index,
                    with_status(old(self).requests()[index], STATUS_CANCELLED),
                )
                &&& final(self).request_updates.view_map().dom() == old(self).request_updates.view_map().dom().insert(index)
                &&& final(self).active_requests_len == old(self).active_requests_len - 1
                &&& final(self).same_but_requests(*old(self))
            },
    {
        let indexes = vec![index];
        let ghost reqs = self.requests();
        proof {
            let q = qualifying(reqs, indexes@, STATUS_CANCELLED);
            assert(indexes@.drop_last() =~= Seq::<ListIndex>::empty());
            assert(indexes@[0] == index);
            assert(indexes@.last() == index);
            assert(qualifying(reqs, Seq::<ListIndex>::empty(), STATUS_CANCELLED) == Seq::<ListIndex>::empty());
            assert(!Seq::<ListIndex>::empty().contains(index));
            if is_live(reqs[index].status) {
                assert(q =~= seq![index]);
            } else {
                assert(q.len() == 0);
            }
        }
        let r = self.cancel_requests(&indexes);
        proof {
            if r is Ok {
                let q = qualifying(reqs, indexes@, STATUS_CANCELLED);
                assert(q =~= seq![index]);
                assert(status_applied(reqs, q, STATUS_CANCELLED) =~= reqs.insert(
                    index,
                    with_status(reqs[index], STATUS_CANCELLED),
                ));
                assert(q.to_set() =~= set![index]);
            } else {
                assert(indexes@[0] == index);
            }
        }
        r
    }
}

/// The listed requests that may move to `status`, each once, in the order of
/// their first mention.
pub open spec fn qualifying(
    reqs: Map<ListIndex, KeeperRequest>,
    indexes: Seq<ListIndex>,
    status: u8,
) -> Seq<ListIndex>
    decreases indexes.len(),
{
    if indexes.len() == 0 {
        Seq::empty()
    } else {
        let p = qualifying(reqs, indexes.drop_last(), status);
        let i = indexes.last();
        if phase_allows(status, reqs[i].status) && !p.contains(i) {
            p.push(i)
        } else {
            p
        }
    }
}

/// The requests with those of `changed` moved to `status`.
pub open spec fn status_applied(
    reqs: Map<ListIndex, KeeperRequest>,
    changed: Seq<ListIndex>,
    status: u8,
) -> Map<ListIndex, KeeperRequest> {
    Map::new(
        |k: ListIndex| reqs.dom().contains(k),
        |k: ListIndex| if changed.contains(k) {
            with_status(reqs[k], status)
        } else {
            reqs[k]
        },
    )
}

/// When every listed request is live, the ones that may be cancelled are
/// exactly the listed ones.
pub proof fn lemma_qualifying_all(reqs: Map<ListIndex, KeeperRequest>, indexes: Seq<ListIndex>)
    requires
        forall|k: int| 0 <= k < indexes.len() ==> is_live(reqs[indexes[k]].status),
    ensures
        forall|k: ListIndex| qualifying(reqs, indexes, STATUS_CANCELLED).contains(k) <==> indexes.contains(k),
    decreases indexes.len(),
{
    if indexes.len() > 0 {
        let p = indexes.drop_last();
        lemma_qualifying_all(reqs, p);
        let q = qualifying(reqs, p, STATUS_CANCELLED);
        let i = indexes.last();
        assert(is_live(reqs[indexes[indexes.len() - 1]].status));
        assert forall|k: ListIndex| qualifying(reqs, indexes, STATUS_CANCELLED).contains(k) <==> indexes.contains(k) by {
            if indexes.contains(k) {
                let t = choose|t: int| 0 <= t < indexes.len() && indexes[t] == k;
                if t < indexes.len() - 1 {
                    assert(p[t] == k);
                    assert(p.contains(k));
                    assert(q.contains(k));
                    if !q.contains(i) {
                        let u = choose|u: int| 0 <= u < q.len() && q[u] == k;
                        assert(q.push(i)[u] == k);
                    }
                } else {
                    if !q.contains(i) {
                        assert(q.push(i)[q.len() as int] == k);
                    }
                }
            }
            if qualifying(reqs, indexes, STATUS_CANCELLED).contains(k) {
                if q.contains(k) {
                    assert(p.contains(k));
                    let t = choose|t: int| 0 <= t < p.len() && p[t] == k;
                    assert(indexes[t] == k);
                } else {
                    let qq = q.push(i);
                    let t = choose|t: int| 0 <= t < qq.len() && qq[t] == k;
                    if t < q.len() {
                        assert(q[t] == k);
                    }
                    assert(indexes[indexes.len() - 1] == k);
                }
            }
        }
    }
}

/// The qualifying requests of a prefix are no more than those of the whole list.
pub proof fn lemma_qualifying_prefix_len(
    reqs: Map<ListIndex, KeeperRequest>,
    indexes: Seq<ListIndex>,
    n: int,
    status: u8,
)
    requires
        0 <= n <= indexes.len(),
    ensures
        qualifying(reqs, indexes.subrange(0, n), status).len() <= qualifying(reqs, indexes, status).len(),
    decreases indexes.len() - n,
{
    if n < indexes.len() {
        lemma_qualifying_prefix_len(reqs, indexes, n + 1, status);
        assert(indexes.subrange(0, n + 1).drop_last() =~= indexes.subrange(0, n));
    } else {
        assert(indexes.subrange(0, n) =~= indexes);
    }
}

/// The total amount of `res` in a list of deposits.
pub open spec fn deposit_total(tokens: Seq<(ResourceAddress, Decimal)>, res: ResourceAddress) -> int
    decreases tokens.len(),
{
    if tokens.len() == 0 {
        0
    } else {
        deposit_total(tokens.drop_last(), res) + if tokens.last().0 == res {
            tokens.last().1@
        } else {
            0
        }
    }
}

/// A resource that no entry names has a total of zero.
pub proof fn lemma_deposit_total_absent(tokens: Seq<(ResourceAddress, Decimal)>, res: ResourceAddress)
    requires
        !has_key(tokens, res),
    ensures
        deposit_total(tokens, res) == 0,
    decreases tokens.len(),
{
    if tokens.len() > 0 {
        let p = tokens.drop_last();
        assert(!has_key(p, res)) by {
            if has_key(p, res) {
                let k = choose|k: int| 0 <= k < p.len() && #[trigger] p[k].0.key_view() == res;
                assert(tokens[k] == p[k]);
            }
        }
        assert(tokens[tokens.len() - 1].0.key_view() != res);
        lemma_deposit_total_absent(p, res);
    }
}

/// Deposits of non-negative amounts only add up.
pub proof fn lemma_deposit_total_nonneg_prefix(tokens: Seq<(ResourceAddress, Decimal)>, n: int, res: ResourceAddress)
    requires
        0 <= n <= tokens.len(),
        forall|i: int| 0 <= i < tokens.len() ==> tokens[i].1@ >= 0,
    ensures
        deposit_total(tokens.subrange(0, n), res) >= 0,
    decreases n,
{
    if n > 0 {
        assert(tokens.subrange(0, n).drop_last() =~= tokens.subrange(0, n - 1));
        lemma_deposit_total_nonneg_prefix(tokens, n - 1, res);
    }
}

/// When each entry names a different resource, a prefix of the list holds
/// none of a resource or all of it.
pub proof fn lemma_deposit_total_distinct_prefix(tokens: Seq<(ResourceAddress, Decimal)>, n: int, res: ResourceAddress)
    requires
        0 <= n <= tokens.len(),
        keys_distinct(tokens),
    ensures
        deposit_total(tokens.subrange(0, n), res) == 0 || deposit_total(tokens.subrange(0, n), res) == deposit_total(tokens, res),
    decreases tokens.len() - n,
{
    if n < tokens.len() {
        lemma_deposit_total_distinct_prefix(tokens, n + 1, res);
        let p = tokens.subrange(0, n);
        assert(tokens.subrange(0, n + 1).drop_last() =~= p);
        if tokens[n].0 == res {
            assert(!has_key(p, res)) by {
                if has_key(p, res) {
                    let k = choose|k: int| 0 <= k < p.len() && #[trigger] p[k].0.key_view() == res;
                    assert(tokens[k].0.key_view() == tokens[n].0.key_view());
                }
            }
            lemma_deposit_total_absent(p, res);
        }
    } else {
        assert(tokens.subrange(0, n) =~= tokens);
    }
}

/// A prefix of non-negative deposits adds up to no more than the whole list.
pub proof fn lemma_deposit_total_prefix_le(tokens: Seq<(ResourceAddress, Decimal)>, n: int, res: ResourceAddress)
    requires
        0 <= n <= tokens.len(),
        forall|i: int| 0 <= i < tokens.len() ==> tokens[i].1@ >= 0,
    ensures
        deposit_total(tokens.subrange(0, n), res) <= deposit_total(tokens, res),
    decreases tokens.len() - n,
{
    if n < tokens.len() {
        lemma_deposit_total_prefix_le(tokens, n + 1, res);
        assert(tokens.subrange(0, n + 1).drop_last() =~= tokens.subrange(0, n));
    } else {
        assert(tokens.subrange(0, n) =~= tokens);
    }
}

/// Every request that `qualifying` picks may move to `status`.
pub proof fn lemma_qualifying_allowed(reqs: Map<ListIndex, KeeperRequest>, indexes: Seq<ListIndex>, status: u8)
    ensures
        forall|k: ListIndex| qualifying(reqs, indexes, status).contains(k) ==> phase_allows(status, reqs[k].status),
    decreases indexes.len(),
{
    if indexes.len() > 0 {
        let p = qualifying(reqs, indexes.drop_last(), status);
        lemma_qualifying_allowed(reqs, indexes.drop_last(), status);
        let i = indexes.last();
        assert forall|k: ListIndex| qualifying(reqs, indexes, status).contains(k) implies phase_allows(status, reqs[k].status) by {
            if !p.contains(k) {
                let q = qualifying(reqs, indexes, status);
                let t = choose|t: int| 0 <= t < q.len() && q[t] == k;
                if t < p.len() {
                    assert(p[t] == k);
                }
            }
        }
    }
}

/// Requests move along the life cycle of a request: a status changes only from
/// one that allows the move (dormant to active, active to executed, active or
/// dormant to cancelled), no other field of a request changes, and an executed,
/// cancelled or expired request never changes again.
pub proof fn law_status_follows_phases(
    reqs: Map<ListIndex, KeeperRequest>,
    indexes: Seq<ListIndex>,
    status: u8,
    k: ListIndex,
)
    requires
        reqs.dom().contains(k),
    ensures
        ({
            let after = status_applied(reqs, qualifying(reqs, indexes, status), status);
            &&& after.dom() == reqs.dom()
            &&& after[k].status != reqs[k].status ==> phase_allows(status, reqs[k].status)
            &&& after[k] == with_status(reqs[k], after[k].status)
            &&& (reqs[k].status == STATUS_EXECUTED || reqs[k].status == STATUS_CANCELLED || reqs[k].status
                == STATUS_EXPIRED) ==> after[k] == reqs[k]
        }),
{
    lemma_qualifying_allowed(reqs, indexes, status);
    let after = status_applied(reqs, qualifying(reqs, indexes, status), status);
    assert(after.dom() =~= reqs.dom());
}

/// A request is carried out at most once: once processing has marked it
/// executed (inside its window) or expired (after it), no later processing, at
/// any time, finds it in a status that lets it through.
pub proof fn law_processed_once(r: KeeperRequest, now: i64, later: i64)
    ensures
        ({
            let after = with_status(r, if now >= r.expiry { STATUS_EXPIRED } else { STATUS_EXECUTED });
            !(if later >= after.expiry { is_live(after.status) } else { after.status == STATUS_ACTIVE })
        }),
{
}

} // verus!

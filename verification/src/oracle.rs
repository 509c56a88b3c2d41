use vstd::prelude::*;
use crate::common::{ExchangeError, PairId, ResourceAddress};
use crate::decimal::Decimal;
use crate::map::{AssocMap, MapKey};

verus! {

/// The map that a list of entries builds when later entries replace earlier ones.
pub open spec fn list_map<K: MapKey, V>(s: Seq<(K, V)>) -> Map<K::KeyView, V>
    decreases s.len(),
{
    if s.len() == 0 {
        Map::empty()
    } else {
        list_map(s.drop_last()).insert(s.last().0.key_view(), s.last().1)
    }
}

/// The maximum price ages of the pairs: each pair's own, lowered to that of any
/// collateral resource priced by the same feed, and added for feeds that only
/// collateral uses.
pub open spec fn merged_feeds(
    pair_feeds: Map<Seq<char>, i64>,
    resource_feeds: Seq<(ResourceAddress, PairId, i64)>,
) -> Map<Seq<char>, i64>
    decreases resource_feeds.len(),
{
    if resource_feeds.len() == 0 {
        pair_feeds
    } else {
        let m = merged_feeds(pair_feeds, resource_feeds.drop_last());
        let (_, pair_id, age) = resource_feeds.last();
        if m.dom().contains(pair_id@) {
            if age < m[pair_id@] {
                m.insert(pair_id@, age)
            } else {
                m
            }
        } else {
            m.insert(pair_id@, age)
        }
    }
}

/// Merges the maximum price ages of the collateral feeds into those of the pairs.
pub fn merge_feeds(
    resource_feeds: &Vec<(ResourceAddress, PairId, i64)>,
    pair_feeds: AssocMap<PairId, i64>,
) -> (r: AssocMap<PairId, i64>)
    ensures
        r.view_map() == merged_feeds(pair_feeds.view_map(), resource_feeds@),
{
    let mut feeds = pair_feeds;
    let mut i: usize = 0;
    while i < resource_feeds.len()
        invariant
            i <= resource_feeds@.len(),
            feeds.view_map() == merged_feeds(pair_feeds.view_map(), resource_feeds@.subrange(0, i as int)),
        decreases resource_feeds@.len() - i,
    {
        let pair_id = &resource_feeds[i].1;
        let age = resource_feeds[i].2;
        proof {
            assert(resource_feeds@.subrange(0, i as int + 1).drop_last() =~= resource_feeds@.subrange(0, i as int));
        }
        match feeds.get(pair_id) {
            Some(max_age) => {
                if age < *max_age {
                    feeds.insert(pair_id.key_clone(), age);
                }
            },
            None => {
                feeds.insert(pair_id.key_clone(), age);
            },
        }
        i = i + 1;
    }
    assert(resource_feeds@.subrange(0, resource_feeds@.len() as int) =~= resource_feeds@);
    feeds
}

/// Whether a price, observed at `timestamp`, is fresh for a feed whose prices may
/// be `max_age` seconds old.
pub open spec fn fresh(timestamp: i64, now: i64, max_age: i64) -> bool {
    timestamp > now - max_age
}

/// The first reason, in list order, to refuse the oracle's prices.
pub open spec fn price_error(
    prices: Seq<(PairId, Decimal, i64)>,
    feeds: Map<Seq<char>, i64>,
    now: i64,
) -> Option<ExchangeError>
    decreases prices.len(),
{
    if prices.len() == 0 {
        None
    } else {
        match price_error(prices.drop_last(), feeds, now) {
            Some(e) => Some(e),
            None => {
                let (pair_id, price, timestamp) = prices.last();
                if !fresh(timestamp, now, feeds[pair_id@]) {
                    Some(ExchangeError::PriceTooOld)
                } else if !(price@ > 0) {
                    Some(ExchangeError::InvalidPrice)
                } else {
                    None
                }
            },
        }
    }
}

/// Price feeds for the pairs with no limit on the age of their prices.
pub fn pair_feeds_no_max_age(pair_ids: &Vec<PairId>) -> (r: AssocMap<PairId, i64>)
    ensures
        forall|k: Seq<char>| #[trigger] r.view_map().dom().contains(k) <==> exists|i: int|
            0 <= i < pair_ids@.len() && pair_ids@[i]@ == k,
        forall|k: Seq<char>| #[trigger] r.view_map().dom().contains(k) ==> r.view_map()[k] == i64::MAX,
{
    let mut r: AssocMap<PairId, i64> = AssocMap::new();
    let mut i: usize = 0;
    while i < pair_ids.len()
        invariant
            i <= pair_ids@.len(),
            forall|k: Seq<char>| #[trigger] r.view_map().dom().contains(k) <==> exists|t: int|
                0 <= t < i && pair_ids@[t]@ == k,
            forall|k: Seq<char>| #[trigger] r.view_map().dom().contains(k) ==> r.view_map()[k] == i64::MAX,
        decreases pair_ids@.len() - i,
    {
        let id = pair_ids[i].clone();
        r.insert(id, i64::MAX);
        proof {
            assert forall|k: Seq<char>| #[trigger] r.view_map().dom().contains(k) <==> exists|t: int|
                0 <= t < i + 1 && pair_ids@[t]@ == k by {
                if k == pair_ids@[i as int]@ {
                    assert(pair_ids@[i as int]@ == k);
                }
            }
        }
        i = i + 1;
    }
    r
}

/// The prices that an operation trusts, by pair, and the feed of each collateral resource.
pub struct VirtualOracle {
    pub prices: AssocMap<PairId, Decimal>,
    pub resource_map: AssocMap<ResourceAddress, PairId>,
}

impl VirtualOracle {
    /// Accepts the oracle's prices (pair, price, timestamp) at time `now` when each
    /// is fresh for its feed's maximum age and positive.
    pub fn new(
        resource_feeds: &Vec<(ResourceAddress, PairId, i64)>,
        feeds: &AssocMap<PairId, i64>,
        prices_with_timestamp: &Vec<(PairId, Decimal, i64)>,
        now: i64,
    ) -> (r: Result<VirtualOracle, ExchangeError>)
        requires
            forall|k: int|
                0 <= k < prices_with_timestamp@.len() ==> #[trigger] feeds.view_map().dom().contains(
                    prices_with_timestamp@[k].0@,
                ),
            forall|k: int|
                0 <= k < prices_with_timestamp@.len() ==> i64::MIN <= now - feeds.view_map()[(
                #[trigger] prices_with_timestamp@[k]).0@] <= i64::MAX,
        ensures
            match price_error(prices_with_timestamp@, feeds.view_map(), now) {
                Some(e) => r == Err::<VirtualOracle, ExchangeError>(e),
                None => r matches Ok(o) && o.prices.view_map() == list_map(
                    Seq::new(
                        prices_with_timestamp@.len(),
                        |k: int| (prices_with_timestamp@[k].0, prices_with_timestamp@[k].1),
                    ),
                ) && o.resource_map.view_map() == list_map(
                    Seq::new(
                        resource_feeds@.len(),
                        |k: int| (resource_feeds@[k].0, resource_feeds@[k].1),
                    ),
                ),
            },
    {
        let ghost pairs = Seq::new(
            prices_with_timestamp@.len(),
            |k: int| (prices_with_timestamp@[k].0, prices_with_timestamp@[k].1),
        );
        let mut prices: AssocMap<PairId, Decimal> = AssocMap::new();
        let mut i: usize = 0;
        assert(prices.view_map() =~= list_map(pairs.subrange(0, 0)));
        while i < prices_with_timestamp.len()
            invariant
                i <= prices_with_timestamp@.len(),
                pairs == Seq::new(
                    prices_with_timestamp@.len(),
                    |k: int| (prices_with_timestamp@[k].0, prices_with_timestamp@[k].1),
                ),
                forall|k: int|
                    0 <= k < prices_with_timestamp@.len() ==> #[trigger] feeds.view_map().dom().contains(
                        prices_with_timestamp@[k].0@,
                    ),
                forall|k: int|
                    0 <= k < prices_with_timestamp@.len() ==> i64::MIN <= now - feeds.view_map()[(
                    #[trigger] prices_with_timestamp@[k]).0@] <= i64::MAX,
                price_error(prices_with_timestamp@.subrange(0, i as int), feeds.view_map(), now) is None,
                prices.view_map() == list_map(pairs.subrange(0, i as int)),
            decreases prices_with_timestamp@.len() - i,
        {
            let pair_id = &prices_with_timestamp[i].0;
            let price = prices_with_timestamp[i].1;
            let timestamp = prices_with_timestamp[i].2;
            proof {
                assert(prices_with_timestamp@.subrange(0, i as int + 1).drop_last() =~= prices_with_timestamp@.subrange(0, i as int));
                assert(pairs.subrange(0, i as int + 1).drop_last() =~= pairs.subrange(0, i as int));
                assert(feeds.view_map().dom().contains(prices_with_timestamp@[i as int].0@));
            }
            let max_age = *feeds.get(pair_id).unwrap();
            let min_timestamp = now - max_age;
            if !(timestamp > min_timestamp) {
                proof {
                    lemma_price_error_extends(prices_with_timestamp@, feeds.view_map(), now, i as int + 1);
                }
                return Err(ExchangeError::PriceTooOld);
            }
            if !price.is_positive() {
                proof {
                    lemma_price_error_extends(prices_with_timestamp@, feeds.view_map(), now, i as int + 1);
                }
                return Err(ExchangeError::InvalidPrice);
            }
            prices.insert(pair_id.key_clone(), price);
            i = i + 1;
        }
        assert(prices_with_timestamp@.subrange(0, prices_with_timestamp@.len() as int) =~= prices_with_timestamp@);
        assert(pairs.subrange(0, pairs.len() as int) =~= pairs);
        let ghost feeds_seq = Seq::new(
            resource_feeds@.len(),
            |k: int| (resource_feeds@[k].0, resource_feeds@[k].1),
        );
        let mut resource_map: AssocMap<ResourceAddress, PairId> = AssocMap::new();
        let mut j: usize = 0;
        assert(resource_map.view_map() =~= list_map(feeds_seq.subrange(0, 0)));
        while j < resource_feeds.len()
            invariant
                j <= resource_feeds@.len(),
                feeds_seq == Seq::new(
                    resource_feeds@.len(),
                    |k: int| (resource_feeds@[k].0, resource_feeds@[k].1),
                ),
                resource_map.view_map() == list_map(feeds_seq.subrange(0, j as int)),
            decreases resource_feeds@.len() - j,
        {
            proof {
                assert(feeds_seq.subrange(0, j as int + 1).drop_last() =~= feeds_seq.subrange(0, j as int));
            }
            resource_map.insert(resource_feeds[j].0, resource_feeds[j].1.clone());
            j = j + 1;
        }
        assert(feeds_seq.subrange(0, feeds_seq.len() as int) =~= feeds_seq);
        Ok(VirtualOracle { prices, resource_map })
    }

    pub open spec fn has_price(self, pair_id: Seq<char>) -> bool {
        self.prices.view_map().dom().contains(pair_id)
    }

    pub open spec fn price_of(self, pair_id: Seq<char>) -> Decimal {
        self.prices.view_map()[pair_id]
    }

    pub open spec fn has_resource_price(self, resource: ResourceAddress) -> bool {
        self.resource_map.view_map().dom().contains(resource) && self.has_price(
            self.resource_map.view_map()[resource]@,
        )
    }

    pub open spec fn resource_price_of(self, resource: ResourceAddress) -> Decimal {
        self.price_of(self.resource_map.view_map()[resource]@)
    }

    /// The price of a pair that the operation trusts.
    pub fn price(&self, pair_id: &PairId) -> (r: Decimal)
        requires
            self.has_price(pair_id@),
        ensures
            r == self.price_of(pair_id@),
    {
        *self.prices.get(pair_id).unwrap()
    }

    /// The price of a collateral resource, by the feed that the resource uses.
    pub fn price_resource(&self, resource: &ResourceAddress) -> (r: Decimal)
        requires
            self.has_resource_price(*resource),
        ensures
            r == self.resource_price_of(*resource),
    {
        let pair_id = self.resource_map.get(resource).unwrap();
        self.price(pair_id)
    }
}

/// A refusal of a prefix of the prices stays the refusal of any longer prefix.
pub proof fn lemma_price_error_extends(
    prices: Seq<(PairId, Decimal, i64)>,
    feeds: Map<Seq<char>, i64>,
    now: i64,
    n: int,
)
    requires
        0 <= n <= prices.len(),
    ensures
        price_error(prices.subrange(0, n), feeds, now) is Some ==> price_error(prices, feeds, now)
            == price_error(prices.subrange(0, n), feeds, now),
    decreases prices.len() - n,
{
    if n < prices.len() {
        lemma_price_error_extends(prices, feeds, now, n + 1);
        assert(prices.subrange(0, n + 1).drop_last() =~= prices.subrange(0, n));
    } else {
        assert(prices.subrange(0, n) =~= prices);
    }
}

} // verus!

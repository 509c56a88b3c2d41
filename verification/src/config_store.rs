use vstd::prelude::*;
use crate::account::{insert_view, view_has, view_pos, views_distinct};
use crate::common::{PairId, ResourceAddress};
use crate::compressed::{
    CollateralConfigCompressed, CollateralConfigCompressedView, ExchangeConfigCompressed, PairConfigCompressed,
    PairConfigCompressedView, collateral_compressible, decompressed_collateral, decompressed_pair, compressed_collateral, compressed_exchange, compressed_pair, compressible,
    exchange_compressible, pair_compressible,
};
use crate::config::{CollateralConfig, ConfigError, ExchangeConfig, PairConfig, VirtualConfig};
use crate::d_float::{lemma_bit_length, packed, two_pow};
use crate::decimal::{abs, pow10, scale, tdiv};
use crate::map::{AssocMap, MapKey, has_key, key_pos, keys_distinct, lemma_key_pos_unique};

verus! {

/// A positive number of `b` bits whose leading digits, taken as dfloat_parts
/// takes them, fit 16 bits.
proof fn lemma_compressible_at(x: int, b: nat, k: nat)
    requires
        0 < x < 1_000_000_000_000_000_000_000_000,
        1 <= b,
        two_pow((b - 1) as nat) <= x < two_pow(b),
        k + 3 == (if b * 30103 / 100000 >= 3 { b * 30103 / 100000 } else { 3 }),
        ({
            let s = x / pow10(k);
            let e = k + 3 - 18;
            let (e2, s2) = if s > 1024 { (e + 1, s / 10) } else { (e, s) };
            s <= 32767 && -15 <= e2 <= 16 && s2 <= 1024
        }),
        pow10(k) > 0,
    ensures
        compressible(x),
{
    lemma_bit_length(x as nat, b);
    assert(abs(x) == x);
    assert(tdiv(x, pow10(k)) == x / pow10(k));
    let s = x / pow10(k);
    assert(s >= 0) by (nonlinear_arith)
        requires
            x > 0,
            pow10(k) > 0,
            s == x / pow10(k),
    ;
    assert(tdiv(s, 10) == s / 10);
}

proof fn lemma_compressible_0()
    ensures
        compressible(150000000000000000),
{
    reveal_with_fuel(two_pow, 59);
    reveal_with_fuel(pow10, 15);
    assert(two_pow(57) == 144115188075855872);
    assert(two_pow(58) == 288230376151711744);
    assert(pow10(14) == 100000000000000);
    lemma_compressible_at(150000000000000000, 58, 14);
}

proof fn lemma_compressible_1()
    ensures
        compressible(200000000000000000),
{
    reveal_with_fuel(two_pow, 59);
    reveal_with_fuel(pow10, 15);
    assert(two_pow(57) == 144115188075855872);
    assert(two_pow(58) == 288230376151711744);
    assert(pow10(14) == 100000000000000);
    lemma_compressible_at(200000000000000000, 58, 14);
}

proof fn lemma_compressible_2()
    ensures
        compressible(70000000000000000),
{
    reveal_with_fuel(two_pow, 57);
    reveal_with_fuel(pow10, 14);
    assert(two_pow(55) == 36028797018963968);
    assert(two_pow(56) == 72057594037927936);
    assert(pow10(13) == 10000000000000);
    lemma_compressible_at(70000000000000000, 56, 13);
}

proof fn lemma_compressible_3()
    ensures
        compressible(1000000000000000),
{
    reveal_with_fuel(two_pow, 51);
    reveal_with_fuel(pow10, 13);
    assert(two_pow(49) == 562949953421312);
    assert(two_pow(50) == 1125899906842624);
    assert(pow10(12) == 1000000000000);
    lemma_compressible_at(1000000000000000, 50, 12);
}

proof fn lemma_compressible_4()
    ensures
        compressible(220000000000000000),
{
    reveal_with_fuel(two_pow, 59);
    reveal_with_fuel(pow10, 15);
    assert(two_pow(57) == 144115188075855872);
    assert(two_pow(58) == 288230376151711744);
    assert(pow10(14) == 100000000000000);
    lemma_compressible_at(220000000000000000, 58, 14);
}

proof fn lemma_compressible_5()
    ensures
        compressible(80000000000000000),
{
    reveal_with_fuel(two_pow, 58);
    reveal_with_fuel(pow10, 15);
    assert(two_pow(56) == 72057594037927936);
    assert(two_pow(57) == 144115188075855872);
    assert(pow10(14) == 100000000000000);
    lemma_compressible_at(80000000000000000, 57, 14);
}

proof fn lemma_compressible_6()
    ensures
        compressible(1000000000000000000),
{
    reveal_with_fuel(two_pow, 61);
    reveal_with_fuel(pow10, 16);
    assert(two_pow(59) == 576460752303423488);
    assert(two_pow(60) == 1152921504606846976);
    assert(pow10(15) == 1000000000000000);
    lemma_compressible_at(1000000000000000000, 60, 15);
}

proof fn lemma_compressible_7()
    ensures
        compressible(10000000000000000),
{
    reveal_with_fuel(two_pow, 55);
    reveal_with_fuel(pow10, 14);
    assert(two_pow(53) == 9007199254740992);
    assert(two_pow(54) == 18014398509481984);
    assert(pow10(13) == 10000000000000);
    lemma_compressible_at(10000000000000000, 54, 13);
}

proof fn lemma_compressible_8()
    ensures
        compressible(10000000000000000000000),
{
    reveal_with_fuel(two_pow, 75);
    reveal_with_fuel(pow10, 20);
    assert(two_pow(73) == 9444732965739290427392);
    assert(two_pow(74) == 18889465931478580854784);
    assert(pow10(19) == 10000000000000000000);
    lemma_compressible_at(10000000000000000000000, 74, 19);
}

/// The defaults of the exchange's decimal settings fit 16 bits.
proof fn lemma_default_compressible()
    ensures
        compressible(15 * scale() / 100),
        compressible(2 * scale() / 10),
        compressible(7 * scale() / 100),
        compressible(scale() / 1000),
        compressible(22 * scale() / 100),
        compressible(8 * scale() / 100),
        compressible(scale()),
        compressible(scale() / 100),
        compressible(10000 * scale()),
{
    lemma_compressible_0();
    lemma_compressible_1();
    lemma_compressible_2();
    lemma_compressible_3();
    lemma_compressible_4();
    lemma_compressible_5();
    lemma_compressible_6();
    lemma_compressible_7();
    lemma_compressible_8();
}

/// The stored pairs' settings in order, by the text of their pair.
pub open spec fn pair_entry_views(e: Seq<(PairId, PairConfigCompressed)>) -> Seq<(Seq<char>, PairConfigCompressedView)> {
    e.map_values(|x: (PairId, PairConfigCompressed)| (x.0@, x.1@))
}

/// The pairs' settings after storing each of `configs` in turn: a known pair's
/// in its place, a new pair's after the others.
pub open spec fn stored_pairs(
    views: Seq<(Seq<char>, PairConfigCompressedView)>,
    configs: Seq<PairConfig>,
) -> Seq<(Seq<char>, PairConfigCompressedView)>
    decreases configs.len(),
{
    if configs.len() == 0 {
        views
    } else {
        insert_view(stored_pairs(views, configs.drop_last()), configs.last().pair_id@, compressed_pair(configs.last()))
    }
}

/// The collaterals' settings after storing each of `configs` in turn.
pub open spec fn stored_collaterals(
    m: Map<ResourceAddress, CollateralConfigCompressedView>,
    configs: Seq<(ResourceAddress, CollateralConfig)>,
) -> Map<ResourceAddress, CollateralConfigCompressedView>
    decreases configs.len(),
{
    if configs.len() == 0 {
        m
    } else {
        stored_collaterals(m, configs.drop_last()).insert(configs.last().0, compressed_collateral(configs.last().1))
    }
}

/// The first rule that one of the pairs' settings breaks, in their order.
pub open spec fn first_pair_error(configs: Seq<PairConfig>) -> Option<ConfigError>
    decreases configs.len(),
{
    if configs.len() == 0 {
        None
    } else {
        match first_pair_error(configs.drop_last()) {
            Some(e) => Some(e),
            None => match configs.last().spec_validate() {
                Err(e) => Some(e),
                Ok(_) => None,
            },
        }
    }
}

/// The first rule that one of the collaterals' settings breaks, in their order.
pub open spec fn first_collateral_error(configs: Seq<(ResourceAddress, CollateralConfig)>) -> Option<ConfigError>
    decreases configs.len(),
{
    if configs.len() == 0 {
        None
    } else {
        match first_collateral_error(configs.drop_last()) {
            Some(e) => Some(e),
            None => match configs.last().1.spec_validate() {
                Err(e) => Some(e),
                Ok(_) => None,
            },
        }
    }
}

/// Storing a pair's settings in the map stores their view in the list of views.
proof fn lemma_insert_pair_views(entries: Seq<(PairId, PairConfigCompressed)>, key: PairId, v: PairConfigCompressed)
    requires
        keys_distinct(entries),
    ensures
        has_key(entries, key@) ==> pair_entry_views(
            entries.update(key_pos(entries, key@), (entries[key_pos(entries, key@)].0, v)),
        ) == insert_view(pair_entry_views(entries), key@, v@),
        !has_key(entries, key@) ==> pair_entry_views(entries.push((key, v))) == insert_view(
            pair_entry_views(entries),
            key@,
            v@,
        ),
{
    let views = pair_entry_views(entries);
    let k = key@;
    lemma_pair_view(entries, k);
    if has_key(entries, k) {
        let p = key_pos(entries, k);
        let q = view_pos(views, k);
        assert(views[q].0 == k);
        assert(entries[q].0.key_view() == k);
        lemma_key_pos_unique(entries, q);
        assert(entries[p].0.key_view() == k);
        assert(pair_entry_views(entries.update(p, (entries[p].0, v))) =~= views.update(q, (k, v@)));
    } else {
        assert(pair_entry_views(entries.push((key, v))) =~= views.push((k, v@)));
    }
}

/// A stored pair's entry and its view agree.
proof fn lemma_pair_view(entries: Seq<(PairId, PairConfigCompressed)>, k: Seq<char>)
    requires
        keys_distinct(entries),
    ensures
        view_has(pair_entry_views(entries), k) == has_key(entries, k),
        has_key(entries, k) ==> pair_entry_views(entries)[view_pos(pair_entry_views(entries), k)].1
            == entries[key_pos(entries, k)].1@,
{
    let views = pair_entry_views(entries);
    if has_key(entries, k) {
        let i = key_pos(entries, k);
        assert(views[i].0 == k);
        let j = view_pos(views, k);
        assert(entries[j].0.key_view() == k);
        lemma_key_pos_unique(entries, j);
    }
    if view_has(views, k) {
        let i = view_pos(views, k);
        assert(entries[i].0.key_view() == k);
    }
}

/// The settings that an operation loads from the store, compressed: the
/// exchange's, those of the requested pairs (none for an unknown pair), and
/// every collateral's.
pub struct ConfigInfoCompressed {
    pub exchange: ExchangeConfigCompressed,
    pub pair_configs: AssocMap<PairId, Option<PairConfigCompressed>>,
    pub collaterals: AssocMap<ResourceAddress, CollateralConfigCompressed>,
}

/// The store of the exchange's settings: the exchange's, those of each pair in
/// the order they were first stored, and those of each collateral resource.
pub struct Config {
    pub exchange: ExchangeConfigCompressed,
    pub pairs: AssocMap<PairId, PairConfigCompressed>,
    pub collaterals: AssocMap<ResourceAddress, CollateralConfigCompressed>,
}

/// The views of a map of collateral settings.
pub open spec fn collateral_views(m: AssocMap<ResourceAddress, CollateralConfigCompressed>) -> Map<
    ResourceAddress,
    CollateralConfigCompressedView,
> {
    m.view_map().map_values(|c: CollateralConfigCompressed| c@)
}

/// A copy of a map of collateral settings.
fn copy_collaterals(m: &AssocMap<ResourceAddress, CollateralConfigCompressed>) -> (r: AssocMap<
    ResourceAddress,
    CollateralConfigCompressed,
>)
    ensures
        collateral_views(r) == collateral_views(*m),
{
    proof {
        use_type_invariant(m);
        AssocMap::lemma_inv_distinct(*m);
    }
    let ghost e = m.entries();
    let mut r: AssocMap<ResourceAddress, CollateralConfigCompressed> = AssocMap::new();
    let mut i: usize = 0;
    while i < m.len()
        invariant
            e == m.entries(),
            keys_distinct(e),
            i <= e.len(),
            forall|k: ResourceAddress| #[trigger] r.view_map().dom().contains(k) <==> exists|t: int| 0 <= t < i && e[t].0 == k,
            forall|t: int| 0 <= t < i ==> #[trigger] r.view_map()[e[t].0]@ == e[t].1@,
        decreases e.len() - i,
    {
        let key = *m.key_at(i);
        let value = m.value_at(i).copy();
        r.insert(key, value);
        proof {
            assert(e[i as int].0 == key);
            assert forall|t: int| 0 <= t < i + 1 implies #[trigger] r.view_map()[e[t].0]@ == e[t].1@ by {
                if t < i {
                    assert(e[t].0.key_view() != e[i as int].0.key_view());
                }
            }
        }
        i = i + 1;
    }
    proof {
        assert forall|k: ResourceAddress| #[trigger] collateral_views(r).dom().contains(k) == collateral_views(*m).dom().contains(k) by {
            if m.view_map().dom().contains(k) {
                let t = choose|t: int| 0 <= t < e.len() && #[trigger] e[t].0.key_view() == k;
                assert(e[t].0 == k);
            }
        }
        assert forall|k: ResourceAddress| #[trigger] collateral_views(r).dom().contains(k) implies collateral_views(r)[k]
            == collateral_views(*m)[k] by {
            let t = choose|t: int| 0 <= t < i && e[t].0 == k;
            lemma_key_pos_unique(e, t);
        }
        assert(collateral_views(r) =~= collateral_views(*m));
    }
    r
}

impl Config {
    /// The stored pairs' settings in order.
    pub open spec fn pair_views(self) -> Seq<(Seq<char>, PairConfigCompressedView)> {
        pair_entry_views(self.pairs.entries())
    }

    /// A store with the default exchange settings and no pair or collateral.
    pub fn new() -> (r: Config)
        ensures
            r.exchange.max_price_age_seconds == 5,
            r.exchange.positions_max == 30,
            r.exchange.collaterals_max == 5,
            r.exchange.active_requests_max == 100,
            r.exchange.skew_ratio_cap == packed(15 * scale() / 100),
            r.exchange.adl_offset == packed(2 * scale() / 10),
            r.exchange.adl_a == packed(7 * scale() / 100),
            r.exchange.adl_b == packed(7 * scale() / 100),
            r.exchange.fee_liquidity_add == packed(scale() / 1000),
            r.exchange.fee_liquidity_remove == packed(scale() / 1000),
            r.exchange.fee_share_protocol == packed(22 * scale() / 100),
            r.exchange.fee_share_treasury == packed(8 * scale() / 100),
            r.exchange.fee_share_referral == packed(scale()),
            r.exchange.fee_max == packed(scale() / 100),
            r.exchange.protocol_burn_amount == packed(10000 * scale()),
            r.exchange.keeper_reward == packed(scale()),
            r.pair_views().len() == 0,
            collateral_views(r.collaterals) == Map::<ResourceAddress, CollateralConfigCompressedView>::empty(),
    {
        proof {
            lemma_default_compressible();
        }
        let exchange = ExchangeConfig::default().compress();
        let r = Config { exchange, pairs: AssocMap::new(), collaterals: AssocMap::new() };
        assert(r.pair_views() =~= Seq::<(Seq<char>, PairConfigCompressedView)>::empty());
        assert(collateral_views(r.collaterals) =~= Map::<ResourceAddress, CollateralConfigCompressedView>::empty());
        r
    }
}

impl Config {
    /// The number of pairs with settings.
    pub fn get_pair_configs_len(&self) -> (r: u64)
        ensures
            r == self.pair_views().len(),
    {
        self.pairs.len() as u64
    }

    /// Up to `n` pairs' settings from index `start` (zero when not given) on, in order.
    pub fn get_pair_configs(&self, n: u64, start: Option<u64>) -> (r: Vec<PairConfigCompressed>)
        requires
            start.unwrap_or(0) + n <= u64::MAX,
        ensures
            ({
                let s = start.unwrap_or(0) as int;
                let len = self.pair_views().len() as int;
                let end = if s + n <= len { s + n } else { len };
                &&& r@.len() == (if s < end { end - s } else { 0 })
                &&& forall|i: int| 0 <= i < r@.len() ==> (#[trigger] r@[i])@ == self.pair_views()[s + i].1
            }),
    {
        let s = match start {
            Some(s) => s,
            None => 0,
        };
        let len = self.pairs.len() as u64;
        let end = if s + n <= len {
            s + n
        } else {
            len
        };
        let mut r: Vec<PairConfigCompressed> = Vec::new();
        if s < end {
            let mut i = s;
            while i < end
                invariant
                    s <= i <= end,
                    end <= self.pairs.entries().len(),
                    self.pairs.entries().len() <= usize::MAX,
                    r@.len() == i - s,
                    forall|j: int| 0 <= j < r@.len() ==> (#[trigger] r@[j])@ == self.pair_views()[s + j].1,
                decreases end - i,
            {
                let idx: usize = i as usize;
                assert(idx == i);
                let c = self.pairs.value_at(idx).copy();
                proof {
                    assert(self.pair_views()[i as int].1 == self.pairs.entries()[i as int].1@);
                    assert(r@.push(c).len() == i - s + 1);
                }
                r.push(c);
                i = i + 1;
            }
        }
        r
    }

    /// The settings of the given pairs (none for a pair without any), by pair.
    pub fn get_pair_configs_by_ids(&self, pair_ids: &Vec<PairId>) -> (r: AssocMap<PairId, Option<PairConfigCompressed>>)
        ensures
            forall|k: Seq<char>| #[trigger] r.view_map().dom().contains(k) <==> exists|i: int|
                0 <= i < pair_ids@.len() && pair_ids@[i]@ == k,
            forall|k: Seq<char>|
                #[trigger] r.view_map().dom().contains(k) ==> (r.view_map()[k] is Some <==> view_has(self.pair_views(), k))
                    && (r.view_map()[k] matches Some(c) ==> c@ == self.pair_views()[view_pos(self.pair_views(), k)].1),
    {
        proof {
            use_type_invariant(&self.pairs);
            AssocMap::lemma_inv_distinct(self.pairs);
        }
        let mut r: AssocMap<PairId, Option<PairConfigCompressed>> = AssocMap::new();
        let mut i: usize = 0;
        while i < pair_ids.len()
            invariant
                i <= pair_ids@.len(),
                keys_distinct(self.pairs.entries()),
                forall|k: Seq<char>| #[trigger] r.view_map().dom().contains(k) <==> exists|t: int|
                    0 <= t < i && pair_ids@[t]@ == k,
                forall|k: Seq<char>|
                    #[trigger] r.view_map().dom().contains(k) ==> (r.view_map()[k] is Some <==> view_has(self.pair_views(), k))
                        && (r.view_map()[k] matches Some(c) ==> c@ == self.pair_views()[view_pos(self.pair_views(), k)].1),
            decreases pair_ids@.len() - i,
        {
            let id = &pair_ids[i];
            proof {
                lemma_pair_view(self.pairs.entries(), id@);
            }
            let value = match self.pairs.get(id) {
                Some(c) => Some(c.copy()),
                None => None,
            };
            r.insert(id.clone(), value);
            proof {
                assert forall|k: Seq<char>| #[trigger] r.view_map().dom().contains(k) <==> exists|t: int|
                    0 <= t < i + 1 && pair_ids@[t]@ == k by {
                    if k == id@ {
                        assert(pair_ids@[i as int]@ == k);
                    }
                }
            }
            i = i + 1;
        }
        r
    }

    /// The settings an operation loads: the exchange's, those of the given
    /// pairs, and every collateral's.
    pub fn get_info(&self, pair_ids: &Vec<PairId>) -> (r: ConfigInfoCompressed)
        ensures
            r.exchange == self.exchange,
            forall|k: Seq<char>| #[trigger] r.pair_configs.view_map().dom().contains(k) <==> exists|i: int|
                0 <= i < pair_ids@.len() && pair_ids@[i]@ == k,
            forall|k: Seq<char>|
                #[trigger] r.pair_configs.view_map().dom().contains(k) ==> (r.pair_configs.view_map()[k] is Some
                    <==> view_has(self.pair_views(), k)) && (r.pair_configs.view_map()[k] matches Some(c) ==> c@
                    == self.pair_views()[view_pos(self.pair_views(), k)].1),
            collateral_views(r.collaterals) == collateral_views(self.collaterals),
    {
        ConfigInfoCompressed {
            exchange: self.exchange,
            pair_configs: self.get_pair_configs_by_ids(pair_ids),
            collaterals: copy_collaterals(&self.collaterals),
        }
    }

    /// Replaces the exchange's settings, which must follow the rules.
    pub fn update_exchange_config(&mut self, config: ExchangeConfig) -> (r: Result<(), ConfigError>)
        requires
            exchange_compressible(config),
        ensures
            r == config.spec_validate(),
            r is Ok ==> final(self).exchange == compressed_exchange(config),
            r is Err ==> final(self).exchange == old(self).exchange,
            final(self).pairs == old(self).pairs,
            final(self).collaterals == old(self).collaterals,
    {
        config.validate()?;
        self.exchange = config.compress();
        Ok(())
    }

    /// Stores each pair's settings in turn, a known pair's in its place and a
    /// new pair's after the others. Nothing is stored when one breaks a rule;
    /// the error names the first rule that the first such one breaks.
    pub fn update_pair_configs(&mut self, configs: Vec<PairConfig>) -> (r: Result<(), ConfigError>)
        requires
            forall|i: int| 0 <= i < configs@.len() ==> pair_compressible(#[trigger] configs@[i]),
        ensures
            r is Err <==> first_pair_error(configs@) is Some,
            r matches Err(e) ==> first_pair_error(configs@) == Some(e) && final(self).pairs == old(self).pairs,
            r is Ok ==> final(self).pair_views() == stored_pairs(old(self).pair_views(), configs@),
            final(self).exchange == old(self).exchange,
            final(self).collaterals == old(self).collaterals,
    {
        let mut i: usize = 0;
        while i < configs.len()
            invariant
                i <= configs@.len(),
                first_pair_error(configs@.subrange(0, i as int)) is None,
            decreases configs@.len() - i,
        {
            proof {
                assert(configs@.subrange(0, i as int + 1).drop_last() =~= configs@.subrange(0, i as int));
            }
            match configs[i].validate() {
                Err(e) => {
                    proof {
                        lemma_first_pair_error_extends(configs@, i as int + 1);
                    }
                    return Err(e);
                },
                Ok(_) => {},
            }
            i = i + 1;
        }
        assert(configs@.subrange(0, configs@.len() as int) =~= configs@);
        let ghost views0 = self.pair_views();
        let mut i: usize = 0;
        while i < configs.len()
            invariant
                i <= configs@.len(),
                forall|j: int| 0 <= j < configs@.len() ==> pair_compressible(#[trigger] configs@[j]),
                self.pair_views() == stored_pairs(views0, configs@.subrange(0, i as int)),
                self.exchange == old(self).exchange,
                self.collaterals == old(self).collaterals,
            decreases configs@.len() - i,
        {
            let compressed = configs[i].compress();
            let key = configs[i].pair_id.clone();
            proof {
                use_type_invariant(&self.pairs);
                AssocMap::lemma_inv_distinct(self.pairs);
                lemma_insert_pair_views(self.pairs.entries(), key, compressed);
                assert(configs@.subrange(0, i as int + 1).drop_last() =~= configs@.subrange(0, i as int));
            }
            self.pairs.insert(key, compressed);
            i = i + 1;
        }
        assert(configs@.subrange(0, configs@.len() as int) =~= configs@);
        Ok(())
    }

    /// Stores each collateral's settings in turn. Nothing is stored when one
    /// breaks a rule; the error names the first rule that the first such one breaks.
    pub fn update_collateral_configs(&mut self, configs: Vec<(ResourceAddress, CollateralConfig)>) -> (r: Result<
        (),
        ConfigError,
    >)
        requires
            forall|i: int| 0 <= i < configs@.len() ==> collateral_compressible((#[trigger] configs@[i]).1),
        ensures
            r is Err <==> first_collateral_error(configs@) is Some,
            r matches Err(e) ==> first_collateral_error(configs@) == Some(e) && final(self).collaterals == old(
                self,
            ).collaterals,
            r is Ok ==> collateral_views(final(self).collaterals) == stored_collaterals(
                collateral_views(old(self).collaterals),
                configs@,
            ),
            final(self).exchange == old(self).exchange,
            final(self).pairs == old(self).pairs,
    {
        let mut i: usize = 0;
        while i < configs.len()
            invariant
                i <= configs@.len(),
                first_collateral_error(configs@.subrange(0, i as int)) is None,
            decreases configs@.len() - i,
        {
            proof {
                assert(configs@.subrange(0, i as int + 1).drop_last() =~= configs@.subrange(0, i as int));
            }
            match configs[i].1.validate() {
                Err(e) => {
                    proof {
                        lemma_first_collateral_error_extends(configs@, i as int + 1);
                    }
                    return Err(e);
                },
                Ok(_) => {},
            }
            i = i + 1;
        }
        assert(configs@.subrange(0, configs@.len() as int) =~= configs@);
        let ghost m0 = collateral_views(self.collaterals);
        let mut i: usize = 0;
        while i < configs.len()
            invariant
                i <= configs@.len(),
                forall|j: int| 0 <= j < configs@.len() ==> collateral_compressible((#[trigger] configs@[j]).1),
                collateral_views(self.collaterals) == stored_collaterals(m0, configs@.subrange(0, i as int)),
                self.exchange == old(self).exchange,
                self.pairs == old(self).pairs,
            decreases configs@.len() - i,
        {
            let (resource, config) = &configs[i];
            let compressed = config.compress();
            self.collaterals.insert(*resource, compressed);
            proof {
                assert(configs@.subrange(0, i as int + 1).drop_last() =~= configs@.subrange(0, i as int));
                assert(collateral_views(self.collaterals) =~= stored_collaterals(m0, configs@.subrange(0, i as int + 1)));
            }
            i = i + 1;
        }
        assert(configs@.subrange(0, configs@.len() as int) =~= configs@);
        Ok(())
    }

    /// Removes a collateral's settings.
    pub fn remove_collateral_config(&mut self, resource: ResourceAddress)
        ensures
            collateral_views(final(self).collaterals) == collateral_views(old(self).collaterals).remove(resource),
            final(self).exchange == old(self).exchange,
            final(self).pairs == old(self).pairs,
    {
        self.collaterals.remove(&resource);
        assert(collateral_views(self.collaterals) =~= collateral_views(old(self).collaterals).remove(resource));
    }
}

/// Once a prefix holds an error, every longer prefix names the same one.
proof fn lemma_first_pair_error_extends(configs: Seq<PairConfig>, n: int)
    requires
        0 <= n <= configs.len(),
        first_pair_error(configs.subrange(0, n)) is Some,
    ensures
        first_pair_error(configs) == first_pair_error(configs.subrange(0, n)),
    decreases configs.len() - n,
{
    if n < configs.len() {
        assert(configs.subrange(0, n + 1).drop_last() =~= configs.subrange(0, n));
        lemma_first_pair_error_extends(configs, n + 1);
    } else {
        assert(configs.subrange(0, n) =~= configs);
    }
}

/// Once a prefix holds an error, every longer prefix names the same one.
proof fn lemma_first_collateral_error_extends(configs: Seq<(ResourceAddress, CollateralConfig)>, n: int)
    requires
        0 <= n <= configs.len(),
        first_collateral_error(configs.subrange(0, n)) is Some,
    ensures
        first_collateral_error(configs) == first_collateral_error(configs.subrange(0, n)),
    decreases configs.len() - n,
{
    if n < configs.len() {
        assert(configs.subrange(0, n + 1).drop_last() =~= configs.subrange(0, n));
        lemma_first_collateral_error_extends(configs, n + 1);
    } else {
        assert(configs.subrange(0, n) =~= configs);
    }
}

/// The settings that an operation loads, with their decimals restored.
pub struct ConfigInfo {
    pub exchange: ExchangeConfig,
    pub pair_configs: AssocMap<PairId, Option<PairConfig>>,
    pub collaterals: AssocMap<ResourceAddress, CollateralConfig>,
}

impl ConfigInfoCompressed {
    /// The settings with their decimals restored.
    pub fn decompress(&self) -> (r: ConfigInfo)
        ensures
            r.exchange.max_price_age_seconds == self.exchange.max_price_age_seconds as i64,
            r.exchange.positions_max == self.exchange.positions_max,
            r.exchange.collaterals_max == self.exchange.collaterals_max,
            r.exchange.active_requests_max == self.exchange.active_requests_max,
            r.exchange.skew_ratio_cap@ == self.exchange.skew_ratio_cap.value(),
            r.exchange.adl_offset@ == self.exchange.adl_offset.value(),
            r.exchange.adl_a@ == self.exchange.adl_a.value(),
            r.exchange.adl_b@ == self.exchange.adl_b.value(),
            r.exchange.fee_liquidity_add@ == self.exchange.fee_liquidity_add.value(),
            r.exchange.fee_liquidity_remove@ == self.exchange.fee_liquidity_remove.value(),
            r.exchange.fee_share_protocol@ == self.exchange.fee_share_protocol.value(),
            r.exchange.fee_share_treasury@ == self.exchange.fee_share_treasury.value(),
            r.exchange.fee_share_referral@ == self.exchange.fee_share_referral.value(),
            r.exchange.fee_max@ == self.exchange.fee_max.value(),
            r.exchange.protocol_burn_amount@ == self.exchange.protocol_burn_amount.value(),
            r.exchange.reward_keeper@ == self.exchange.keeper_reward.value(),
            r.pair_configs.view_map().dom() == self.pair_configs.view_map().dom(),
            forall|k: Seq<char>|
                #[trigger] r.pair_configs.view_map().dom().contains(k) ==> (r.pair_configs.view_map()[k] is Some
                    <==> self.pair_configs.view_map()[k] is Some) && (r.pair_configs.view_map()[k] matches Some(p)
                    ==> decompressed_pair(p, self.pair_configs.view_map()[k].unwrap()@)),
            r.collaterals.view_map().dom() == self.collaterals.view_map().dom(),
            forall|k: ResourceAddress|
                #[trigger] r.collaterals.view_map().dom().contains(k) ==> decompressed_collateral(
                    r.collaterals.view_map()[k],
                    self.collaterals.view_map()[k]@,
                ),
    {
        proof {
            use_type_invariant(&self.pair_configs);
            AssocMap::lemma_inv_distinct(self.pair_configs);
            use_type_invariant(&self.collaterals);
            AssocMap::lemma_inv_distinct(self.collaterals);
        }
        let ghost pe = self.pair_configs.entries();
        let mut pair_configs: AssocMap<PairId, Option<PairConfig>> = AssocMap::new();
        let mut i: usize = 0;
        while i < self.pair_configs.len()
            invariant
                pe == self.pair_configs.entries(),
                keys_distinct(pe),
                i <= pe.len(),
                forall|k: Seq<char>| #[trigger] pair_configs.view_map().dom().contains(k) <==> exists|t: int|
                    0 <= t < i && pe[t].0@ == k,
                forall|t: int|
                    0 <= t < i ==> (#[trigger] pair_configs.view_map()[pe[t].0@] is Some <==> pe[t].1 is Some) && (
                    pair_configs.view_map()[pe[t].0@] matches Some(p) ==> decompressed_pair(p, pe[t].1.unwrap()@)),
            decreases pe.len() - i,
        {
            let key = self.pair_configs.key_at(i).clone();
            let value = match self.pair_configs.value_at(i) {
                Some(c) => Some(c.decompress()),
                None => None,
            };
            pair_configs.insert(key, value);
            proof {
                assert forall|t: int| 0 <= t < i + 1 implies (#[trigger] pair_configs.view_map()[pe[t].0@] is Some
                    <==> pe[t].1 is Some) && (pair_configs.view_map()[pe[t].0@] matches Some(p) ==> decompressed_pair(
                    p,
                    pe[t].1.unwrap()@,
                )) by {
                    if t < i {
                        assert(pe[t].0.key_view() != pe[i as int].0.key_view());
                    }
                }
                assert forall|k: Seq<char>| #[trigger] pair_configs.view_map().dom().contains(k) <==> exists|t: int|
                    0 <= t < i + 1 && pe[t].0@ == k by {
                    if k == pe[i as int].0@ {
                        assert(pe[i as int].0@ == k);
                    }
                }
            }
            i = i + 1;
        }
        let ghost ce = self.collaterals.entries();
        let mut collaterals: AssocMap<ResourceAddress, CollateralConfig> = AssocMap::new();
        let mut j: usize = 0;
        while j < self.collaterals.len()
            invariant
                ce == self.collaterals.entries(),
                keys_distinct(ce),
                j <= ce.len(),
                forall|k: ResourceAddress| #[trigger] collaterals.view_map().dom().contains(k) <==> exists|t: int|
                    0 <= t < j && ce[t].0 == k,
                forall|t: int|
                    0 <= t < j ==> decompressed_collateral(#[trigger] collaterals.view_map()[ce[t].0], ce[t].1@),
            decreases ce.len() - j,
        {
            let key = *self.collaterals.key_at(j);
            let value = self.collaterals.value_at(j).decompress();
            collaterals.insert(key, value);
            proof {
                assert forall|t: int| 0 <= t < j + 1 implies decompressed_collateral(
                    #[trigger] collaterals.view_map()[ce[t].0],
                    ce[t].1@,
                ) by {
                    if t < j {
                        assert(ce[t].0.key_view() != ce[j as int].0.key_view());
                    }
                }
            }
            j = j + 1;
        }
        proof {
            assert forall|k: Seq<char>| pair_configs.view_map().dom().contains(k) == self.pair_configs.view_map().dom().contains(k) by {
                if self.pair_configs.view_map().dom().contains(k) {
                    let t = choose|t: int| 0 <= t < pe.len() && #[trigger] pe[t].0.key_view() == k;
                    assert(pe[t].0@ == k);
                }
                if pair_configs.view_map().dom().contains(k) {
                    let t = choose|t: int| 0 <= t < i && pe[t].0@ == k;
                    assert(pe[t].0.key_view() == k);
                }
            }
            assert(pair_configs.view_map().dom() =~= self.pair_configs.view_map().dom());
            assert forall|k: Seq<char>| #[trigger] pair_configs.view_map().dom().contains(k) implies (
            pair_configs.view_map()[k] is Some <==> self.pair_configs.view_map()[k] is Some) && (
            pair_configs.view_map()[k] matches Some(p) ==> decompressed_pair(p, self.pair_configs.view_map()[k].unwrap()@)) by {
                let t = choose|t: int| 0 <= t < i && pe[t].0@ == k;
                lemma_key_pos_unique(pe, t);
            }
            assert forall|k: ResourceAddress| collaterals.view_map().dom().contains(k) == self.collaterals.view_map().dom().contains(k) by {
                if self.collaterals.view_map().dom().contains(k) {
                    let t = choose|t: int| 0 <= t < ce.len() && #[trigger] ce[t].0.key_view() == k;
                    assert(ce[t].0 == k);
                }
            }
            assert(collaterals.view_map().dom() =~= self.collaterals.view_map().dom());
            assert forall|k: ResourceAddress| #[trigger] collaterals.view_map().dom().contains(k) implies decompressed_collateral(
                collaterals.view_map()[k],
                self.collaterals.view_map()[k]@,
            ) by {
                let t = choose|t: int| 0 <= t < j && ce[t].0 == k;
                lemma_key_pos_unique(ce, t);
            }
        }
        ConfigInfo { exchange: self.exchange.decompress(), pair_configs, collaterals }
    }
}

impl VirtualConfig {
    /// The settings an operation works with, from those it loaded, every
    /// requested pair's among them.
    pub fn new(info: ConfigInfo) -> (r: VirtualConfig)
        requires
            forall|k: Seq<char>| #[trigger] info.pair_configs.view_map().dom().contains(k) ==> info.pair_configs.view_map()[k] is Some,
        ensures
            r.exchange_config == info.exchange,
            r.pair_configs.view_map().dom() == info.pair_configs.view_map().dom(),
            forall|k: Seq<char>|
                #[trigger] r.pair_configs.view_map().dom().contains(k) ==> r.pair_configs.view_map()[k].same_as(
                    info.pair_configs.view_map()[k].unwrap(),
                ),
            r.collateral_configs == info.collaterals,
    {
        proof {
            use_type_invariant(&info.pair_configs);
            AssocMap::lemma_inv_distinct(info.pair_configs);
        }
        let ghost pe = info.pair_configs.entries();
        let mut pair_configs: AssocMap<PairId, PairConfig> = AssocMap::new();
        let mut i: usize = 0;
        while i < info.pair_configs.len()
            invariant
                pe == info.pair_configs.entries(),
                keys_distinct(pe),
                i <= pe.len(),
                forall|k: Seq<char>| #[trigger] info.pair_configs.view_map().dom().contains(k) ==> info.pair_configs.view_map()[k] is Some,
                forall|k: Seq<char>| #[trigger] pair_configs.view_map().dom().contains(k) <==> exists|t: int|
                    0 <= t < i && pe[t].0@ == k,
                forall|t: int| 0 <= t < i ==> (#[trigger] pair_configs.view_map()[pe[t].0@]).same_as(pe[t].1.unwrap()),
            decreases pe.len() - i,
        {
            let key = info.pair_configs.key_at(i).clone();
            proof {
                lemma_key_pos_unique(pe, i as int);
                assert(info.pair_configs.view_map().dom().contains(pe[i as int].0@));
            }
            let value = info.pair_configs.value_at(i).as_ref().unwrap().copy();
            pair_configs.insert(key, value);
            proof {
                assert forall|t: int| 0 <= t < i + 1 implies (#[trigger] pair_configs.view_map()[pe[t].0@]).same_as(
                    pe[t].1.unwrap(),
                ) by {
                    if t < i {
                        assert(pe[t].0.key_view() != pe[i as int].0.key_view());
                    }
                }
                assert forall|k: Seq<char>| #[trigger] pair_configs.view_map().dom().contains(k) <==> exists|t: int|
                    0 <= t < i + 1 && pe[t].0@ == k by {
                    if k == pe[i as int].0@ {
                        assert(pe[i as int].0@ == k);
                    }
                }
            }
            i = i + 1;
        }
        proof {
            assert forall|k: Seq<char>| pair_configs.view_map().dom().contains(k) == info.pair_configs.view_map().dom().contains(k) by {
                if info.pair_configs.view_map().dom().contains(k) {
                    let t = choose|t: int| 0 <= t < pe.len() && #[trigger] pe[t].0.key_view() == k;
                    assert(pe[t].0@ == k);
                }
                if pair_configs.view_map().dom().contains(k) {
                    let t = choose|t: int| 0 <= t < i && pe[t].0@ == k;
                    assert(pe[t].0.key_view() == k);
                }
            }
            assert(pair_configs.view_map().dom() =~= info.pair_configs.view_map().dom());
            assert forall|k: Seq<char>| #[trigger] pair_configs.view_map().dom().contains(k) implies pair_configs.view_map()[k].same_as(
                info.pair_configs.view_map()[k].unwrap(),
            ) by {
                let t = choose|t: int| 0 <= t < i && pe[t].0@ == k;
                lemma_key_pos_unique(pe, t);
            }
        }
        VirtualConfig { exchange_config: info.exchange, pair_configs, collateral_configs: info.collaterals }
    }
}

/// The settings stored under a pair in a list of views.
pub open spec fn view_value<V>(views: Seq<(Seq<char>, V)>, k: Seq<char>) -> V {
    views[view_pos(views, k)].1
}

/// Storing under a pair in a list of views with distinct pairs: the pair then
/// holds the new value, every other pair keeps its own, and the pairs stay distinct.
pub proof fn lemma_insert_view_lookup<V>(views: Seq<(Seq<char>, V)>, k: Seq<char>, v: V)
    requires
        views_distinct(views),
    ensures
        views_distinct(insert_view(views, k, v)),
        view_has(insert_view(views, k, v), k),
        view_value(insert_view(views, k, v), k) == v,
        forall|q: Seq<char>| q != k ==> (view_has(insert_view(views, k, v), q) == view_has(views, q)),
        forall|q: Seq<char>| q != k && view_has(views, q) ==> view_value(insert_view(views, k, v), q) == view_value(views, q),
{
    let after = insert_view(views, k, v);
    if view_has(views, k) {
        let p = view_pos(views, k);
        assert(after[p].0 == k);
        assert forall|q: Seq<char>| q != k implies (view_has(after, q) == view_has(views, q)) by {
            if view_has(views, q) {
                let t = view_pos(views, q);
                assert(after[t].0 == q);
            }
            if view_has(after, q) {
                let t = view_pos(after, q);
                assert(views[t].0 == q);
            }
        }
        assert forall|q: Seq<char>| q != k && view_has(views, q) implies view_value(after, q) == view_value(views, q) by {
            let t = view_pos(views, q);
            let u = view_pos(after, q);
            assert(after[t].0 == q);
            assert(views[u].0 == q);
        }
    } else {
        let n = views.len() as int;
        assert(after[n].0 == k);
        assert forall|q: Seq<char>| q != k implies (view_has(after, q) == view_has(views, q)) by {
            if view_has(views, q) {
                let t = view_pos(views, q);
                assert(after[t].0 == q);
            }
            if view_has(after, q) {
                let t = view_pos(after, q);
                assert(views[t].0 == q);
            }
        }
        assert forall|q: Seq<char>| q != k && view_has(views, q) implies view_value(after, q) == view_value(views, q) by {
            let t = view_pos(views, q);
            let u = view_pos(after, q);
            assert(after[t].0 == q);
            assert(views[u].0 == q);
        }
    }
}

/// What storing pairs' settings does to a later read: the last settings stored
/// for a pair are what the store then holds for it, compressed; every pair not
/// among them keeps what it had; no pair is stored twice.
pub proof fn law_pair_config_read_after_write(
    views: Seq<(Seq<char>, PairConfigCompressedView)>,
    configs: Seq<PairConfig>,
    c: PairConfig,
    q: Seq<char>,
)
    requires
        views_distinct(views),
    ensures
        views_distinct(stored_pairs(views, configs.push(c))),
        view_has(stored_pairs(views, configs.push(c)), c.pair_id@),
        view_value(stored_pairs(views, configs.push(c)), c.pair_id@) == compressed_pair(c),
        (forall|i: int| 0 <= i < configs.len() ==> (#[trigger] configs[i]).pair_id@ != q) && q != c.pair_id@
            ==> view_has(stored_pairs(views, configs.push(c)), q) == view_has(views, q) && (view_has(views, q)
            ==> view_value(stored_pairs(views, configs.push(c)), q) == view_value(views, q)),
    decreases configs.len(),
{
    let all = configs.push(c);
    assert(all.drop_last() =~= configs);
    lemma_stored_pairs_distinct(views, configs);
    lemma_insert_view_lookup(stored_pairs(views, configs), c.pair_id@, compressed_pair(c));
    if (forall|i: int| 0 <= i < configs.len() ==> (#[trigger] configs[i]).pair_id@ != q) && q != c.pair_id@ {
        lemma_stored_pairs_untouched(views, configs, q);
    }
}

proof fn lemma_stored_pairs_distinct(views: Seq<(Seq<char>, PairConfigCompressedView)>, configs: Seq<PairConfig>)
    requires
        views_distinct(views),
    ensures
        views_distinct(stored_pairs(views, configs)),
    decreases configs.len(),
{
    if configs.len() > 0 {
        lemma_stored_pairs_distinct(views, configs.drop_last());
        lemma_insert_view_lookup(stored_pairs(views, configs.drop_last()), configs.last().pair_id@, compressed_pair(configs.last()));
    }
}

proof fn lemma_stored_pairs_untouched(views: Seq<(Seq<char>, PairConfigCompressedView)>, configs: Seq<PairConfig>, q: Seq<char>)
    requires
        views_distinct(views),
        forall|i: int| 0 <= i < configs.len() ==> (#[trigger] configs[i]).pair_id@ != q,
    ensures
        view_has(stored_pairs(views, configs), q) == view_has(views, q),
        view_has(views, q) ==> view_value(stored_pairs(views, configs), q) == view_value(views, q),
    decreases configs.len(),
{
    if configs.len() > 0 {
        let prev = configs.drop_last();
        assert forall|i: int| 0 <= i < prev.len() implies (#[trigger] prev[i]).pair_id@ != q by {
            assert(prev[i] == configs[i]);
        }
        lemma_stored_pairs_untouched(views, prev, q);
        lemma_stored_pairs_distinct(views, prev);
        assert(configs.last() == configs[configs.len() - 1]);
        lemma_insert_view_lookup(stored_pairs(views, prev), configs.last().pair_id@, compressed_pair(configs.last()));
    }
}

/// What storing collaterals' settings does to a later read: the last settings
/// stored for a resource are what the store then holds for it, compressed.
pub proof fn law_collateral_config_read_after_write(
    m: Map<ResourceAddress, CollateralConfigCompressedView>,
    configs: Seq<(ResourceAddress, CollateralConfig)>,
    resource: ResourceAddress,
    c: CollateralConfig,
)
    ensures
        stored_collaterals(m, configs.push((resource, c))).dom().contains(resource),
        stored_collaterals(m, configs.push((resource, c)))[resource] == compressed_collateral(c),
{
    assert(configs.push((resource, c)).drop_last() =~= configs);
}

} // verus!

use vstd::prelude::*;
use crate::common::ResourceAddress;

verus! {

/// A key of an [`AssocMap`]: a value with an exact equality test.
pub trait MapKey: Sized {
    type KeyView;

    spec fn key_view(&self) -> Self::KeyView;

    fn key_eq(&self, other: &Self) -> (r: bool)
        ensures
            r == (self.key_view() == other.key_view()),
    ;

    fn key_clone(&self) -> (r: Self)
        ensures
            r.key_view() == self.key_view(),
    ;
}

impl MapKey for String {
    type KeyView = Seq<char>;

    open spec fn key_view(&self) -> Seq<char> {
        self@
    }

    fn key_eq(&self, other: &Self) -> (r: bool) {
        *self == *other
    }

    fn key_clone(&self) -> (r: Self) {
        self.clone()
    }
}

impl MapKey for ResourceAddress {
    type KeyView = ResourceAddress;

    open spec fn key_view(&self) -> ResourceAddress {
        *self
    }

    fn key_eq(&self, other: &Self) -> (r: bool) {
        *self == *other
    }

    fn key_clone(&self) -> (r: Self) {
        *self
    }
}

impl MapKey for u64 {
    type KeyView = u64;

    open spec fn key_view(&self) -> u64 {
        *self
    }

    fn key_eq(&self, other: &Self) -> (r: bool) {
        *self == *other
    }

    fn key_clone(&self) -> (r: Self) {
        *self
    }
}

/// Whether no key occurs twice in a sequence of entries.
pub open spec fn keys_distinct<K: MapKey, V>(s: Seq<(K, V)>) -> bool {
    forall|i: int, j: int|
        0 <= i < s.len() && 0 <= j < s.len() && i != j ==> #[trigger] s[i].0.key_view()
            != #[trigger] s[j].0.key_view()
}

/// Whether some entry has the key `k`.
pub open spec fn has_key<K: MapKey, V>(s: Seq<(K, V)>, k: K::KeyView) -> bool {
    exists|i: int| 0 <= i < s.len() && #[trigger] s[i].0.key_view() == k
}

/// The position of the entry with key `k` (meaningful when there is one).
pub open spec fn key_pos<K: MapKey, V>(s: Seq<(K, V)>, k: K::KeyView) -> int {
    choose|i: int| 0 <= i < s.len() && #[trigger] s[i].0.key_view() == k
}

/// The map that a sequence of entries stands for.
pub open spec fn seq_map<K: MapKey, V>(s: Seq<(K, V)>) -> Map<K::KeyView, V> {
    Map::new(|k: K::KeyView| has_key(s, k), |k: K::KeyView| s[key_pos(s, k)].1)
}

/// With distinct keys, an entry's key leads back to that entry.
pub proof fn lemma_key_pos_unique<K: MapKey, V>(s: Seq<(K, V)>, i: int)
    requires
        keys_distinct(s),
        0 <= i < s.len(),
    ensures
        has_key(s, s[i].0.key_view()),
        key_pos(s, s[i].0.key_view()) == i,
{
    let k = s[i].0.key_view();
    assert(has_key(s, k));
    let p = key_pos(s, k);
    assert(s[p].0.key_view() == k);
}

/// Replacing the value of an entry updates the map at that entry's key.
pub proof fn lemma_update_value<K: MapKey, V>(s: Seq<(K, V)>, i: int, v: V)
    requires
        keys_distinct(s),
        0 <= i < s.len(),
    ensures
        keys_distinct(s.update(i, (s[i].0, v))),
        seq_map(s.update(i, (s[i].0, v))) == seq_map(s).insert(s[i].0.key_view(), v),
{
    let t = s.update(i, (s[i].0, v));
    assert forall|a: int, b: int|
        0 <= a < t.len() && 0 <= b < t.len() && a != b implies #[trigger] t[a].0.key_view()
        != #[trigger] t[b].0.key_view() by {
        assert(t[a].0 == s[a].0);
        assert(t[b].0 == s[b].0);
    }
    let key = s[i].0.key_view();
    assert forall|k: K::KeyView| has_key(t, k) <==> has_key(s, k) by {
        if has_key(s, k) {
            let p = key_pos(s, k);
            assert(t[p].0 == s[p].0);
        }
        if has_key(t, k) {
            let p = key_pos(t, k);
            assert(t[p].0 == s[p].0);
        }
    }
    lemma_key_pos_unique(t, i);
    assert forall|k: K::KeyView| has_key(s, k) && k != key implies key_pos(t, k) == key_pos(s, k) by {
        let p = key_pos(s, k);
        assert(t[p].0 == s[p].0);
        lemma_key_pos_unique(t, p);
    }
    assert(seq_map(t) =~= seq_map(s).insert(key, v));
}

/// Appending an entry with a new key inserts it into the map.
pub proof fn lemma_push<K: MapKey, V>(s: Seq<(K, V)>, key: K, v: V)
    requires
        keys_distinct(s),
        !has_key(s, key.key_view()),
    ensures
        keys_distinct(s.push((key, v))),
        seq_map(s.push((key, v))) == seq_map(s).insert(key.key_view(), v),
{
    let t = s.push((key, v));
    assert forall|a: int, b: int|
        0 <= a < t.len() && 0 <= b < t.len() && a != b implies #[trigger] t[a].0.key_view()
        != #[trigger] t[b].0.key_view() by {
        if a < s.len() && b < s.len() {
            assert(t[a] == s[a]);
            assert(t[b] == s[b]);
        } else if a == s.len() {
            assert(t[b] == s[b]);
        } else {
            assert(t[a] == s[a]);
        }
    }
    let n = s.len() as int;
    lemma_key_pos_unique(t, n);
    assert forall|k: K::KeyView| has_key(t, k) <==> (has_key(s, k) || k == key.key_view()) by {
        if has_key(s, k) {
            let p = key_pos(s, k);
            assert(t[p] == s[p]);
        }
        if has_key(t, k) && k != key.key_view() {
            let p = key_pos(t, k);
            assert(p != n);
            assert(t[p] == s[p]);
        }
    }
    assert forall|k: K::KeyView| has_key(s, k) implies key_pos(t, k) == key_pos(s, k) by {
        let p = key_pos(s, k);
        assert(t[p] == s[p]);
        lemma_key_pos_unique(t, p);
    }
    assert(seq_map(t) =~= seq_map(s).insert(key.key_view(), v));
}

/// Removing an entry removes its key from the map.
pub proof fn lemma_remove<K: MapKey, V>(s: Seq<(K, V)>, i: int)
    requires
        keys_distinct(s),
        0 <= i < s.len(),
    ensures
        keys_distinct(s.remove(i)),
        seq_map(s.remove(i)) == seq_map(s).remove(s[i].0.key_view()),
{
    let t = s.remove(i);
    let key = s[i].0.key_view();
    assert forall|a: int, b: int|
        0 <= a < t.len() && 0 <= b < t.len() && a != b implies #[trigger] t[a].0.key_view()
        != #[trigger] t[b].0.key_view() by {
        let oa = if a < i { a } else { a + 1 };
        let ob = if b < i { b } else { b + 1 };
        assert(t[a] == s[oa]);
        assert(t[b] == s[ob]);
    }
    assert forall|k: K::KeyView| has_key(t, k) <==> (has_key(s, k) && k != key) by {
        if has_key(s, k) && k != key {
            let p = key_pos(s, k);
            assert(p != i);
            let q = if p < i { p } else { p - 1 };
            assert(t[q] == s[p]);
        }
        if has_key(t, k) {
            let q = key_pos(t, k);
            let p = if q < i { q } else { q + 1 };
            assert(t[q] == s[p]);
            assert(p != i);
        }
    }
    assert forall|k: K::KeyView| has_key(s, k) && k != key implies t[key_pos(t, k)].1 == s[key_pos(s, k)].1 by {
        let p = key_pos(s, k);
        assert(p != i);
        let q = if p < i { p } else { p - 1 };
        assert(t[q] == s[p]);
        lemma_key_pos_unique(t, q);
    }
    assert(seq_map(t) =~= seq_map(s).remove(key));
}

/// A finite map held as a sequence of entries with distinct keys, kept in the
/// order in which the keys were first inserted.
pub struct AssocMap<K: MapKey, V> {
    entries: Vec<(K, V)>,
}

impl<K: MapKey, V> AssocMap<K, V> {
    #[verifier::type_invariant]
    pub closed spec fn inv(self) -> bool {
        keys_distinct(self.entries@)
    }

    /// The entries in insertion order.
    pub closed spec fn entries(self) -> Seq<(K, V)> {
        self.entries@
    }

    /// The map that the entries stand for.
    pub open spec fn view_map(self) -> Map<K::KeyView, V> {
        seq_map(self.entries())
    }

    /// What the invariant states: no key occurs twice.
    pub proof fn lemma_inv_distinct(m: Self)
        requires
            m.inv(),
        ensures
            keys_distinct(m.entries()),
    {
    }

    pub fn new() -> (r: Self)
        ensures
            r.entries() == Seq::<(K, V)>::empty(),
    {
        AssocMap { entries: Vec::new() }
    }

    pub fn len(&self) -> (r: usize)
        ensures
            r == self.entries().len(),
    {
        self.entries.len()
    }

    pub fn key_at(&self, i: usize) -> (r: &K)
        requires
            i < self.entries().len(),
        ensures
            *r == self.entries()[i as int].0,
    {
        &self.entries[i].0
    }

    pub fn value_at(&self, i: usize) -> (r: &V)
        requires
            i < self.entries().len(),
        ensures
            *r == self.entries()[i as int].1,
    {
        &self.entries[i].1
    }

    /// The position of the entry with key `key`, if there is one.
    pub fn find(&self, key: &K) -> (r: Option<usize>)
        ensures
            r matches Some(i) ==> i < self.entries().len() && self.entries()[i as int].0.key_view()
                == key.key_view() && key_pos(self.entries(), key.key_view()) == i,
            r is None ==> !has_key(self.entries(), key.key_view()),
            r is Some <==> has_key(self.entries(), key.key_view()),
    {
        proof {
            use_type_invariant(self);
        }
        let mut i: usize = 0;
        while i < self.entries.len()
            invariant
                i <= self.entries@.len(),
                keys_distinct(self.entries@),
                forall|j: int| 0 <= j < i ==> self.entries@[j].0.key_view() != key.key_view(),
            decreases self.entries@.len() - i,
        {
            if self.entries[i].0.key_eq(key) {
                proof {
                    let ghost p = key_pos(self.entries@, key.key_view());
                    assert(self.entries@[i as int].0.key_view() == key.key_view());
                    assert(has_key(self.entries@, key.key_view()));
                    assert(self.entries@[p].0.key_view() == key.key_view());
                    assert(p == i);
                }
                return Some(i);
            }
            i = i + 1;
        }
        None
    }

    pub fn contains_key(&self, key: &K) -> (r: bool)
        ensures
            r == has_key(self.entries(), key.key_view()),
    {
        self.find(key).is_some()
    }

    /// The value stored under `key`, if any.
    pub fn get(&self, key: &K) -> (r: Option<&V>)
        ensures
            r matches Some(v) ==> has_key(self.entries(), key.key_view()) && *v == self.entries()[key_pos(
                self.entries(),
                key.key_view(),
            )].1,
            r is None ==> !has_key(self.entries(), key.key_view()),
    {
        match self.find(key) {
            Some(i) => Some(&self.entries[i].1),
            None => None,
        }
    }

    /// Replaces the value of the entry at position `i`.
    pub fn set_value_at(&mut self, i: usize, v: V)
        requires
            i < old(self).entries().len(),
        ensures
            final(self).entries() == old(self).entries().update(
                i as int,
                (old(self).entries()[i as int].0, v),
            ),
            final(self).view_map() == old(self).view_map().insert(
                old(self).entries()[i as int].0.key_view(),
                v,
            ),
    {
        proof {
            use_type_invariant(&*self);
        }
        let ghost old_entries = self.entries@;
        let mut entries = Vec::new();
        std::mem::swap(&mut entries, &mut self.entries);
        let (k, _) = entries.remove(i);
        entries.insert(i, (k, v));
        assert(entries@ =~= old_entries.update(i as int, (old_entries[i as int].0, v)));
        proof {
            lemma_update_value(old_entries, i as int, v);
        }
        self.entries = entries;
    }

    /// Stores `v` under `key`: in place when the key is present, else appended.
    pub fn insert(&mut self, key: K, v: V)
        ensures
            has_key(old(self).entries(), key.key_view()) ==> final(self).entries() == old(
                self,
            ).entries().update(
                key_pos(old(self).entries(), key.key_view()),
                (old(self).entries()[key_pos(old(self).entries(), key.key_view())].0, v),
            ),
            !has_key(old(self).entries(), key.key_view()) ==> final(self).entries() == old(
                self,
            ).entries().push((key, v)),
            final(self).view_map() == old(self).view_map().insert(key.key_view(), v),
    {
        proof {
            use_type_invariant(&*self);
        }
        match self.find(&key) {
            Some(i) => {
                self.set_value_at(i, v);
            },
            None => {
                proof {
                    use_type_invariant(&*self);
                }
                let ghost old_entries = self.entries@;
                let mut entries = Vec::new();
                std::mem::swap(&mut entries, &mut self.entries);
                let ghost kv = key.key_view();
                entries.push((key, v));
                proof {
                    lemma_push(old_entries, entries@.last().0, v);
                }
                self.entries = entries;
            },
        }
    }

    /// The entries in insertion order.
    pub fn into_entries(self) -> (r: Vec<(K, V)>)
        ensures
            r@ == self.entries(),
            keys_distinct(r@),
    {
        proof {
            use_type_invariant(&self);
        }
        self.entries
    }

    /// Removes the entry with key `key` and hands back its value, if there is one.
    pub fn take(&mut self, key: &K) -> (r: Option<V>)
        ensures
            r matches Some(v) ==> old(self).view_map().dom().contains(key.key_view()) && v == old(
                self,
            ).view_map()[key.key_view()],
            r is None ==> !old(self).view_map().dom().contains(key.key_view()),
            final(self).view_map() == old(self).view_map().remove(key.key_view()),
    {
        proof {
            use_type_invariant(&*self);
        }
        match self.find(key) {
            Some(i) => {
                let ghost old_entries = self.entries@;
                let mut entries = Vec::new();
                std::mem::swap(&mut entries, &mut self.entries);
                let (_, v) = entries.remove(i);
                proof {
                    lemma_remove(old_entries, i as int);
                }
                self.entries = entries;
                Some(v)
            },
            None => {
                assert(old(self).view_map() =~= old(self).view_map().remove(key.key_view()));
                None
            },
        }
    }

    /// Removes the entry with key `key`, if there is one, keeping the others in order.
    pub fn remove(&mut self, key: &K)
        ensures
            has_key(old(self).entries(), key.key_view()) ==> final(self).entries() == old(
                self,
            ).entries().remove(key_pos(old(self).entries(), key.key_view())),
            !has_key(old(self).entries(), key.key_view()) ==> final(self).entries() == old(
                self,
            ).entries(),
            final(self).view_map() == old(self).view_map().remove(key.key_view()),
    {
        proof {
            use_type_invariant(&*self);
        }
        match self.find(key) {
            Some(i) => {
                proof {
                    use_type_invariant(&*self);
                }
                let ghost old_entries = self.entries@;
                let mut entries = Vec::new();
                std::mem::swap(&mut entries, &mut self.entries);
                entries.remove(i);
                proof {
                    lemma_remove(old_entries, i as int);
                }
                self.entries = entries;
            },
            None => {
                assert(old(self).view_map() =~= old(self).view_map().remove(key.key_view()));
            },
        }
    }
}

impl<K: MapKey, V: Copy> AssocMap<K, V> {
    /// A copy of the map, with its entries in the same order.
    pub fn copy_map(&self) -> (r: Self)
        ensures
            r.entries().len() == self.entries().len(),
            forall|i: int| 0 <= i < self.entries().len() ==> (#[trigger] r.entries()[i]).0.key_view()
                == self.entries()[i].0.key_view() && r.entries()[i].1 == self.entries()[i].1,
            r.view_map() == self.view_map(),
    {
        proof {
            use_type_invariant(self);
        }
        let mut entries: Vec<(K, V)> = Vec::new();
        let mut i: usize = 0;
        while i < self.entries.len()
            invariant
                i <= self.entries@.len(),
                keys_distinct(self.entries@),
                entries@.len() == i,
                forall|j: int| 0 <= j < i ==> (#[trigger] entries@[j]).0.key_view() == self.entries@[j].0.key_view()
                    && entries@[j].1 == self.entries@[j].1,
            decreases self.entries@.len() - i,
        {
            let k = self.entries[i].0.key_clone();
            let v = self.entries[i].1;
            entries.push((k, v));
            i = i + 1;
        }
        let ghost s = self.entries@;
        let ghost t = entries@;
        assert(keys_distinct(t)) by {
            assert forall|a: int, b: int| 0 <= a < t.len() && 0 <= b < t.len() && a != b implies #[trigger] t[a].0.key_view()
                != #[trigger] t[b].0.key_view() by {
                assert(s[a].0.key_view() != s[b].0.key_view());
            }
        }
        assert forall|k: K::KeyView| has_key(t, k) == has_key(s, k) by {
            if has_key(t, k) {
                let a = choose|a: int| 0 <= a < t.len() && #[trigger] t[a].0.key_view() == k;
                assert(s[a].0.key_view() == k);
            }
            if has_key(s, k) {
                let a = choose|a: int| 0 <= a < s.len() && #[trigger] s[a].0.key_view() == k;
                assert(t[a].0.key_view() == k);
            }
        }
        assert forall|k: K::KeyView| has_key(s, k) implies t[key_pos(t, k)].1 == s[key_pos(s, k)].1 by {
            let a = key_pos(s, k);
            assert(s[a].0.key_view() == k);
            lemma_key_pos_unique(s, a);
            assert(t[a].0.key_view() == k);
            lemma_key_pos_unique(t, a);
        }
        let r = AssocMap { entries };
        assert(r.view_map() =~= self.view_map());
        r
    }
}

impl<K: MapKey + Copy, V: Copy> AssocMap<K, V> {
    /// The entries in insertion order, copied.
    pub fn to_vec(&self) -> (r: Vec<(K, V)>)
        ensures
            r@ == self.entries(),
    {
        let mut r: Vec<(K, V)> = Vec::new();
        let mut i: usize = 0;
        while i < self.entries.len()
            invariant
                i <= self.entries@.len(),
                r@ == self.entries@.subrange(0, i as int),
            decreases self.entries@.len() - i,
        {
            let e = self.entries[i];
            r.push(e);
            i = i + 1;
            assert(r@ =~= self.entries@.subrange(0, i as int));
        }
        assert(r@ =~= self.entries@);
        r
    }
}

} // verus!

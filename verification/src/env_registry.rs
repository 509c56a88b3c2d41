use vstd::prelude::*;
use crate::map::{AssocMap, MapKey};

verus! {

/// A store of named text settings for front ends.
pub struct EnvRegistry {
    pub variables: AssocMap<String, String>,
}

/// The settings after setting each pair of a list in turn.
pub open spec fn set_all(m: Map<Seq<char>, Seq<char>>, variables: Seq<(String, String)>) -> Map<Seq<char>, Seq<char>>
    decreases variables.len(),
{
    if variables.len() == 0 {
        m
    } else {
        set_all(m, variables.drop_last()).insert(variables.last().0@, variables.last().1@)
    }
}

/// The settings after removing each key of a list in turn.
pub open spec fn remove_all(m: Map<Seq<char>, Seq<char>>, keys: Seq<String>) -> Map<Seq<char>, Seq<char>>
    decreases keys.len(),
{
    if keys.len() == 0 {
        m
    } else {
        remove_all(m, keys.drop_last()).remove(keys.last()@)
    }
}

impl EnvRegistry {
    /// The settings, by name, as text.
    pub open spec fn vars(self) -> Map<Seq<char>, Seq<char>> {
        self.variables.view_map().map_values(|v: String| v@)
    }

    /// A registry with no settings.
    pub fn new() -> (r: EnvRegistry)
        ensures
            r.vars() == Map::<Seq<char>, Seq<char>>::empty(),
    {
        let r = EnvRegistry { variables: AssocMap::new() };
        assert(r.vars() =~= Map::<Seq<char>, Seq<char>>::empty());
        r
    }

    /// The value of each named setting (empty text for one that is not set).
    pub fn get_variables(&self, keys: &Vec<String>) -> (r: AssocMap<String, String>)
        ensures
            forall|k: Seq<char>| #[trigger] r.view_map().dom().contains(k) <==> exists|i: int|
                0 <= i < keys@.len() && keys@[i]@ == k,
            forall|k: Seq<char>|
                #[trigger] r.view_map().dom().contains(k) ==> r.view_map()[k]@ == (if self.vars().dom().contains(k) {
                    self.vars()[k]
                } else {
                    Seq::<char>::empty()
                }),
    {
        let mut r: AssocMap<String, String> = AssocMap::new();
        let mut i: usize = 0;
        while i < keys.len()
            invariant
                i <= keys@.len(),
                forall|k: Seq<char>| #[trigger] r.view_map().dom().contains(k) <==> exists|t: int|
                    0 <= t < i && keys@[t]@ == k,
                forall|k: Seq<char>|
                    #[trigger] r.view_map().dom().contains(k) ==> r.view_map()[k]@ == (if self.vars().dom().contains(k) {
                        self.vars()[k]
                    } else {
                        Seq::<char>::empty()
                    }),
            decreases keys@.len() - i,
        {
            let key = &keys[i];
            let value = match self.variables.get(key) {
                Some(v) => v.clone(),
                None => String::new(),
            };
            r.insert(key.clone(), value);
            proof {
                assert forall|k: Seq<char>| #[trigger] r.view_map().dom().contains(k) <==> exists|t: int|
                    0 <= t < i + 1 && keys@[t]@ == k by {
                    if k == key@ {
                        assert(keys@[i as int]@ == k);
                    }
                }
            }
            i = i + 1;
        }
        r
    }

    /// Sets each named setting in turn.
    pub fn set_variables(&mut self, variables: Vec<(String, String)>)
        ensures
            final(self).vars() == set_all(old(self).vars(), variables@),
    {
        let mut i: usize = 0;
        while i < variables.len()
            invariant
                i <= variables@.len(),
                self.vars() == set_all(old(self).vars(), variables@.subrange(0, i as int)),
            decreases variables@.len() - i,
        {
            let (key, value) = &variables[i];
            self.variables.insert(key.clone(), value.clone());
            proof {
                assert(variables@.subrange(0, i as int + 1).drop_last() =~= variables@.subrange(0, i as int));
                assert(self.vars() =~= set_all(old(self).vars(), variables@.subrange(0, i as int + 1)));
            }
            i = i + 1;
        }
        assert(variables@.subrange(0, variables@.len() as int) =~= variables@);
    }

    /// Removes each named setting in turn.
    pub fn remove_variables(&mut self, keys: Vec<String>)
        ensures
            final(self).vars() == remove_all(old(self).vars(), keys@),
    {
        let mut i: usize = 0;
        while i < keys.len()
            invariant
                i <= keys@.len(),
                self.vars() == remove_all(old(self).vars(), keys@.subrange(0, i as int)),
            decreases keys@.len() - i,
        {
            self.variables.remove(&keys[i]);
            proof {
                assert(keys@.subrange(0, i as int + 1).drop_last() =~= keys@.subrange(0, i as int));
                assert(self.vars() =~= remove_all(old(self).vars(), keys@.subrange(0, i as int + 1)));
            }
            i = i + 1;
        }
        assert(keys@.subrange(0, keys@.len() as int) =~= keys@);
    }
}

/// What a later read gives back: after setting a name last, the registry holds
/// that value for it; after removing a name last, the registry holds nothing
/// for it; names not among those set keep their values.
pub proof fn law_env_read_after_write(
    m: Map<Seq<char>, Seq<char>>,
    variables: Seq<(String, String)>,
    key: String,
    value: String,
    removed: Seq<String>,
    q: Seq<char>,
)
    ensures
        set_all(m, variables.push((key, value))).dom().contains(key@),
        set_all(m, variables.push((key, value)))[key@] == value@,
        !remove_all(m, removed.push(key)).dom().contains(key@),
        (forall|i: int| 0 <= i < variables.len() ==> (#[trigger] variables[i]).0@ != q) ==> set_all(m, variables).dom().contains(q)
            == m.dom().contains(q) && (m.dom().contains(q) ==> set_all(m, variables)[q] == m[q]),
    decreases variables.len(),
{
    assert(variables.push((key, value)).drop_last() =~= variables);
    assert(removed.push(key).drop_last() =~= removed);
    if variables.len() > 0 && (forall|i: int| 0 <= i < variables.len() ==> (#[trigger] variables[i]).0@ != q) {
        let prev = variables.drop_last();
        assert forall|i: int| 0 <= i < prev.len() implies (#[trigger] prev[i]).0@ != q by {
            assert(prev[i] == variables[i]);
        }
        assert(variables.last() == variables[variables.len() - 1]);
        law_env_read_after_write(m, prev, variables.last().0, variables.last().1, removed, q);
        assert(prev.push(variables.last()) =~= variables);
    }
}

} // verus!

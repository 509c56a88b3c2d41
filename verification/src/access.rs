use vstd::prelude::*;

verus! {

/// The requirement of a protected access rule, as far as the exchange reads
/// it: any one of several requirements, or a single requirement of another
/// kind.
pub enum Requirement<N> {
    AnyOf(Vec<N>),
    Single(N),
}

/// An access rule: everyone may, no one may, or those who meet a requirement.
pub enum Rule<N> {
    AllowAll,
    DenyAll,
    Protected(Requirement<N>),
}

/// Whether `b` is a copy of the rule `a`: the same kind, with each requirement
/// a clone of the one it copies.
pub open spec fn rule_cloned<N: Clone>(a: Rule<N>, b: Rule<N>) -> bool {
    match a {
        Rule::AllowAll => b is AllowAll,
        Rule::DenyAll => b is DenyAll,
        Rule::Protected(Requirement::Single(n)) => b matches Rule::Protected(Requirement::Single(m)) && cloned(n, m),
        Rule::Protected(Requirement::AnyOf(v)) => b matches Rule::Protected(Requirement::AnyOf(w)) && w@.len() == v@.len()
            && forall|i: int| 0 <= i < v@.len() ==> cloned(v@[i], #[trigger] w@[i]),
    }
}

/// Whether `b` is the rule of the single requirement `a`, cloned.
pub open spec fn single_cloned<N: Clone>(a: N, b: Rule<N>) -> bool {
    b matches Rule::Protected(Requirement::Single(n)) && cloned(a, n)
}

/// An account's rule with another requirement added: the requirement alone when
/// the rule allowed or denied everyone; else either the rule's requirement or
/// the new one, the new one joining the list when the rule already accepts any
/// of several.
pub fn add_requirement<N>(rule: Rule<N>, additional: N) -> (r: Rule<N>)
    ensures
        match rule {
            Rule::AllowAll => r == Rule::Protected(Requirement::Single(additional)),
            Rule::DenyAll => r == Rule::Protected(Requirement::Single(additional)),
            Rule::Protected(Requirement::AnyOf(v)) => r matches Rule::Protected(Requirement::AnyOf(w)) && w@ == v@.push(additional),
            Rule::Protected(Requirement::Single(n)) => r matches Rule::Protected(Requirement::AnyOf(w)) && w@ == seq![n, additional],
        },
{
    match rule {
        Rule::AllowAll => Rule::Protected(Requirement::Single(additional)),
        Rule::DenyAll => Rule::Protected(Requirement::Single(additional)),
        Rule::Protected(Requirement::AnyOf(v)) => {
            let mut w = v;
            w.push(additional);
            Rule::Protected(Requirement::AnyOf(w))
        },
        Rule::Protected(Requirement::Single(n)) => {
            let mut w: Vec<N> = Vec::new();
            w.push(n);
            w.push(additional);
            assert(w@ =~= seq![n, additional]);
            Rule::Protected(Requirement::AnyOf(w))
        },
    }
}

/// Clones of each requirement of a list, in order.
fn clone_all<N: Clone>(v: &Vec<N>) -> (r: Vec<N>)
    ensures
        r@.len() == v@.len(),
        forall|i: int| 0 <= i < v@.len() ==> cloned(v@[i], #[trigger] r@[i]),
{
    let mut r: Vec<N> = Vec::new();
    let mut i: usize = 0;
    while i < v.len()
        invariant
            i <= v@.len(),
            r@.len() == i,
            forall|j: int| 0 <= j < i ==> cloned(v@[j], #[trigger] r@[j]),
        decreases v@.len() - i,
    {
        r.push(v[i].clone());
        i = i + 1;
    }
    r
}

/// The rules under which the permission registry lists an account for a rule:
/// the rule itself and, when it accepts any of several requirements, each of
/// them on its own.
pub fn registry_rules<N: Clone>(rule: &Rule<N>) -> (r: Vec<Rule<N>>)
    ensures
        r@.len() == 1 + match *rule {
            Rule::Protected(Requirement::AnyOf(v)) => v@.len(),
            _ => 0,
        },
        rule_cloned(*rule, r@[0]),
        rule matches Rule::Protected(Requirement::AnyOf(v)) ==> forall|i: int| 0 <= i < v@.len()
            ==> single_cloned(v@[i], #[trigger] r@[i + 1]),
{
    let mut r: Vec<Rule<N>> = Vec::new();
    match rule {
        Rule::AllowAll => r.push(Rule::AllowAll),
        Rule::DenyAll => r.push(Rule::DenyAll),
        Rule::Protected(Requirement::Single(n)) => r.push(Rule::Protected(Requirement::Single(n.clone()))),
        Rule::Protected(Requirement::AnyOf(v)) => {
            r.push(Rule::Protected(Requirement::AnyOf(clone_all(v))));
            let mut i: usize = 0;
            while i < v.len()
                invariant
                    i <= v@.len(),
                    r@.len() == 1 + i,
                    rule_cloned(*rule, r@[0]),
                    forall|j: int| 0 <= j < i ==> single_cloned(v@[j], #[trigger] r@[j + 1]),
                decreases v@.len() - i,
            {
                r.push(Rule::Protected(Requirement::Single(v[i].clone())));
                i = i + 1;
            }
        },
    }
    r
}

} // verus!

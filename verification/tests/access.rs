use surge::access::{add_requirement, registry_rules, Requirement, Rule};

fn any_of(v: Vec<&str>) -> Rule<String> {
    Rule::Protected(Requirement::AnyOf(v.into_iter().map(|s| s.to_string()).collect()))
}

fn listed(rule: &Rule<String>) -> Vec<String> {
    match rule {
        Rule::AllowAll => vec!["all".to_string()],
        Rule::DenyAll => vec!["none".to_string()],
        Rule::Protected(Requirement::Single(n)) => vec![n.clone()],
        Rule::Protected(Requirement::AnyOf(v)) => v.clone(),
    }
}

#[test]
fn adding_a_requirement_to_an_open_or_closed_rule_gives_it_alone() {
    let r = add_requirement(Rule::AllowAll, "key".to_string());
    assert!(matches!(r, Rule::Protected(Requirement::Single(ref n)) if n == "key"));
    let r = add_requirement(Rule::DenyAll, "key".to_string());
    assert!(matches!(r, Rule::Protected(Requirement::Single(ref n)) if n == "key"));
}

#[test]
fn adding_a_requirement_to_a_protected_rule_accepts_either() {
    let r = add_requirement(Rule::Protected(Requirement::Single("owner".to_string())), "key".to_string());
    assert!(matches!(r, Rule::Protected(Requirement::AnyOf(_))));
    assert_eq!(listed(&r), vec!["owner".to_string(), "key".to_string()]);
    let r = add_requirement(any_of(vec!["a", "b"]), "key".to_string());
    assert_eq!(listed(&r), vec!["a".to_string(), "b".to_string(), "key".to_string()]);
}

#[test]
fn the_registry_lists_the_rule_and_each_alternative() {
    let r = registry_rules(&any_of(vec!["a", "b"]));
    assert_eq!(r.len(), 3);
    assert_eq!(listed(&r[0]), vec!["a".to_string(), "b".to_string()]);
    assert!(matches!(r[1], Rule::Protected(Requirement::Single(ref n)) if n == "a"));
    assert!(matches!(r[2], Rule::Protected(Requirement::Single(ref n)) if n == "b"));
    let r = registry_rules(&Rule::Protected(Requirement::Single("owner".to_string())));
    assert_eq!(r.len(), 1);
    assert_eq!(listed(&r[0]), vec!["owner".to_string()]);
    assert_eq!(registry_rules::<String>(&Rule::DenyAll).len(), 1);
}

use surge::env_registry::EnvRegistry;

fn s(x: &str) -> String {
    x.to_string()
}

#[test]
fn set_variables_read_back() {
    let mut env = EnvRegistry::new();
    env.set_variables(vec![(s("network"), s("stokenet")), (s("theme"), s("dark")), (s("network"), s("mainnet"))]);
    let got = env.get_variables(&vec![s("network"), s("theme"), s("missing")]);
    assert_eq!(got.get(&s("network")).unwrap(), "mainnet");
    assert_eq!(got.get(&s("theme")).unwrap(), "dark");
    assert_eq!(got.get(&s("missing")).unwrap(), "");
    assert_eq!(got.len(), 3);
}

#[test]
fn removed_variables_read_back_empty() {
    let mut env = EnvRegistry::new();
    env.set_variables(vec![(s("a"), s("1")), (s("b"), s("2"))]);
    env.remove_variables(vec![s("a"), s("zzz")]);
    let got = env.get_variables(&vec![s("a"), s("b")]);
    assert_eq!(got.get(&s("a")).unwrap(), "");
    assert_eq!(got.get(&s("b")).unwrap(), "2");
}

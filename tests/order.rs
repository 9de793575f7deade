use control::order::{order, stop_order, Declared};

fn s(x: &str) -> String {
    x.to_string()
}

fn declared(name: &str, deps: &[&str]) -> Declared {
    (s(name), Some(deps.iter().map(|d| s(d)).collect()))
}

#[test]
fn order_by_dependency() {
    let input = vec![declared("A", &["B"]), declared("B", &["C"]), declared("C", &[])];
    assert_eq!(order(&input), vec![s("C"), s("B"), s("A")]);
    assert_eq!(stop_order(&input), vec![s("A"), s("B"), s("C")]);
}

#[test]
fn order_ignores_missing_dependency() {
    let input = vec![declared("A", &["Z"]), declared("B", &[])];
    let out = order(&input);
    assert_eq!(out.len(), 2);
    assert!(out == vec![s("A"), s("B")] || out == vec![s("B"), s("A")]);
}

#[test]
fn order_drops_unparsed_services() {
    let input = vec![declared("A", &["B"]), (s("B"), None), declared("C", &["A"])];
    assert_eq!(order(&input), vec![s("A"), s("C")]);
}

#[test]
fn order_terminates_on_cycle() {
    let input = vec![declared("A", &["B"]), declared("B", &["A"]), declared("C", &[])];
    let out = order(&input);
    assert_eq!(out.len(), 3);
    assert_eq!(out[0], s("C"));
    assert!(out.contains(&s("A")) && out.contains(&s("B")));
}

#[test]
fn order_self_dependency_is_a_cycle() {
    let input = vec![declared("A", &["A"])];
    assert_eq!(order(&input), vec![s("A")]);
}

#[test]
fn order_empty() {
    let input: Vec<Declared> = vec![];
    assert!(order(&input).is_empty());
    assert!(stop_order(&input).is_empty());
}

#[test]
fn order_diamond() {
    let input = vec![
        declared("web", &["db", "cache"]),
        declared("cache", &["net"]),
        declared("db", &["net"]),
        declared("net", &[]),
    ];
    let out = order(&input);
    let at = |x: &str| out.iter().position(|y| y == x).unwrap();
    assert_eq!(out.len(), 4);
    assert!(at("net") < at("db") && at("net") < at("cache"));
    assert!(at("db") < at("web") && at("cache") < at("web"));
    let stop = stop_order(&input);
    let mut back = stop.clone();
    back.reverse();
    assert_eq!(back, out);
}

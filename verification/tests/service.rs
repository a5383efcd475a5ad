use nagisa_core::service::{toposort, ServiceGraphError, ServiceNode};

fn node(id: &str, deps: &[&str]) -> ServiceNode {
    ServiceNode { id: id.to_string(), deps: deps.iter().map(|d| d.to_string()).collect() }
}

#[test]
fn toposort_orders_dependencies_first() {
    let s = vec![node("dispatch", &["adapter"]), node("adapter", &[]), node("log", &[])];
    let order = match toposort(&s) {
        Ok(o) => o,
        Err(_) => panic!("expected an order"),
    };
    assert_eq!(order, vec![1, 2, 0]);
}

#[test]
fn toposort_fifo_order_is_deterministic() {
    let s = vec![node("a", &[]), node("b", &["a"]), node("c", &["a"]), node("d", &["b", "c"])];
    match toposort(&s) {
        Ok(o) => assert_eq!(o, vec![0, 1, 2, 3]),
        Err(_) => panic!("expected an order"),
    }
}

#[test]
fn toposort_duplicate_id() {
    let s = vec![node("a", &[]), node("b", &[]), node("a", &[])];
    match toposort(&s) {
        Err(ServiceGraphError::DuplicateId(id)) => assert_eq!(id, "a"),
        _ => panic!("expected a duplicate id"),
    }
}

#[test]
fn toposort_unknown_dependency() {
    let s = vec![node("a", &[]), node("b", &["a", "zzz"])];
    match toposort(&s) {
        Err(ServiceGraphError::UnknownDependency { service, dep }) => {
            assert_eq!(service, "b");
            assert_eq!(dep, "zzz");
        }
        _ => panic!("expected an unknown dependency"),
    }
}

#[test]
fn toposort_cycle_lists_unorderable_services() {
    let s = vec![node("a", &[]), node("b", &["c"]), node("c", &["b"]), node("d", &["b"])];
    match toposort(&s) {
        Err(ServiceGraphError::Cycle(ids)) => assert_eq!(ids, vec!["b".to_string(), "c".to_string(), "d".to_string()]),
        _ => panic!("expected a cycle"),
    }
}

#[test]
fn toposort_empty_and_self_loop() {
    match toposort(&Vec::new()) {
        Ok(o) => assert!(o.is_empty()),
        Err(_) => panic!("empty graph orders"),
    }
    match toposort(&vec![node("x", &["x"])]) {
        Err(ServiceGraphError::Cycle(ids)) => assert_eq!(ids, vec!["x".to_string()]),
        _ => panic!("a self loop is a cycle"),
    }
}

#[test]
fn toposort_releases_in_fifo_order() {
    // e and c wait on late services; b is released by a before d is released by e.
    let s = vec![
        node("c", &["e"]),
        node("a", &[]),
        node("d", &["e"]),
        node("b", &["a"]),
        node("e", &["a"]),
        node("f", &[]),
    ];
    match toposort(&s) {
        Ok(o) => assert_eq!(o, vec![1, 5, 3, 4, 0, 2]),
        Err(_) => panic!("expected an order"),
    }
}

#[test]
fn graph_error_messages() {
    assert_eq!(ServiceGraphError::DuplicateId("a".to_string()).message(), "duplicate service id `a`");
    let e = ServiceGraphError::UnknownDependency { service: "b".to_string(), dep: "zzz".to_string() };
    assert_eq!(e.message(), "service `b` depends on unknown service `zzz`");
    let c = ServiceGraphError::Cycle(vec!["b".to_string(), "c\"x".to_string()]);
    assert_eq!(c.message(), "dependency cycle among services: [\"b\", \"c\\\"x\"]");
    assert_eq!(ServiceGraphError::Cycle(Vec::new()).message(), "dependency cycle among services: []");
}

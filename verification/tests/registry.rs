use fallow_cli::registry::{drain_budget_ms, process_group_target, KillRegistry, KillTarget};

#[test]
fn register_deregister_roundtrip() {
    let mut reg = KillRegistry::new();
    let id = reg.register(42);
    assert!(id > 0);
    reg.deregister(id);
    reg.deregister(id);
}

#[test]
fn register_process_tree_roundtrip() {
    let mut reg = KillRegistry::new();
    let id = reg.register_process_tree(42);
    assert!(id > 0);
    assert!(matches!(reg.get(id), Some(KillTarget::ProcessTree(42))));
    reg.deregister(id);
    assert_eq!(reg.get(id), None);
}

#[test]
fn ids_are_monotonic() {
    let mut reg = KillRegistry::new();
    let a = reg.register(100);
    let b = reg.register(200);
    assert!(b > a);
    reg.deregister(a);
    reg.deregister(b);
}

#[test]
fn only_the_first_drain_returns_the_targets() {
    let mut reg = KillRegistry::new();
    let a = reg.register(1);
    let _b = reg.register_process_tree(2);
    reg.deregister(a);
    let drained = reg.drain().expect("first drain");
    assert_eq!(drained, vec![KillTarget::ProcessTree(2)]);
    assert_eq!(reg.drain(), None);
}

#[test]
fn process_groups_and_budgets() {
    assert_eq!(process_group_target(42), Some(-42));
    assert_eq!(process_group_target(u32::MAX), None);
    assert_eq!(process_group_target(i32::MAX as u32), Some(-i32::MAX));
    assert_eq!(drain_budget_ms(false), 500);
    assert_eq!(drain_budget_ms(true), 1500);
}

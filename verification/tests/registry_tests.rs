use callbacks::footprint::Footprint;
use callbacks::registry::{RegisterError, Registry};
use callbacks::system::{PrimOp, PureFn, Task};

fn pure_task(f: PureFn) -> Task {
    Task::Primitive { footprint: Footprint { reads: vec![], writes: vec![] }, op: PrimOp::Compute(f) }
}

#[test]
fn register_once_succeeds() {
    let mut reg = Registry::new();
    let r = reg.register(1, pure_task(PureFn::Identity));
    assert_eq!(r, Ok(()));
}

#[test]
fn duplicate_registration_fails() {
    let mut reg = Registry::new();
    assert_eq!(reg.register(1, pure_task(PureFn::Identity)), Ok(()));
    let second = reg.register(1, pure_task(PureFn::Const(9)));
    assert_eq!(second, Err(RegisterError::Duplicate { kind: 1 }));
}

#[test]
fn same_kind_in_independent_registries_succeeds() {
    let mut reg_a = Registry::new();
    let mut reg_b = Registry::new();
    assert_eq!(reg_a.register(1, pure_task(PureFn::Identity)), Ok(()));
    assert_eq!(reg_b.register(1, pure_task(PureFn::Identity)), Ok(()));
}

#[test]
fn different_kinds_coexist() {
    let mut reg = Registry::new();
    assert_eq!(reg.register(1, pure_task(PureFn::Identity)), Ok(()));
    assert_eq!(reg.register(2, pure_task(PureFn::Const(3))), Ok(()));
    assert!(reg.is_registered(1));
    assert!(reg.is_registered(2));
    assert!(!reg.is_registered(3));
    // Each entry stands behind its own resource identity.
    let e1 = reg.lookup(1).unwrap().entry_res;
    let e2 = reg.lookup(2).unwrap().entry_res;
    assert_ne!(e1, e2);
}

#[test]
fn lookup_finds_registered_entry() {
    let mut reg = Registry::new();
    assert_eq!(reg.register(5, pure_task(PureFn::Identity)), Ok(()));
    let entry = reg.lookup(5).expect("entry must be present");
    assert_eq!(entry.kind, 5);
    assert!(reg.lookup(6).is_none());
}

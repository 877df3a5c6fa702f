use std::sync::mpsc::channel;

use gmod_wstool::steam::callbacks::{
    flush_pending, next_id, queue_remove, remove_ids, CallbackRegistry,
};

#[test]
fn ids_count_up_from_one() {
    let mut reg: CallbackRegistry<&str> = CallbackRegistry::new();
    assert_eq!(next_id(&mut reg), 1);
    assert_eq!(next_id(&mut reg), 2);
    assert_eq!(next_id(&mut reg), 3);
}

#[test]
fn remove_ids_counts_registered_once() {
    let mut reg: CallbackRegistry<&str> = CallbackRegistry::new();
    for name in ["a", "b", "c"] {
        let id = next_id(&mut reg);
        reg.store(id, name);
    }
    assert_eq!(remove_ids(&mut reg, &vec![2, 2, 9, 3]), 2);
    assert!(reg.is_registered(1));
    assert!(!reg.is_registered(2));
    assert!(!reg.is_registered(3));
    assert_eq!(remove_ids(&mut reg, &vec![]), 0);
}

#[test]
fn flush_removes_queued_callbacks() {
    let (tx, rx) = channel();
    let mut reg: CallbackRegistry<u8> = CallbackRegistry::new();
    let a = next_id(&mut reg);
    reg.store(a, 10);
    let b = next_id(&mut reg);
    reg.store(b, 20);
    queue_remove(&tx, b);
    queue_remove(&tx, 77);
    assert_eq!(flush_pending(&mut reg, &rx), 1);
    assert!(reg.is_registered(a));
    assert!(!reg.is_registered(b));
    assert_eq!(flush_pending(&mut reg, &rx), 0);
}

use gmod_wstool::steam::callbacks::OnceGate;

#[test]
fn once_gate_lets_one_call_through() {
    let mut gate = OnceGate::new();
    assert!(gate.fire());
    assert!(!gate.fire());
    assert!(!gate.fire());
}

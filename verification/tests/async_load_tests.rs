use gmod_wstool::async_load::{AsyncLoad, LoadStep};

#[test]
fn first_update_spawns_with_params() {
    let mut load: AsyncLoad<u32> = AsyncLoad::new();
    assert!(!load.is_pending());
    match load.update(7u8, None) {
        LoadStep::Spawn(p) => assert_eq!(p, 7),
        _ => panic!("expected a spawn"),
    }
    assert!(load.is_pending());
}

#[test]
fn waits_while_pending_then_keeps_result() {
    let mut load: AsyncLoad<String> = AsyncLoad::new();
    assert!(matches!(load.update((), None), LoadStep::Spawn(())));
    assert!(matches!(load.update((), None), LoadStep::Wait));
    match load.update((), Some("done".to_string())) {
        LoadStep::Ready(v) => assert_eq!(*v, "done"),
        _ => panic!("expected the result"),
    }
    assert!(!load.is_pending());
    // the result stays; no new job is asked for
    match load.update((), None) {
        LoadStep::Ready(v) => assert_eq!(*v, "done"),
        _ => panic!("expected the kept result"),
    }
    match load.update((), Some("late".to_string())) {
        LoadStep::Ready(v) => assert_eq!(*v, "done"),
        _ => panic!("expected the kept result"),
    }
}

#[test]
fn reset_drops_result_and_restarts() {
    let mut load: AsyncLoad<i32> = AsyncLoad::new();
    assert!(matches!(load.update((), None), LoadStep::Spawn(())));
    assert!(matches!(load.update((), Some(1)), LoadStep::Ready(_)));
    load.reset();
    assert!(load.is_pending());
    assert!(matches!(load.update((), None), LoadStep::Wait));
    match load.update((), Some(2)) {
        LoadStep::Ready(v) => assert_eq!(*v, 2),
        _ => panic!("expected the new result"),
    }
}

#[test]
fn lazy_update_asks_for_params_once() {
    let mut load: AsyncLoad<u8> = AsyncLoad::new();
    assert!(matches!(load.update_lazy(None), LoadStep::Spawn(())));
    assert!(matches!(load.update_lazy(None), LoadStep::Wait));
    assert!(matches!(load.update_lazy(Some(3)), LoadStep::Ready(_)));
}

#[test]
fn try_recv_ignores_deliveries_when_idle() {
    let mut load: AsyncLoad<u8> = AsyncLoad::new();
    assert!(load.try_recv(Some(9)).is_none());
    assert!(!load.is_pending());
}

use tikv_client::rpc_interceptor::{
    disable_heartbeat, lock_ttl, prewrite_batch_size, register, InterceptorRegistry,
};

#[test]
fn registration_hands_out_fresh_ids_in_order() {
    let mut registry: InterceptorRegistry<&str> = InterceptorRegistry::new();
    let a = register(&mut registry, "a");
    let b = register(&mut registry, "b");
    let c = register(&mut registry, "c");
    assert_eq!((a.id(), b.id(), c.id()), (1, 2, 3));
    assert_eq!(registry.snapshot(), vec!["a", "b", "c"]);
    assert_eq!(registry.len(), 3);
}

#[test]
fn guards_dropped_out_of_order_unregister_only_their_own_hook() {
    let mut registry: InterceptorRegistry<&str> = InterceptorRegistry::new();
    let a = register(&mut registry, "a");
    let b = register(&mut registry, "b");
    let c = register(&mut registry, "c");
    registry.unregister(b);
    assert_eq!(registry.snapshot(), vec!["a", "c"]);
    registry.unregister(a);
    assert_eq!(registry.snapshot(), vec!["c"]);
    let d = register(&mut registry, "d");
    assert_eq!(d.id(), 4);
    registry.unregister(c);
    assert_eq!(registry.snapshot(), vec!["d"]);
    registry.unregister(d);
    assert!(registry.snapshot().is_empty());
}

#[test]
fn register_then_unregister_restores_the_hooks() {
    let mut registry: InterceptorRegistry<u32> = InterceptorRegistry::new();
    let _keep = register(&mut registry, 7);
    let before = registry.snapshot();
    let guard = register(&mut registry, 8);
    registry.unregister(guard);
    assert_eq!(registry.snapshot(), before);
}

#[test]
fn unregister_order_does_not_matter() {
    let mut one: InterceptorRegistry<u32> = InterceptorRegistry::new();
    let mut two: InterceptorRegistry<u32> = InterceptorRegistry::new();
    let g1 = [
        register(&mut one, 1),
        register(&mut one, 2),
        register(&mut one, 3),
    ];
    let g2 = [
        register(&mut two, 1),
        register(&mut two, 2),
        register(&mut two, 3),
    ];
    let [a1, _b1, c1] = g1;
    let [a2, _b2, c2] = g2;
    one.unregister(a1);
    one.unregister(c1);
    two.unregister(c2);
    two.unregister(a2);
    assert_eq!(one.snapshot(), two.snapshot());
    assert_eq!(one.snapshot(), vec![2]);
}

#[test]
fn registry_capacity_is_checked() {
    let registry: InterceptorRegistry<u8> = InterceptorRegistry::new();
    assert!(registry.can_register());
}

#[test]
fn prewrite_batch_size_takes_the_least_request_and_at_least_one() {
    assert_eq!(prewrite_batch_size(&vec![], 16), 16);
    assert_eq!(prewrite_batch_size(&vec![None, None], 16), 16);
    assert_eq!(prewrite_batch_size(&vec![Some(8), None, Some(4)], 16), 4);
    assert_eq!(prewrite_batch_size(&vec![Some(32)], 16), 32);
    assert_eq!(prewrite_batch_size(&vec![Some(0), Some(5)], 16), 1);
    assert_eq!(prewrite_batch_size(&vec![], 0), 1);
}

#[test]
fn lock_ttl_takes_the_least_request_or_the_default() {
    assert_eq!(lock_ttl(&vec![], 3000), 3000);
    assert_eq!(lock_ttl(&vec![None], 3000), 3000);
    assert_eq!(lock_ttl(&vec![Some(5000), Some(100), None], 3000), 100);
    assert_eq!(lock_ttl(&vec![Some(0)], 3000), 0);
}

#[test]
fn heartbeat_is_disabled_when_any_hook_asks() {
    assert!(!disable_heartbeat(&vec![]));
    assert!(!disable_heartbeat(&vec![false, false]));
    assert!(disable_heartbeat(&vec![false, true, false]));
}

#[test]
fn a_hook_registered_twice_stays_once_after_one_guard() {
    let mut registry: InterceptorRegistry<&str> = InterceptorRegistry::new();
    let _a = register(&mut registry, "a");
    let g1 = register(&mut registry, "h");
    let _b = register(&mut registry, "b");
    let g2 = register(&mut registry, "h");
    registry.unregister(g1);
    assert_eq!(registry.snapshot(), vec!["a", "b", "h"]);
    registry.unregister(g2);
    assert_eq!(registry.snapshot(), vec!["a", "b"]);
}

#[test]
fn dropping_the_first_of_two_guards_keeps_the_second_hook() {
    let mut registry: InterceptorRegistry<&str> = InterceptorRegistry::new();
    let _base = register(&mut registry, "base");
    let ga = register(&mut registry, "a");
    let gb = register(&mut registry, "b");
    registry.unregister(ga);
    assert_eq!(registry.snapshot(), vec!["base", "b"]);
    registry.unregister(gb);
    assert_eq!(registry.snapshot(), vec!["base"]);
}

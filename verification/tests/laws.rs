use std::cell::Cell;

use lazy_static::heap_lazy;
use lazy_static::inline_lazy;
use lazy_static::lazy;
use lazy_static::stable_core_lazy;
use lazy_static::stable_core_lazy::Step;

#[test]
fn lazy_initializer_runs_once() {
    let calls = Cell::new(0u32);
    let mut l: lazy::Lazy<u32> = lazy::Lazy::new();
    assert!(!l.is_initialized());
    let first = *l.get(|| {
        calls.set(calls.get() + 1);
        41
    });
    let second = *l.get(|| {
        calls.set(calls.get() + 1);
        99
    });
    assert_eq!(first, 41);
    assert_eq!(second, 41);
    assert_eq!(calls.get(), 1);
    assert!(l.is_initialized());
    assert_eq!(*l.stored(), 41);
}

#[test]
fn lazy_already_filled_keeps_value() {
    let mut l: lazy::Lazy<&str> = lazy::Lazy::new();
    assert_eq!(*l.get(|| "kept"), "kept");
    assert_eq!(*l.get(|| "other"), "kept");
    assert_eq!(*l.stored(), "kept");
}

#[test]
fn heap_lazy_initializer_runs_once() {
    let calls = Cell::new(0u32);
    let mut l: heap_lazy::Lazy<Vec<u8>> = heap_lazy::Lazy::new();
    let first = l
        .get(|| {
            calls.set(calls.get() + 1);
            vec![1, 2, 3]
        })
        .clone();
    let second = l
        .get(|| {
            calls.set(calls.get() + 1);
            vec![9]
        })
        .clone();
    assert_eq!(first, vec![1, 2, 3]);
    assert_eq!(second, vec![1, 2, 3]);
    assert_eq!(calls.get(), 1);
}

#[test]
fn inline_lazy_reset_forgets_value() {
    let mut l: inline_lazy::Lazy<u32> = inline_lazy::Lazy::new();
    assert!(!l.is_initialized());
    assert_eq!(*l.get(|| 5), 5);
    assert!(l.is_initialized());
    assert_eq!(*l.stored(), 5);
    assert_eq!(*l.get(|| 6), 5);
    l.reset();
    assert!(!l.is_initialized());
    assert_eq!(*l.get(|| 6), 6);
}

#[test]
fn registry_reset_makes_every_cell_evaluate_again() {
    let calls = Cell::new(0u32);
    let mut reg: inline_lazy::Registry<String> = inline_lazy::Registry::new();
    let a = reg.declare();
    let b = reg.declare();
    let c = reg.declare();
    assert_eq!((a, b, c), (0, 1, 2));
    assert_eq!(reg.get(b, || "b1".to_string()), "b1");
    assert_eq!(reg.get(a, || "a1".to_string()), "a1");
    assert_eq!(reg.get(b, || "b2".to_string()), "b1");
    inline_lazy::reset(&mut reg);
    assert_eq!(
        reg.get(b, || {
            calls.set(calls.get() + 1);
            "b3".to_string()
        }),
        "b3"
    );
    assert_eq!(reg.get(a, || "a3".to_string()), "a3");
    assert_eq!(reg.get(c, || "c3".to_string()), "c3");
    assert_eq!(calls.get(), 1);
    inline_lazy::reset(&mut reg);
    inline_lazy::reset(&mut reg);
    assert_eq!(reg.get(c, || "c4".to_string()), "c4");
}

#[test]
fn registry_reset_of_empty_registry() {
    let mut reg: inline_lazy::Registry<u8> = inline_lazy::Registry::new();
    inline_lazy::reset(&mut reg);
    let x = reg.declare();
    assert_eq!(*reg.get(x, || 3), 3);
}

#[test]
fn stable_core_step_for_each_status() {
    assert_eq!(stable_core_lazy::step_for(stable_core_lazy::UNINIT), Step::Initialize);
    assert_eq!(stable_core_lazy::step_for(stable_core_lazy::INITING), Step::Wait);
    assert_eq!(stable_core_lazy::step_for(stable_core_lazy::INITED), Step::Read);
    assert_eq!(stable_core_lazy::step_for(7), Step::Read);
}

#[test]
fn stable_core_initializer_runs_once() {
    let calls = Cell::new(0u32);
    let mut l: stable_core_lazy::Lazy<u128> = stable_core_lazy::Lazy::new();
    let first = *l.get(|| {
        calls.set(calls.get() + 1);
        2432902008176640000
    });
    let second = *l.get(|| {
        calls.set(calls.get() + 1);
        0
    });
    assert_eq!(first, 2432902008176640000);
    assert_eq!(second, 2432902008176640000);
    assert_eq!(calls.get(), 1);
}

use catcher::registry::{CancellationGuard, HandleRegistry};
use std::sync::atomic::{AtomicU32, Ordering};
use std::sync::Arc;

#[test]
fn insert_and_get() {
    let mut reg: HandleRegistry<AtomicU32> = HandleRegistry::new();
    let id = reg.insert(Arc::new(AtomicU32::new(42)));
    let val = reg.get(id).unwrap();
    assert_eq!(val.load(Ordering::Relaxed), 42);
}

#[test]
fn remove_returns_value() {
    let mut reg: HandleRegistry<AtomicU32> = HandleRegistry::new();
    let id = reg.insert(Arc::new(AtomicU32::new(99)));
    let removed = reg.remove(id).unwrap();
    assert_eq!(removed.load(Ordering::Relaxed), 99);
    assert!(reg.get(id).is_none());
}

#[test]
fn get_unknown_returns_none() {
    let reg: HandleRegistry<AtomicU32> = HandleRegistry::new();
    assert!(reg.get(99999).is_none());
}

#[test]
fn ids_are_unique() {
    let mut reg: HandleRegistry<AtomicU32> = HandleRegistry::new();
    let id1 = reg.insert(Arc::new(AtomicU32::new(1)));
    let id2 = reg.insert(Arc::new(AtomicU32::new(2)));
    assert_ne!(id1, id2);
}

#[test]
fn ids_start_at_one_and_increase() {
    let mut reg: HandleRegistry<u8> = HandleRegistry::new();
    let a = reg.insert(Arc::new(1));
    let b = reg.insert(Arc::new(2));
    let c = reg.insert(Arc::new(3));
    assert_eq!(a, 1);
    assert!(a < b && b < c);
}

#[test]
fn insert_with_id_replaces_value() {
    let mut reg: HandleRegistry<u8> = HandleRegistry::new();
    reg.insert_with_id(7, Arc::new(1));
    reg.insert_with_id(7, Arc::new(2));
    assert_eq!(*reg.get(7).unwrap(), 2);
    assert!(reg.remove(7).is_some());
    assert!(reg.remove(7).is_none());
}

#[test]
fn cancellation_is_permanent() {
    let mut guard = CancellationGuard::new();
    assert!(!guard.is_cancelled(3));
    guard.mark(3);
    guard.mark(4);
    assert!(guard.is_cancelled(3));
    assert!(guard.is_cancelled(4));
    assert!(!guard.is_cancelled(5));
}

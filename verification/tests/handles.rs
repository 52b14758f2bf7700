//! The handle manager: one ownership unit per handle, counted exactly.

use uniffi::handle::HandleMap;

#[test]
fn lower_then_lift_settles_the_handle() {
    let mut map: HandleMap<String> = HandleMap::new();
    let h = map.lower("object".to_string());
    assert_eq!(map.live_objects(), 1);
    let object = map.lift(h);
    assert_eq!(object, "object".to_string());
    assert_eq!(map.live_objects(), 0);
}

#[test]
fn lower_then_free_settles_the_handle() {
    let mut map: HandleMap<String> = HandleMap::new();
    let h = map.lower("object".to_string());
    map.free(h);
    assert_eq!(map.live_objects(), 0);
}

// Cloning adds a unit; freeing both copies leaves the count at the
// pre-clone value minus one — here zero, so the object is destroyed.
#[test]
fn clone_then_free_both_destroys_the_object() {
    let mut map: HandleMap<String> = HandleMap::new();
    let h = map.lower("object".to_string());
    let h2 = map.clone_handle(h);
    assert_eq!(map.live_objects(), 1);
    map.free(h);
    assert_eq!(map.live_objects(), 1);
    map.free(h2);
    assert_eq!(map.live_objects(), 0);
}

#[test]
fn lift_with_outstanding_clone_keeps_the_object() {
    let mut map: HandleMap<String> = HandleMap::new();
    let h = map.lower("shared".to_string());
    let h2 = map.clone_handle(h);
    let object = map.lift(h);
    assert_eq!(object, "shared".to_string());
    // The clone still owns a unit; the object is still alive.
    assert_eq!(map.live_objects(), 1);
    assert_eq!(map.borrow(h2), &"shared".to_string());
    map.free(h2);
    assert_eq!(map.live_objects(), 0);
}

#[test]
fn handles_are_not_reissued() {
    let mut map: HandleMap<u64> = HandleMap::new();
    let h1 = map.lower(10);
    map.free(h1);
    let h2 = map.lower(20);
    assert_ne!(h1, h2);
    assert_eq!(map.borrow(h2), &20);
}

#[test]
fn independent_objects_count_separately() {
    let mut map: HandleMap<u64> = HandleMap::new();
    let a = map.lower(1);
    let b = map.lower(2);
    let c = map.lower(3);
    assert_eq!(map.live_objects(), 3);
    map.free(b);
    assert_eq!(map.live_objects(), 2);
    assert_eq!(map.lift(a), 1);
    assert_eq!(map.lift(c), 3);
    assert_eq!(map.live_objects(), 0);
}

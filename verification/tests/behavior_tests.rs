use defaultmap::DefaultBTreeMap;
use defaultmap::DefaultHashMap;
use std::cell::Cell;
use std::collections::BTreeMap;
use std::collections::HashMap;

#[test]
fn get_never_inserts() {
    let map: DefaultHashMap<i32, i32> = DefaultHashMap::with_default(7);
    assert_eq!(map.len(), 0);
    assert_eq!(*map.get(&1), 7);
    assert_eq!(*map.get(&1), 7);
    assert_eq!(*map.get(&2), 7);
    assert_eq!(map.len(), 0);
    assert!(map.is_empty());
}

#[test]
fn get_mut_materializes_exactly_once() {
    let mut map: DefaultHashMap<i32, String> = DefaultHashMap::with_default("x".to_string());
    assert_eq!(map.len(), 0);
    map.get_mut(1).push('y');
    assert_eq!(map.len(), 1);
    // the second mutable access hands back the same stored value,
    // not a fresh default
    assert_eq!(*map.get_mut(1), "xy");
    assert_eq!(map.len(), 1);
    assert_eq!(*map.get(&1), "xy");
}

#[test]
fn factory_snapshot_asymmetry() {
    let counter = Cell::new(0);
    let map: DefaultHashMap<i32, i32, _> = DefaultHashMap::with_fn(move || {
        counter.set(counter.get() + 1);
        counter.get()
    });
    // the snapshot was captured by one invocation at construction
    assert_eq!(*map.get(&9), 1);
    // an explicit default retrieval invokes the factory afresh
    assert_eq!(map.get_default(), 2);
    assert_eq!(map.get_default(), 3);
    // plain reads still observe the originally captured snapshot
    assert_eq!(*map.get(&9), 1);
    // materialization invokes the factory afresh as well
    let mut map = map;
    assert_eq!(*map.get_mut(5), 4);
    assert_eq!(*map.get(&5), 4);
}

#[test]
fn snapshot_get_default_clones() {
    let map: DefaultHashMap<i32, String> = DefaultHashMap::with_default("d".to_string());
    assert_eq!(map.get_default(), "d");
    assert_eq!(map.get_default(), "d");
    assert_eq!(map.len(), 0);
}

#[test]
fn hash_round_trip_resets_default() {
    let mut map: DefaultHashMap<i32, i32> = DefaultHashMap::with_default(9);
    map.insert(1, 10);
    map.get_mut(2);
    let plain: HashMap<i32, i32> = map.into();
    let rebuilt: DefaultHashMap<i32, i32> = DefaultHashMap::from(plain);
    assert_eq!(*rebuilt.get(&1), 10);
    assert_eq!(*rebuilt.get(&2), 9);
    assert_eq!(rebuilt.len(), 2);
    // the custom default did not survive the trip
    assert_eq!(*rebuilt.get(&3), 0);
    assert_eq!(rebuilt.get_default(), 0);
}

#[test]
fn btree_round_trip_resets_default() {
    let mut map: DefaultBTreeMap<i32, i32> = DefaultBTreeMap::new(9);
    map.insert(1, 10);
    map.get_mut(2);
    let plain: BTreeMap<i32, i32> = map.into();
    let rebuilt: DefaultBTreeMap<i32, i32> = DefaultBTreeMap::from(plain);
    assert_eq!(*rebuilt.get(&1), 10);
    assert_eq!(*rebuilt.get(&2), 9);
    assert_eq!(rebuilt.len(), 2);
    assert_eq!(*rebuilt.get(&3), 0);
    assert_eq!(rebuilt.get_default(), 0);
}

#[test]
fn btree_set_default_keeps_entries() {
    let mut map: DefaultBTreeMap<i32, i32> = DefaultBTreeMap::new(1);
    map.get_mut(1);
    map.get_mut(2);
    map.set_default(5);
    assert_eq!(*map.get(&1), 1);
    assert_eq!(*map.get(&2), 1);
    assert_eq!(*map.get(&3), 5);
    assert_eq!(map.get_default(), 5);
    assert_eq!(map.len(), 2);
}

#[test]
fn hash_insert_remove_contains() {
    let mut map: DefaultHashMap<i32, i32> = DefaultHashMap::new();
    assert_eq!(map.insert(1, 10), None);
    assert_eq!(map.insert(1, 11), Some(10));
    assert!(map.contains_key(&1));
    assert!(!map.contains_key(&2));
    assert_eq!(map.remove(&1), Some(11));
    assert_eq!(map.remove(&1), None);
    assert!(!map.contains_key(&1));
    assert_eq!(map.remove_entry(&1), None);
    map.insert(2, 20);
    assert_eq!(map.remove_entry(&2), Some((2, 20)));
    assert!(map.is_empty());
}

#[test]
fn btree_insert_remove_contains() {
    let mut map: DefaultBTreeMap<i32, i32> = DefaultBTreeMap::new(0);
    assert_eq!(map.insert(1, 10), None);
    assert_eq!(map.insert(1, 11), Some(10));
    assert!(map.contains_key(&1));
    assert_eq!(map.remove(&1), Some(11));
    assert_eq!(map.remove(&1), None);
    assert!(map.is_empty());
}

#[test]
fn hash_clear_keeps_default() {
    let mut map: DefaultHashMap<i32, i32> = DefaultHashMap::with_default(4);
    map.insert(1, 10);
    map.clear();
    assert!(map.is_empty());
    assert_eq!(*map.get(&1), 4);
}

#[test]
fn btree_clear_keeps_default() {
    let mut map: DefaultBTreeMap<i32, i32> = DefaultBTreeMap::new(4);
    map.insert(1, 10);
    map.clear();
    assert!(map.is_empty());
    assert_eq!(*map.get(&1), 4);
}

#[test]
fn hash_retain_filters() {
    let mut map: DefaultHashMap<i32, i32> = DefaultHashMap::new();
    for i in 0..8 {
        map.insert(i, 10 * i);
    }
    map.retain(|k, _| k % 2 == 0);
    assert_eq!(map.len(), 4);
    assert_eq!(*map.get(&2), 20);
    assert_eq!(*map.get(&3), 0);
    assert!(!map.contains_key(&3));
}

#[test]
fn btree_retain_filters() {
    let mut map: DefaultBTreeMap<i32, i32> = DefaultBTreeMap::new(0);
    for i in 0..8 {
        map.insert(i, 10 * i);
    }
    map.retain(|_, v| *v >= 40);
    assert_eq!(map.len(), 4);
    assert_eq!(*map.get(&4), 40);
    assert!(!map.contains_key(&3));
}

#[test]
fn hash_entry_api() {
    let mut map: DefaultHashMap<i32, i32> = DefaultHashMap::new();
    *map.entry(1).or_insert(5) += 1;
    *map.entry(1).or_insert(5) += 1;
    assert_eq!(*map.get(&1), 7);
}

#[test]
fn btree_iteration_is_ordered() {
    let mut map: DefaultBTreeMap<i32, i32> = DefaultBTreeMap::new(0);
    map.insert(3, 30);
    map.insert(1, 10);
    map.insert(2, 20);
    let keys: Vec<i32> = map.keys().copied().collect();
    assert_eq!(keys, vec![1, 2, 3]);
    let values: Vec<i32> = map.values().copied().collect();
    assert_eq!(values, vec![10, 20, 30]);
    let pairs: Vec<(i32, i32)> = map.iter().map(|(k, v)| (*k, *v)).collect();
    assert_eq!(pairs, vec![(1, 10), (2, 20), (3, 30)]);
}

#[test]
fn hash_iteration_covers_entries() {
    let mut map: DefaultHashMap<i32, i32> = DefaultHashMap::new();
    map.insert(3, 30);
    map.insert(1, 10);
    map.insert(2, 20);
    let mut keys: Vec<i32> = map.keys().copied().collect();
    keys.sort();
    assert_eq!(keys, vec![1, 2, 3]);
    let mut values: Vec<i32> = map.values().copied().collect();
    values.sort();
    assert_eq!(values, vec![10, 20, 30]);
    let mut pairs: Vec<(i32, i32)> = map.iter().map(|(k, v)| (*k, *v)).collect();
    pairs.sort();
    assert_eq!(pairs, vec![(1, 10), (2, 20), (3, 30)]);
}

#[test]
fn hash_reserve_keeps_contents() {
    let mut map: DefaultHashMap<i32, i32> = DefaultHashMap::with_default(2);
    map.insert(1, 10);
    map.reserve(100);
    assert_eq!(map.len(), 1);
    assert_eq!(*map.get(&1), 10);
    assert_eq!(*map.get(&9), 2);
}

#[test]
fn equality_ignores_factory_but_not_default() {
    let a: DefaultHashMap<i32, i32> = DefaultHashMap::with_default(5);
    let b: DefaultHashMap<i32, i32> = DefaultHashMap::with_default(5);
    let c: DefaultHashMap<i32, i32> = DefaultHashMap::with_default(6);
    assert_eq!(a, b);
    assert_ne!(a, c);
    let mut d: DefaultHashMap<i32, i32> = DefaultHashMap::with_default(5);
    d.insert(1, 1);
    assert_ne!(a, d);
    let e: DefaultBTreeMap<i32, i32> = DefaultBTreeMap::new(5);
    let f: DefaultBTreeMap<i32, i32> = DefaultBTreeMap::new(5);
    assert_eq!(e, f);
}

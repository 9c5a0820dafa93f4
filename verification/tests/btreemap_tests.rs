use defaultmap::DefaultBTreeMap;
use std::collections::BTreeMap;

#[test]
fn btreemap_macro_test() {
    // empty default
    let built: DefaultBTreeMap<i32, i32> = DefaultBTreeMap::from(BTreeMap::new());
    let normal_map = DefaultBTreeMap::<i32, i32>::default();
    assert_eq!(built, normal_map);

    // with content
    let mut plain = BTreeMap::new();
    plain.insert(1, 2);
    plain.insert(2, 3);
    let built: DefaultBTreeMap<_, _> = DefaultBTreeMap::from(plain);
    let mut normal_map = DefaultBTreeMap::<_, _>::default();
    normal_map.insert(1, 2);
    normal_map.insert(2, 3);
    assert_eq!(built, normal_map);

    // empty with custom default
    let built: DefaultBTreeMap<i32, i32> = DefaultBTreeMap::new_with_map(5, BTreeMap::new());
    let normal_map = DefaultBTreeMap::<i32, i32>::new(5);
    assert_eq!(built, normal_map);

    // filled btreemap with custom default
    let mut plain = BTreeMap::new();
    plain.insert(1, 2);
    plain.insert(2, 3);
    let built: DefaultBTreeMap<_, _> = DefaultBTreeMap::new_with_map(5, plain);
    let mut normal_map = DefaultBTreeMap::<_, _>::new(5);
    normal_map.insert(1, 2);
    normal_map.insert(2, 3);
    assert_eq!(built, normal_map);
}

#[test]
fn btreemap_add() {
    let mut map: DefaultBTreeMap<i32, i32> = DefaultBTreeMap::default();
    *map.get_mut(0) += 1;
    *map.get_mut(1) += 4;
    let sum = *map.get(&0) + *map.get(&1);
    map.insert(2, sum);
    assert_eq!(*map.get(&0), 1);
    assert_eq!(*map.get(&0), 1);
    assert_eq!(*map.get(&0), 1);
    assert_eq!(*map.get(&0), 1);
    assert_eq!(*map.get(&1), 4);
    assert_eq!(*map.get(&2), 5);
    assert_eq!(*map.get(&999), 0);
    assert_eq!(*map.get(&999), 0);
    assert_eq!(*map.get(&999), 0);
    assert_eq!(*map.get(&999), 0);
}

#[test]
fn btreemap_counter() {
    let nums = [1, 4, 3, 3, 4, 2, 4];
    let mut counts: DefaultBTreeMap<i32, i32> = DefaultBTreeMap::default();
    for num in nums.iter() {
        *counts.get_mut(*num) += 1;
    }

    assert_eq!(1, *counts.get(&1));
    assert_eq!(1, *counts.get(&2));
    assert_eq!(2, *counts.get(&3));
    assert_eq!(3, *counts.get(&4));
    assert_eq!(0, *counts.get(&5));
}

#[test]
fn btreemap_change_default() {
    let mut numbers: DefaultBTreeMap<i32, String> = DefaultBTreeMap::new("Mexico".to_string());

    assert_eq!("Mexico", numbers.get_mut(1));
    assert_eq!("Mexico", numbers.get_mut(2));
    assert_eq!("Mexico", numbers.get(&3));

    numbers.set_default("Cybernetics".to_string());
    assert_eq!("Mexico", numbers.get(&1));
    assert_eq!("Mexico", numbers.get(&2));
    assert_eq!("Cybernetics", numbers.get(&3));
    assert_eq!("Cybernetics", numbers.get(&4));
    assert_eq!("Cybernetics", numbers.get(&5));
}

#[test]
fn btreemap_synonyms() {
    let synonym_tuples = [
        ("nice", "sweet"),
        ("sweet", "candy"),
        ("nice", "entertaining"),
        ("nice", "good"),
        ("entertaining", "absorbing"),
    ];

    let mut synonym_map: DefaultBTreeMap<&str, Vec<&str>> = DefaultBTreeMap::default();

    for &(l, r) in synonym_tuples.iter() {
        synonym_map.get_mut(l).push(r);
        synonym_map.get_mut(r).push(l);
    }

    println!("{:#?}", synonym_map);
    assert_eq!(*synonym_map.get(&"good"), vec!["nice"]);
    assert_eq!(*synonym_map.get(&"nice"), vec!["sweet", "entertaining", "good"]);
    assert_eq!(*synonym_map.get(&"evil"), Vec::<&str>::new());
}

#[derive(Clone)]
struct Clonable;

#[derive(Default, Clone)]
struct DefaultableValue;

#[derive(Ord, PartialOrd, Eq, PartialEq)]
struct Orderable(i32);

#[test]
fn btreemap_minimal_derives() {
    let _: DefaultBTreeMap<Orderable, Clonable> = DefaultBTreeMap::new(Clonable);
    let _: DefaultBTreeMap<Orderable, DefaultableValue> = DefaultBTreeMap::default();
}

#[test]
fn btreemap_from() {
    let normal: BTreeMap<i32, i32> = vec![(0, 1), (2, 3)].into_iter().collect();
    let mut default: DefaultBTreeMap<_, _> = normal.into();
    default.get_mut(4);
    assert_eq!(*default.get(&0), 1);
    assert_eq!(*default.get(&2), 3);
    assert_eq!(*default.get(&1), 0);
    assert_eq!(*default.get(&4), 0);
    let expected: BTreeMap<i32, i32> = vec![(0, 1), (2, 3), (4, 0)].into_iter().collect();
    assert_eq!(expected, default.into());
}

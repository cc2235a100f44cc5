use deferred_borrow::{
    AppendOnlyHashMap, AppendOnlyHashMapRef, DefBorrow, FrozenHashMap, MaybeDefBorrow,
};
use std::collections::HashMap;

struct TagA {}
struct TagB {}

fn f<Tag>(v: &AppendOnlyHashMap<u32, u32, Tag>, ref1: AppendOnlyHashMapRef<u32, u32, Tag>) -> u32 {
    *ref1.def_borrow(v)
}

#[test]
fn test_append_only_hashmap() {
    let h1: HashMap<u32, u32> = [(10, 0), (11, 1), (12, 2)].iter().cloned().collect();
    let h2: HashMap<u32, u32> = [(10, 3), (11, 4), (12, 5)].iter().cloned().collect();

    let mut h1 = AppendOnlyHashMap::new(h1, TagA {});
    let h2 = AppendOnlyHashMap::new(h2, TagB {});

    let ref1 = h1.deferred(10).unwrap();
    assert!(h1.deferred(100).is_none());
    let ref2 = h2.deferred(10).unwrap();

    for i in 100..110 {
        assert!(h1.insert(i, 10 * i).is_none());
    }
    assert!(h1.insert(10, 4) == Some(0));

    assert!(*ref1.def_borrow(&h1) == 4);
    assert!(*ref2.def_borrow(&h2) == 3);
    *ref1.def_borrow_mut(&mut h1) = 5;
    assert!(*ref1.def_borrow(&h1) == 5);
    assert!(f(&h1, ref1.clone()) == 5);
}

#[test]
fn test_frozen_hashmap() {
    let h1: HashMap<u32, u32> = [(10, 0), (11, 1), (12, 2)].iter().cloned().collect();
    let h2: HashMap<u32, u32> = [(10, 3), (11, 4), (12, 5)].iter().cloned().collect();

    let mut h1 = FrozenHashMap::new(h1, TagA {});
    let h2 = FrozenHashMap::new(h2, TagB {});

    let ref1 = h1.deferred(10).unwrap();
    assert!(h1.deferred(100).is_none());
    let ref2 = h2.deferred(10).unwrap();

    assert!(*ref1.def_borrow(&h1) == 0);
    assert!(*ref2.def_borrow(&h2) == 3);
    *ref1.def_borrow_mut(&mut h1) = 5;
    assert!(*ref1.def_borrow(&h1) == 5);
}

fn sample() -> HashMap<u32, u32> {
    [(10, 0), (11, 1), (12, 2)].iter().cloned().collect()
}

#[test]
fn overwrite_is_seen_through_reference() {
    let mut h = AppendOnlyHashMap::new(sample(), TagA {});
    let r = h.deferred(10).unwrap();
    assert_eq!(h.insert(10, 4), Some(0));
    assert_eq!(*r.def_borrow(&h), 4);
}

#[test]
fn absent_key_is_reported() {
    let h = AppendOnlyHashMap::new(sample(), TagA {});
    assert!(h.deferred(13).is_none());
    assert!(h.get(&13).is_none());
    let g = FrozenHashMap::new(sample(), TagB {});
    assert!(g.deferred(13).is_none());
    assert!(g.get(&13).is_none());
    let e = AppendOnlyHashMap::new(HashMap::<u32, u32>::new(), TagA {});
    assert!(e.deferred(0).is_none());
}

#[test]
fn get_and_get_mut_on_maps() {
    let mut h = AppendOnlyHashMap::new(sample(), TagA {});
    assert_eq!(h.get(&11), Some(&1));
    *h.get_mut(&11).unwrap() = 21;
    assert_eq!(h.get(&11), Some(&21));
    assert!(h.get_mut(&99).is_none());

    let mut g = FrozenHashMap::new(sample(), TagB {});
    assert_eq!(g.get(&12), Some(&2));
    *g.get_mut(&12).unwrap() = 22;
    assert_eq!(g.get(&12), Some(&22));
    assert!(g.get_mut(&99).is_none());
    assert_eq!(g.to_hashmap().get(&12), Some(&22));
}

#[test]
fn get_or_insert_keeps_or_fills() {
    let mut h = AppendOnlyHashMap::new(sample(), TagA {});
    assert_eq!(*h.get_or_insert(10, || 77), 0);
    assert_eq!(*h.get_or_insert(20, || 77), 77);
    *h.get_or_insert(20, || 1) += 1;
    let m = h.to_hashmap();
    assert_eq!(m.get(&20), Some(&78));
    assert_eq!(m.get(&10), Some(&0));
    assert_eq!(m.len(), 4);
}

#[test]
fn frozen_map_sibling_write_leaves_reference() {
    let mut g = FrozenHashMap::new(sample(), TagA {});
    let r = g.deferred(10).unwrap();
    let other = g.deferred(11).unwrap();
    *other.def_borrow_mut(&mut g) = 50;
    *g.get_mut(&12).unwrap() = 60;
    assert_eq!(*r.def_borrow(&g), 0);
    assert_eq!(*other.clone().def_borrow(&g), 50);
}

#[test]
fn insert_of_new_keys_keeps_reference() {
    let mut h = AppendOnlyHashMap::new(sample(), TagA {});
    let r = h.deferred(12).unwrap();
    for i in 0..200u32 {
        h.insert(1000 + i, i);
    }
    assert_eq!(*r.def_borrow(&h), 2);
}

#[test]
fn maybe_def_borrow_map_is_present() {
    let mut h = AppendOnlyHashMap::new(sample(), TagA {});
    let r = h.deferred(11).unwrap();
    assert_eq!(r.maybe_def_borrow(&h), Some(&1));
    if let Some(x) = r.maybe_def_borrow_mut(&mut h) {
        *x = 5;
    }
    assert_eq!(*r.def_borrow(&h), 5);
}

#[test]
fn frozen_map_ref_copy_redeems_same_entry() {
    let g = FrozenHashMap::new(sample(), TagA {});
    let r = g.deferred(12).unwrap();
    let copied = r;
    let cloned = r.clone();
    assert_eq!(*copied.def_borrow(&g), 2);
    assert_eq!(*cloned.def_borrow(&g), 2);
    assert_eq!(*r.def_borrow(&g), 2);
}

#[test]
fn get_by_borrowed_key() {
    let mut m: HashMap<String, u32> = HashMap::new();
    m.insert(String::from("a"), 1);
    let h = AppendOnlyHashMap::new(m.clone(), TagA {});
    assert_eq!(h.get("a"), Some(&1));
    assert!(h.get("b").is_none());
    let g = FrozenHashMap::new(m, TagB {});
    assert_eq!(g.get("a"), Some(&1));
}

use railsim::bihashmap::BiHashMap;

#[test]
fn test_insertion() {
    let mut bhm = BiHashMap::<&str, &str>::new();
    bhm.insert(&"foo", &"bar");
    let r = bhm.get(&"foo", &"bar");
    assert!(r.0 == Some("bar"));
    assert!(r.1 == Some("foo"));
}

#[test]
fn test_a_deletion() {
    let mut bhm = BiHashMap::<&str, &str>::new();

    bhm.insert(&"foo", &"bar");
    bhm.remove(&"foo", &"");
    assert!(bhm.get(&"foo", &"bar") == (None, None));
}

#[test]
fn test_b_deletion() {
    let mut bhm = BiHashMap::<&str, &str>::new();

    bhm.insert(&"foo", &"bar");
    bhm.remove(&"", &"bar");
    assert!(bhm.get(&"foo", &"bar") == (None, None));
}

#[test]
fn removal_by_either_key_clears_both_sides() {
    let mut bhm = BiHashMap::<u64, u64>::new();
    bhm.insert(3, 802208);
    bhm.insert(4, 802212);
    bhm.remove(&3, &802208);
    assert!(bhm.get(&3, &802208) == (None, None));
    assert!(bhm.get(&4, &802212) == (Some(802212), Some(4)));
}

#[test]
fn lookup_misses_are_none() {
    let mut bhm = BiHashMap::<u64, u64>::new();
    bhm.insert(1, 10);
    let r = bhm.get(&2, &20);
    assert!(r.0.is_none());
    assert!(r.1.is_none());
}

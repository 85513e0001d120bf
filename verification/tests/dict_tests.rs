use pycore::dict::MergeSource;
use pycore::dict::PyDict;
use pycore::dict::DictIntoIter;
use pycore::dict::DictIter;
use pycore::obj::CmpOp;
use pycore::obj::ObjRef;
use pycore::obj::PyExc;

fn o(n: u64) -> ObjRef {
    ObjRef::new(n, n, n)
}

fn pairs(d: &PyDict) -> Vec<(u64, u64)> {
    d.to_attributes().iter().map(|(k, v)| (k.id, v.id)).collect()
}

#[test]
fn insert_and_get() {
    let mut d = PyDict::new_ref();
    assert!(d.is_empty());
    d.__setitem__(o(1), o(10)).unwrap();
    d.__setitem__(o(2), o(20)).unwrap();
    assert_eq!(d.__len__(), 2);
    assert_eq!(d.get(&o(1), None).unwrap(), Some(o(10)));
    assert_eq!(d.get(&o(3), None).unwrap(), None);
    assert_eq!(d.get(&o(3), Some(o(99))).unwrap(), Some(o(99)));
    assert!(d.contains_key(&o(2)));
    assert!(!d.contains_key(&o(3)));
}

#[test]
fn overwrite_keeps_position() {
    let mut d = PyDict::new_ref();
    d.__setitem__(o(1), o(10)).unwrap();
    d.__setitem__(o(2), o(20)).unwrap();
    d.__setitem__(o(1), o(11)).unwrap();
    assert_eq!(pairs(&d), vec![(1, 11), (2, 20)]);
}

#[test]
fn insertion_order_after_delete_and_reinsert() {
    // insert a, b, c; delete b; insert b again => order is a, c, b
    let mut d = PyDict::new_ref();
    let (a, b, c) = (o(1), o(2), o(3));
    d.__setitem__(a, o(10)).unwrap();
    d.__setitem__(b, o(20)).unwrap();
    d.__setitem__(c, o(30)).unwrap();
    d.__delitem__(b).unwrap();
    assert_eq!(pairs(&d), vec![(1, 10), (3, 30)]);
    d.__setitem__(b, o(21)).unwrap();
    assert_eq!(pairs(&d), vec![(1, 10), (3, 30), (2, 21)]);
}

#[test]
fn len_equals_items_len() {
    let mut d = PyDict::new_ref();
    for i in 0..5u64 {
        d.__setitem__(o(i), o(i + 100)).unwrap();
    }
    d.__delitem__(o(2)).unwrap();
    let items = d.items().to_elems(&d);
    assert_eq!(d.__len__(), items.len());
}

#[test]
fn setdefault_invokes_producer_once() {
    let mut d = PyDict::new_ref();
    let mut calls = 0u32;
    let k = o(7);
    let v1 = d
        .get_or_insert(k, || {
            calls += 1;
            o(70)
        })
        .unwrap();
    assert_eq!(v1, o(70));
    let mut calls2 = 0u32;
    let v2 = d
        .get_or_insert(k, || {
            calls2 += 1;
            o(71)
        })
        .unwrap();
    assert_eq!(v2, o(70));
    assert_eq!(calls, 1);
    assert_eq!(calls2, 0);
    assert_eq!(d.__len__(), 1);
}

#[test]
fn setdefault_value_form() {
    let mut d = PyDict::new_ref();
    assert_eq!(d.setdefault(o(1), o(5)).unwrap(), o(5));
    assert_eq!(d.setdefault(o(1), o(6)).unwrap(), o(5));
    assert_eq!(d.__len__(), 1);
}

#[test]
fn popitem_is_lifo() {
    // {a:1, b:2, c:3}: popitem -> (c,3), then (b,2); empty dict fails.
    let mut d = PyDict::new_ref();
    d.__setitem__(o(1), o(10)).unwrap();
    d.__setitem__(o(2), o(20)).unwrap();
    d.__setitem__(o(3), o(30)).unwrap();
    assert_eq!(d.popitem().unwrap(), (o(3), o(30)));
    assert_eq!(d.popitem().unwrap(), (o(2), o(20)));
    assert_eq!(d.popitem().unwrap(), (o(1), o(10)));
    assert_eq!(d.popitem(), Err(PyExc::KeyErrorEmptyDict));
}

#[test]
fn pop_with_and_without_default() {
    let mut d = PyDict::new_ref();
    d.__setitem__(o(1), o(10)).unwrap();
    assert_eq!(d.pop(o(1), None).unwrap(), o(10));
    assert_eq!(d.__len__(), 0);
    assert_eq!(d.pop(o(1), Some(o(42))).unwrap(), o(42));
    assert_eq!(d.pop(o(1), None), Err(PyExc::KeyError(o(1))));
}

#[test]
fn delete_absent_is_key_error() {
    let mut d = PyDict::new_ref();
    assert_eq!(d.__delitem__(o(9)), Err(PyExc::KeyError(o(9))));
}

#[test]
fn unhashable_key_is_type_error() {
    let mut d = PyDict::new_ref();
    let u = ObjRef::unhashable(5, 5);
    assert_eq!(d.__setitem__(u, o(1)), Err(PyExc::TypeError));
    assert_eq!(d.__contains__(&u), Err(PyExc::TypeError));
    assert_eq!(d.get(&u, None), Err(PyExc::TypeError));
    assert_eq!(d.pop(u, None), Err(PyExc::TypeError));
    // an unhashable value is fine
    d.__setitem__(o(1), u).unwrap();
    assert_eq!(d.get(&o(1), None).unwrap(), Some(u));
}

#[test]
fn key_matching_by_value_and_identity() {
    // distinct identities, equal value and hash: same entry
    let k1 = ObjRef::new(1, 100, 9);
    let k2 = ObjRef::new(2, 100, 9);
    let mut d = PyDict::new_ref();
    d.__setitem__(k1, o(10)).unwrap();
    assert!(d.contains_key(&k2));
    d.__setitem__(k2, o(11)).unwrap();
    assert_eq!(d.__len__(), 1);
    // the originally inserted key object is kept
    assert_eq!(d.to_attributes()[0].0, k1);
    // same identity, different value token: still the same entry
    let k3 = ObjRef::new(1, 101, 8);
    assert!(d.contains_key(&k3));
}

#[test]
fn getitem_missing_hook_asymmetry() {
    let d = PyDict::new_ref();
    // item access consults the hook's result
    assert_eq!(d.__getitem__(&o(1), Some(o(77))).unwrap(), o(77));
    assert_eq!(d.__getitem__(&o(1), None), Err(PyExc::KeyError(o(1))));
    // get never consults it: absent key falls back to the default only
    assert_eq!(d.get(&o(1), None).unwrap(), None);
    // the exact-dictionary optional lookup skips the hook as well
    assert_eq!(d.get_item_opt(&o(1)).unwrap(), None);
}

#[test]
fn update_merges_source_then_kwargs_in_order() {
    // {"a":1}.update({"b":2}, c=3) == {"a":1,"b":2,"c":3} in order a, b, c
    let mut d = PyDict::new_ref();
    d.__setitem__(o(1), o(10)).unwrap();
    let mut src = PyDict::new_ref();
    src.__setitem__(o(2), o(20)).unwrap();
    let kwargs = vec![(o(3), o(30))];
    d.update(Some(&MergeSource::Dict(src)), &kwargs).unwrap();
    assert_eq!(pairs(&d), vec![(1, 10), (2, 20), (3, 30)]);
}

#[test]
fn merge_keyed_source() {
    let mut d = PyDict::new_ref();
    let mut src = PyDict::new_ref();
    src.__setitem__(o(4), o(40)).unwrap();
    src.__setitem__(o(5), o(50)).unwrap();
    d.merge_object(&MergeSource::Keyed(src)).unwrap();
    assert_eq!(pairs(&d), vec![(4, 40), (5, 50)]);
}

#[test]
fn merge_pairs_requires_exactly_two_values() {
    let mut d = PyDict::new_ref();
    let good = MergeSource::Pairs(vec![vec![o(1), o(10)], vec![o(2), o(20)]]);
    d.merge_object(&good).unwrap();
    assert_eq!(pairs(&d), vec![(1, 10), (2, 20)]);

    let mut d2 = PyDict::new_ref();
    let bad = MergeSource::Pairs(vec![vec![o(1), o(10)], vec![o(2)]]);
    assert_eq!(d2.merge_object(&bad), Err(PyExc::ValueError));
    // the merge is a best-effort batch: the first pair stays merged
    assert_eq!(pairs(&d2), vec![(1, 10)]);

    let mut d3 = PyDict::new_ref();
    let three = MergeSource::Pairs(vec![vec![o(1), o(10), o(11)]]);
    assert_eq!(d3.merge_object(&three), Err(PyExc::ValueError));
}

#[test]
fn union_operators() {
    let mut a = PyDict::new_ref();
    a.__setitem__(o(1), o(10)).unwrap();
    a.__setitem__(o(2), o(20)).unwrap();
    let mut b = PyDict::new_ref();
    b.__setitem__(o(2), o(21)).unwrap();
    b.__setitem__(o(3), o(30)).unwrap();

    let u = a.__or__(&b).unwrap();
    assert_eq!(pairs(&u), vec![(1, 10), (2, 21), (3, 30)]);
    // the operands are untouched
    assert_eq!(pairs(&a), vec![(1, 10), (2, 20)]);

    let r = a.__ror__(&b).unwrap();
    assert_eq!(pairs(&r), vec![(2, 20), (3, 30), (1, 10)]);

    let mut c = a.copy();
    let mut src = PyDict::new_ref();
    src.__setitem__(o(3), o(31)).unwrap();
    c.__ior__(&MergeSource::Dict(src)).unwrap();
    assert_eq!(pairs(&c), vec![(1, 10), (2, 20), (3, 31)]);
}

#[test]
fn equality_is_order_independent() {
    let mut a = PyDict::new_ref();
    a.__setitem__(o(1), o(10)).unwrap();
    a.__setitem__(o(2), o(20)).unwrap();
    let mut b = PyDict::new_ref();
    b.__setitem__(o(2), o(20)).unwrap();
    b.__setitem__(o(1), o(10)).unwrap();
    assert_eq!(a.cmp(&b, CmpOp::Eq), Some(true));
    assert_eq!(a.cmp(&b, CmpOp::Ne), Some(false));
    // other operators are not implemented at the dictionary level
    assert_eq!(a.cmp(&b, CmpOp::Lt), None);

    b.__setitem__(o(2), o(21)).unwrap();
    assert_eq!(a.cmp(&b, CmpOp::Eq), Some(false));
    assert_eq!(a.cmp(&b, CmpOp::Ne), Some(true));

    let mut shorter = PyDict::new_ref();
    shorter.__setitem__(o(1), o(10)).unwrap();
    assert_eq!(a.cmp(&shorter, CmpOp::Eq), Some(false));
}

#[test]
fn equality_uses_identity_then_value() {
    // values with distinct identities but equal value tokens compare equal
    let mut a = PyDict::new_ref();
    a.__setitem__(o(1), ObjRef::new(50, 500, 5)).unwrap();
    let mut b = PyDict::new_ref();
    b.__setitem__(o(1), ObjRef::new(51, 500, 6)).unwrap();
    assert_eq!(a.cmp(&b, CmpOp::Eq), Some(true));
}

#[test]
fn fromkeys_builds_in_order() {
    // dict.fromkeys(["x","y"], 0).items() == [("x",0),("y",0)]
    let keys = vec![o(8), o(9)];
    let d = PyDict::fromkeys(&keys, o(0)).unwrap();
    assert_eq!(pairs(&d), vec![(8, 0), (9, 0)]);
}

#[test]
fn fromkeys_duplicate_keys_keep_first_slot() {
    let keys = vec![o(8), o(9), o(8)];
    let d = PyDict::fromkeys(&keys, o(0)).unwrap();
    assert_eq!(pairs(&d), vec![(8, 0), (9, 0)]);
}

#[test]
fn from_attributes_round_trip() {
    let attrs = vec![(o(1), o(10)), (o(2), o(20))];
    let d = PyDict::from_attributes(&attrs).unwrap();
    assert_eq!(d.to_attributes(), attrs);
}

#[test]
fn clear_and_size_signature() {
    let mut d = PyDict::new_ref();
    d.__setitem__(o(1), o(10)).unwrap();
    let s1 = d.size();
    assert_eq!(s1.used, 1);
    d.__setitem__(o(1), o(11)).unwrap();
    // overwriting an existing key leaves the signature unchanged
    assert_eq!(d.size(), s1);
    d.clear();
    let s2 = d.size();
    assert_eq!(s2.used, 0);
    assert!(d.is_empty());
    // a delete-and-insert pair is still visible in the signature
    d.__setitem__(o(1), o(10)).unwrap();
    assert_ne!(d.size(), s1);
}

#[test]
fn get_chain_prefers_first_dict() {
    let mut a = PyDict::new_ref();
    a.__setitem__(o(1), o(10)).unwrap();
    let mut b = PyDict::new_ref();
    b.__setitem__(o(1), o(99)).unwrap();
    b.__setitem__(o(2), o(20)).unwrap();
    assert_eq!(a.get_chain(&b, &o(1)).unwrap(), Some(o(10)));
    assert_eq!(a.get_chain(&b, &o(2)).unwrap(), Some(o(20)));
    assert_eq!(a.get_chain(&b, &o(3)).unwrap(), None);
}

#[test]
fn pop_item_exact() {
    let mut d = PyDict::new_ref();
    d.__setitem__(o(1), o(10)).unwrap();
    assert_eq!(d.pop_item(o(1)).unwrap(), Some(o(10)));
    assert_eq!(d.pop_item(o(1)).unwrap(), None);
}

#[test]
fn update_with_kwargs_only() {
    let mut d = PyDict::new_ref();
    d.__setitem__(o(1), o(10)).unwrap();
    d.update(None, &vec![(o(1), o(11)), (o(2), o(20))]).unwrap();
    assert_eq!(pairs(&d), vec![(1, 11), (2, 20)]);
}

#[test]
fn update_kwargs_overwrite_the_source() {
    let mut d = PyDict::new_ref();
    let mut src = PyDict::new_ref();
    src.__setitem__(o(1), o(10)).unwrap();
    d.update(Some(&MergeSource::Dict(src)), &vec![(o(1), o(99))]).unwrap();
    assert_eq!(pairs(&d), vec![(1, 99)]);
}

#[test]
fn get_or_insert_unhashable_key() {
    let mut d = PyDict::new_ref();
    let u = ObjRef::unhashable(5, 5);
    assert_eq!(d.get_or_insert(u, || o(1)), Err(PyExc::TypeError));
    assert!(d.is_empty());
}

#[test]
fn union_with_empty_dict() {
    let mut a = PyDict::new_ref();
    a.__setitem__(o(1), o(10)).unwrap();
    let empty = PyDict::new_ref();
    assert_eq!(pairs(&a.__or__(&empty).unwrap()), vec![(1, 10)]);
    assert_eq!(pairs(&empty.__or__(&a).unwrap()), vec![(1, 10)]);
    assert_eq!(empty.cmp(&PyDict::new_ref(), CmpOp::Eq), Some(true));
}

#[test]
fn rust_side_iterators() {
    let mut d = PyDict::new_ref();
    d.__setitem__(o(1), o(10)).unwrap();
    d.__setitem__(o(2), o(20)).unwrap();

    let mut it = DictIter::new(&d);
    assert_eq!(it.len(), 2);
    assert_eq!(it.next(), Some((o(1), o(10))));
    assert_eq!(it.len(), 1);
    assert_eq!(it.next(), Some((o(2), o(20))));
    assert_eq!(it.next(), None);
    assert_eq!(it.len(), 0);

    let mut owned = DictIntoIter::new(d);
    assert_eq!(owned.len(), 2);
    assert_eq!(owned.next(), Some((o(1), o(10))));
    assert_eq!(owned.next(), Some((o(2), o(20))));
    assert_eq!(owned.next(), None);
}

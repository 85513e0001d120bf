use pycore::dict::PyDict;
use pycore::dict_views::DictViewIter;
use pycore::dict_views::ViewElem;
use pycore::dict_views::ViewKind;
use pycore::dict_views::set_difference;
use pycore::dict_views::set_from_elems;
use pycore::dict_views::set_intersection;
use pycore::dict_views::set_isdisjoint;
use pycore::dict_views::set_subset;
use pycore::dict_views::set_symmetric_difference;
use pycore::dict_views::set_union;
use pycore::dict_views::set_cmp;
use pycore::obj::CmpOp;
use pycore::obj::ObjRef;
use pycore::obj::PyExc;
use pycore::obj::PyIterReturn;

fn o(n: u64) -> ObjRef {
    ObjRef::new(n, n, n)
}

fn key_ids(elems: &[ViewElem]) -> Vec<u64> {
    elems
        .iter()
        .map(|e| match e {
            ViewElem::Key(k) => k.id,
            ViewElem::Value(v) => v.id,
            ViewElem::Pair(k, _) => k.id,
        })
        .collect()
}

fn three_dict() -> PyDict {
    let mut d = PyDict::new_ref();
    d.__setitem__(o(1), o(10)).unwrap();
    d.__setitem__(o(2), o(20)).unwrap();
    d.__setitem__(o(3), o(30)).unwrap();
    d
}

#[test]
fn views_are_live() {
    let mut d = PyDict::new_ref();
    let keys = d.keys();
    assert_eq!(keys.__len__(&d), 0);
    d.__setitem__(o(1), o(10)).unwrap();
    assert_eq!(keys.__len__(&d), 1);
    assert_eq!(keys.to_elems(&d), vec![ViewElem::Key(o(1))]);
}

#[test]
fn forward_iteration_projects_in_insertion_order() {
    let d = three_dict();
    let mut it = d.items().iter(&d);
    assert_eq!(it.next(&d).unwrap(), PyIterReturn::Return(ViewElem::Pair(o(1), o(10))));
    assert_eq!(it.next(&d).unwrap(), PyIterReturn::Return(ViewElem::Pair(o(2), o(20))));
    assert_eq!(it.next(&d).unwrap(), PyIterReturn::Return(ViewElem::Pair(o(3), o(30))));
    assert_eq!(it.next(&d).unwrap(), PyIterReturn::StopIteration);
    // exhaustion is permanent
    assert_eq!(it.next(&d).unwrap(), PyIterReturn::StopIteration);
}

#[test]
fn reverse_iteration_starts_at_last_survivor() {
    let d = three_dict();
    let mut it = d.values().__reversed__(&d);
    assert_eq!(it.next(&d).unwrap(), PyIterReturn::Return(ViewElem::Value(o(30))));
    assert_eq!(it.next(&d).unwrap(), PyIterReturn::Return(ViewElem::Value(o(20))));
    assert_eq!(it.next(&d).unwrap(), PyIterReturn::Return(ViewElem::Value(o(10))));
    assert_eq!(it.next(&d).unwrap(), PyIterReturn::StopIteration);
}

#[test]
fn reverse_iteration_on_empty_dict() {
    let d = PyDict::new_ref();
    let mut it = d.keys().__reversed__(&d);
    assert_eq!(it.next(&d).unwrap(), PyIterReturn::StopIteration);
}

#[test]
fn iteration_is_restartable() {
    let d = three_dict();
    let keys = d.keys();
    let mut first = keys.iter(&d);
    assert_eq!(first.next(&d).unwrap(), PyIterReturn::Return(ViewElem::Key(o(1))));
    let mut fresh = keys.iter(&d);
    assert_eq!(fresh.next(&d).unwrap(), PyIterReturn::Return(ViewElem::Key(o(1))));
}

#[test]
fn size_change_fails_next_step_then_exhausts() {
    let mut d = three_dict();
    let mut it = d.keys().iter(&d);
    assert_eq!(it.next(&d).unwrap(), PyIterReturn::Return(ViewElem::Key(o(1))));
    d.__setitem__(o(4), o(40)).unwrap();
    assert_eq!(it.next(&d), Err(PyExc::RuntimeChangedSize));
    // all subsequent calls report ordinary exhaustion
    assert_eq!(it.next(&d), Ok(PyIterReturn::StopIteration));
    assert_eq!(it.next(&d), Ok(PyIterReturn::StopIteration));
}

#[test]
fn deletion_also_triggers_mutation_error() {
    let mut d = three_dict();
    let mut it = d.items().__reversed__(&d);
    d.__delitem__(o(2)).unwrap();
    assert_eq!(it.next(&d), Err(PyExc::RuntimeChangedSize));
}

#[test]
fn delete_and_insert_pair_is_detected() {
    let mut d = three_dict();
    let mut it = d.keys().iter(&d);
    d.__delitem__(o(3)).unwrap();
    d.__setitem__(o(4), o(40)).unwrap();
    // the present-entry count is back, but the generation marker moved
    assert_eq!(d.__len__(), 3);
    assert_eq!(it.next(&d), Err(PyExc::RuntimeChangedSize));
}

#[test]
fn same_size_value_replacement_is_not_detected() {
    // the documented limitation: overwriting a value is invisible to the check
    let mut d = three_dict();
    let mut it = d.keys().iter(&d);
    d.__setitem__(o(2), o(99)).unwrap();
    assert_eq!(it.next(&d).unwrap(), PyIterReturn::Return(ViewElem::Key(o(1))));
}

#[test]
fn length_hints() {
    let d = three_dict();
    let mut fwd = d.keys().iter(&d);
    assert_eq!(fwd.length_hint(), 3);
    fwd.next(&d).unwrap();
    assert_eq!(fwd.length_hint(), 2);

    let mut rev = d.keys().__reversed__(&d);
    assert_eq!(rev.length_hint(), 3);
    rev.next(&d).unwrap();
    assert_eq!(rev.length_hint(), 2);
    rev.next(&d).unwrap();
    rev.next(&d).unwrap();
    rev.next(&d).unwrap();
    assert_eq!(rev.length_hint(), 0);
}

#[test]
fn mutation_error_zeroes_the_hint() {
    let mut d = three_dict();
    let mut it = d.keys().iter(&d);
    d.__setitem__(o(4), o(40)).unwrap();
    assert_eq!(it.next(&d), Err(PyExc::RuntimeChangedSize));
    assert_eq!(it.length_hint(), 0);
}

#[test]
fn items_reverse_iteration() {
    let d = three_dict();
    let mut it = d.items().__reversed__(&d);
    assert_eq!(it.next(&d).unwrap(), PyIterReturn::Return(ViewElem::Pair(o(3), o(30))));
    assert_eq!(it.next(&d).unwrap(), PyIterReturn::Return(ViewElem::Pair(o(2), o(20))));
}

#[test]
fn keys_view_intersection() {
    // {"a":1,"b":2}.keys() & {"b":3,"c":4}.keys() == {"b"}
    let mut d1 = PyDict::new_ref();
    d1.__setitem__(o(1), o(10)).unwrap();
    d1.__setitem__(o(2), o(20)).unwrap();
    let mut d2 = PyDict::new_ref();
    d2.__setitem__(o(2), o(30)).unwrap();
    d2.__setitem__(o(3), o(40)).unwrap();
    let b = d2.keys().to_elems(&d2);
    let both = d1.keys().__and__(&d1, &b);
    assert_eq!(both, vec![ViewElem::Key(o(2))]);
}

#[test]
fn view_set_operators() {
    let mut d1 = PyDict::new_ref();
    d1.__setitem__(o(1), o(10)).unwrap();
    d1.__setitem__(o(2), o(20)).unwrap();
    let mut d2 = PyDict::new_ref();
    d2.__setitem__(o(2), o(30)).unwrap();
    d2.__setitem__(o(3), o(40)).unwrap();
    let other = d2.keys().to_elems(&d2);
    let k = d1.keys();
    assert_eq!(key_ids(&k.__or__(&d1, &other)), vec![1, 2, 3]);
    assert_eq!(key_ids(&k.__sub__(&d1, &other)), vec![1]);
    assert_eq!(key_ids(&k.__rsub__(&d1, &other)), vec![3]);
    assert_eq!(key_ids(&k.__xor__(&d1, &other)), vec![1, 3]);
    assert!(!k.isdisjoint(&d1, &other));
    assert!(k.isdisjoint(&d1, &vec![ViewElem::Key(o(9))]));
    assert_eq!(k.to_set(&d1).len(), 2);
}

#[test]
fn keys_view_set_algebra() {
    let mut d1 = PyDict::new_ref();
    d1.__setitem__(o(1), o(10)).unwrap();
    d1.__setitem__(o(2), o(20)).unwrap();
    let mut d2 = PyDict::new_ref();
    d2.__setitem__(o(2), o(30)).unwrap();
    d2.__setitem__(o(3), o(40)).unwrap();
    let a = d1.keys().to_elems(&d1);
    let b = d2.keys().to_elems(&d2);

    assert_eq!(key_ids(&set_union(&a, &b)), vec![1, 2, 3]);
    assert_eq!(key_ids(&set_difference(&a, &b)), vec![1]);
    assert_eq!(key_ids(&set_difference(&b, &a)), vec![3]);
    assert_eq!(key_ids(&set_symmetric_difference(&a, &b)), vec![1, 3]);
    assert!(!set_isdisjoint(&a, &b));

    let mut d3 = PyDict::new_ref();
    d3.__setitem__(o(9), o(90)).unwrap();
    let c = d3.keys().to_elems(&d3);
    assert!(set_isdisjoint(&a, &c));
}

#[test]
fn set_dedup_and_subset() {
    let raw = vec![ViewElem::Key(o(1)), ViewElem::Key(o(1)), ViewElem::Key(o(2))];
    let s = set_from_elems(&raw);
    assert_eq!(key_ids(&s), vec![1, 2]);
    let small = vec![ViewElem::Key(o(1))];
    assert!(set_subset(&small, &s));
    assert!(!set_subset(&s, &small));
    assert!(set_cmp(&small, &s, CmpOp::Lt));
    assert!(set_cmp(&s, &s, CmpOp::Eq));
    assert!(set_cmp(&s, &small, CmpOp::Gt));
}

#[test]
fn items_view_set_algebra_uses_value_equality() {
    let mut d1 = PyDict::new_ref();
    d1.__setitem__(o(1), o(10)).unwrap();
    let mut d2 = PyDict::new_ref();
    // same key, value equal by value token though identities differ
    d2.__setitem__(o(1), ObjRef::new(77, 10, 7)).unwrap();
    let a = d1.items().to_elems(&d1);
    let b = d2.items().to_elems(&d2);
    assert_eq!(set_intersection(&a, &b).len(), 1);
}

#[test]
fn view_contains() {
    let d = three_dict();
    assert_eq!(d.keys().contains(&d, &ViewElem::Key(o(1))).unwrap(), true);
    assert_eq!(d.keys().contains(&d, &ViewElem::Key(o(9))).unwrap(), false);
    assert_eq!(
        d.keys().contains(&d, &ViewElem::Key(ObjRef::unhashable(9, 9))),
        Err(PyExc::TypeError)
    );
    assert_eq!(d.items().contains(&d, &ViewElem::Pair(o(1), o(10))).unwrap(), true);
    assert_eq!(d.items().contains(&d, &ViewElem::Pair(o(1), o(11))).unwrap(), false);
    assert_eq!(d.values().contains(&d, &ViewElem::Value(o(20))).unwrap(), true);
    assert_eq!(d.values().contains(&d, &ViewElem::Value(o(21))).unwrap(), false);
    // an element of the wrong shape is never contained
    assert_eq!(d.keys().contains(&d, &ViewElem::Value(o(1))).unwrap(), false);
}

#[test]
fn view_comparison_same_kind() {
    let d1 = three_dict();
    let d2 = three_dict();
    let k1 = d1.keys();
    let k2 = d2.keys();
    assert_eq!(k1.cmp(&d1, &k2, &d2, CmpOp::Eq), Some(true));
    assert_eq!(k1.cmp(&d1, &k2, &d2, CmpOp::Le), Some(true));
    assert_eq!(k1.cmp(&d1, &k2, &d2, CmpOp::Lt), Some(false));
    // views of different kinds are not compared here
    assert_eq!(k1.cmp(&d1, &d2.items(), &d2, CmpOp::Eq), None);

    // item views also compare the values
    let mut d3 = three_dict();
    d3.__setitem__(o(2), o(99)).unwrap();
    assert_eq!(d1.items().cmp(&d1, &d3.items(), &d3, CmpOp::Eq), Some(false));
    // key views ignore the values
    assert_eq!(d1.keys().cmp(&d1, &d3.keys(), &d3, CmpOp::Eq), Some(true));
}

#[test]
fn dict_reversed_yields_keys() {
    let d = three_dict();
    let mut it = d.__reversed__();
    assert_eq!(it.next(&d).unwrap(), PyIterReturn::Return(ViewElem::Key(o(3))));
}

#[test]
fn fresh_view_iter_constructor() {
    let d = three_dict();
    let mut it = DictViewIter::new(&d, ViewKind::Values);
    assert_eq!(it.next(&d).unwrap(), PyIterReturn::Return(ViewElem::Value(o(10))));
}

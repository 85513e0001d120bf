//! The `dict` builtin: an insertion-ordered mapping over runtime objects,
//! with value-or-identity key matching, mutation detection, merging, and
//! ordering-independent equality.

use vstd::prelude::*;

use crate::dict_inner::Dict;
use crate::dict_inner::DictSize;
use crate::dict_inner::bump;
use crate::dict_inner::dict_find;
use crate::dict_inner::dict_get;
use crate::dict_inner::dict_has_key;
use crate::dict_inner::keys_hashable;
use crate::dict_inner::keys_unique;
use crate::dict_inner::spec_insert;
use crate::dict_inner::spec_remove;
use crate::dict_inner::spec_setdefault;
use crate::obj::CmpOp;
use crate::obj::ObjRef;
use crate::obj::PyExc;
use crate::obj::obj_eq;

verus! {

/// Entries of `s` after merging in the typed pairs `ps` from left to right,
/// together with the error that stopped the merge, if any. A merge is a
/// best-effort batch: pairs before a failing one stay merged.
pub open spec fn spec_merge_typed(s: Seq<(ObjRef, ObjRef)>, ps: Seq<(ObjRef, ObjRef)>) -> (
    Seq<(ObjRef, ObjRef)>,
    Option<PyExc>,
)
    decreases ps.len(),
{
    if ps.len() == 0 {
        (s, None)
    } else if !ps[0].0.hashable {
        (s, Some(PyExc::TypeError))
    } else {
        spec_merge_typed(spec_insert(s, ps[0].0, ps[0].1), ps.drop_first())
    }
}

/// Entries of `s` after merging in a plain iterable of pair iterables: an
/// element that does not hold exactly two values stops the merge with a
/// value error.
pub open spec fn spec_merge_pairs(s: Seq<(ObjRef, ObjRef)>, ps: Seq<Seq<ObjRef>>) -> (
    Seq<(ObjRef, ObjRef)>,
    Option<PyExc>,
)
    decreases ps.len(),
{
    if ps.len() == 0 {
        (s, None)
    } else if ps[0].len() != 2 {
        (s, Some(PyExc::ValueError))
    } else if !ps[0][0].hashable {
        (s, Some(PyExc::TypeError))
    } else {
        spec_merge_pairs(spec_insert(s, ps[0][0], ps[0][1]), ps.drop_first())
    }
}

/// Merging pairs whose keys are all hashable never fails.
pub proof fn lemma_merge_typed_ok(s: Seq<(ObjRef, ObjRef)>, ps: Seq<(ObjRef, ObjRef)>)
    requires
        keys_hashable(ps),
    ensures
        spec_merge_typed(s, ps).1 is None,
    decreases ps.len(),
{
    if ps.len() > 0 {
        assert(ps[0].0.hashable);
        assert(keys_hashable(ps.drop_first())) by {
            assert forall|i: int|
                0 <= i < ps.drop_first().len() implies (#[trigger] ps.drop_first()[i]).0.hashable by {
                assert(ps.drop_first()[i] == ps[i + 1]);
            }
        }
        lemma_merge_typed_ok(spec_insert(s, ps[0].0, ps[0].1), ps.drop_first());
    }
}

/// Merging pairs whose keys are hashable, pairwise distinct, and fresh to
/// `s` appends them all, in order.
pub proof fn lemma_merge_fresh(s: Seq<(ObjRef, ObjRef)>, ps: Seq<(ObjRef, ObjRef)>)
    requires
        keys_hashable(ps),
        forall|i: int, j: int|
            0 <= i < s.len() && 0 <= j < ps.len() ==> !crate::obj::key_match(
                (#[trigger] s[i]).0,
                (#[trigger] ps[j]).0,
            ),
        keys_unique(ps),
    ensures
        spec_merge_typed(s, ps) == (s + ps, None::<PyExc>),
    decreases ps.len(),
{
    if ps.len() == 0 {
        assert(s + ps =~= s);
    } else {
        assert(ps[0].0.hashable);
        crate::dict_inner::lemma_find_from_props(s, ps[0].0, 0);
        if dict_has_key(s, ps[0].0) {
            let i = dict_find(s, ps[0].0).unwrap();
            assert(crate::obj::key_match(s[i].0, ps[0].0));
            assert(false);
        }
        let s2 = s.push(ps[0]);
        let ps2 = ps.drop_first();
        assert(spec_insert(s, ps[0].0, ps[0].1) == s2);
        assert(keys_hashable(ps2)) by {
            assert forall|i: int| 0 <= i < ps2.len() implies (#[trigger] ps2[i]).0.hashable by {
                assert(ps2[i] == ps[i + 1]);
            }
        }
        assert(keys_unique(ps2)) by {
            assert forall|i: int, j: int| 0 <= i < j < ps2.len() implies !crate::obj::key_match(
                (#[trigger] ps2[i]).0,
                (#[trigger] ps2[j]).0,
            ) by {
                assert(ps2[i] == ps[i + 1]);
                assert(ps2[j] == ps[j + 1]);
            }
        }
        assert forall|i: int, j: int|
            0 <= i < s2.len() && 0 <= j < ps2.len() implies !crate::obj::key_match(
            (#[trigger] s2[i]).0,
            (#[trigger] ps2[j]).0,
        ) by {
            assert(ps2[j] == ps[j + 1]);
            if i < s.len() {
                assert(s2[i] == s[i]);
            } else {
                assert(s2[i] == ps[0]);
            }
        }
        lemma_merge_fresh(s2, ps2);
        assert(s2 + ps2 =~= s + ps);
    }
}

/// Law: building a dictionary from pairwise-distinct hashable keys and one
/// shared value succeeds and yields exactly those keys, in the given order,
/// each mapped to the value; its items are those pairs.
pub proof fn lemma_fromkeys_order(ks: Seq<ObjRef>, v: ObjRef)
    requires
        forall|i: int| 0 <= i < ks.len() ==> (#[trigger] ks[i]).hashable,
        forall|i: int, j: int|
            0 <= i < j < ks.len() ==> !crate::obj::key_match(#[trigger] ks[i], #[trigger] ks[j]),
    ensures
        spec_merge_typed(Seq::<(ObjRef, ObjRef)>::empty(), pairs_of_keys(ks, v)) == (
            pairs_of_keys(ks, v),
            None::<PyExc>,
        ),
{
    let ps = pairs_of_keys(ks, v);
    assert(keys_hashable(ps)) by {
        assert forall|i: int| 0 <= i < ps.len() implies (#[trigger] ps[i]).0.hashable by {
            assert(ps[i].0 == ks[i]);
        }
    }
    assert(keys_unique(ps)) by {
        assert forall|i: int, j: int| 0 <= i < j < ps.len() implies !crate::obj::key_match(
            (#[trigger] ps[i]).0,
            (#[trigger] ps[j]).0,
        ) by {
            assert(ps[i].0 == ks[i]);
            assert(ps[j].0 == ks[j]);
        }
    }
    lemma_merge_fresh(Seq::<(ObjRef, ObjRef)>::empty(), ps);
    assert(Seq::<(ObjRef, ObjRef)>::empty() + ps =~= ps);
}

/// One subset entry is accounted for in `sup`: its key addresses an entry
/// there, and for item comparisons the values are identical or value-equal.
pub open spec fn entry_ok(sup: Seq<(ObjRef, ObjRef)>, e: (ObjRef, ObjRef), item: bool) -> bool {
    match dict_find(sup, e.0) {
        Some(j) => item ==> obj_eq(e.1, sup[j].1),
        None => false,
    }
}

/// Every entry of `sub` is accounted for in `sup`.
pub open spec fn dict_subset(sub: Seq<(ObjRef, ObjRef)>, sup: Seq<(ObjRef, ObjRef)>, item: bool) -> bool {
    forall|i: int| 0 <= i < sub.len() ==> entry_ok(sup, #[trigger] sub[i], item)
}

/// How a comparison operator reads an ordering of two lengths.
pub open spec fn spec_len_ord(op: CmpOp, a: int, b: int) -> bool {
    match op {
        CmpOp::Lt => a < b,
        CmpOp::Le => a <= b,
        CmpOp::Eq => a == b,
        CmpOp::Ne => a != b,
        CmpOp::Ge => a >= b,
        CmpOp::Gt => a > b,
    }
}

/// The subset check runs from the smaller operand into the larger one.
pub open spec fn spec_subset_dir(a: Seq<(ObjRef, ObjRef)>, b: Seq<(ObjRef, ObjRef)>, item: bool) -> bool {
    if a.len() < b.len() {
        dict_subset(a, b, item)
    } else {
        dict_subset(b, a, item)
    }
}

/// The dictionary comparison: the lengths must order as the operator asks,
/// and the smaller operand must be a subset of the larger. Inequality is the
/// negated equality.
pub open spec fn spec_inner_cmp(a: Seq<(ObjRef, ObjRef)>, b: Seq<(ObjRef, ObjRef)>, op: CmpOp, item: bool) -> bool {
    match op {
        CmpOp::Ne => !(a.len() == b.len() && spec_subset_dir(a, b, item)),
        _ => spec_len_ord(op, a.len() as int, b.len() as int) && spec_subset_dir(a, b, item),
    }
}

/// Law: a well-formed dictionary compares equal to itself, for key and for
/// item comparisons alike.
pub proof fn lemma_dict_eq_refl(a: Seq<(ObjRef, ObjRef)>, item: bool)
    requires
        keys_unique(a),
    ensures
        spec_inner_cmp(a, a, CmpOp::Eq, item),
{
    assert forall|i: int| 0 <= i < a.len() implies entry_ok(a, #[trigger] a[i], item) by {
        crate::dict_inner::lemma_find_from_props(a, a[i].0, 0);
        assert(crate::obj::key_match(a[i].0, a[i].0));
        match dict_find(a, a[i].0) {
            Some(j) => {
                if j < i {
                    assert(!crate::obj::key_match(a[j].0, a[i].0));
                }
            },
            None => {
                assert(false);
            },
        }
    }
}

/// The keyed pairs `(k, v)` for every `k` of `ks`, as used by `fromkeys`.
pub open spec fn pairs_of_keys(ks: Seq<ObjRef>, v: ObjRef) -> Seq<(ObjRef, ObjRef)> {
    Seq::new(ks.len(), |i: int| (ks[i], v))
}

/// A source handed to `merge_object` / `update`: another dictionary of the
/// same kind, an object exposing a `keys` capability (reduced to its
/// mapping), or a plain iterable of pair iterables.
pub enum MergeSource {
    Dict(PyDict),
    Keyed(PyDict),
    Pairs(Vec<Vec<ObjRef>>),
}

/// Entries and outcome after merging one source object into `s`: another
/// dictionary or a keyed object contributes its (key, value) pairs in its
/// iteration order; a plain iterable contributes pair iterables that must
/// hold exactly two values each.
pub open spec fn spec_merge_source(s: Seq<(ObjRef, ObjRef)>, src: MergeSource) -> (
    Seq<(ObjRef, ObjRef)>,
    Option<PyExc>,
) {
    match src {
        MergeSource::Dict(d) => spec_merge_typed(s, d@),
        MergeSource::Keyed(d) => spec_merge_typed(s, d@),
        MergeSource::Pairs(ps) => spec_merge_pairs(s, ps@.map_values(|p: Vec<ObjRef>| p@)),
    }
}

/// Entries and outcome of `update`: the optional source first, then the
/// keyword arguments, stopping at the first failure.
pub open spec fn spec_update(
    s: Seq<(ObjRef, ObjRef)>,
    src: Option<MergeSource>,
    kwargs: Seq<(ObjRef, ObjRef)>,
) -> (Seq<(ObjRef, ObjRef)>, Option<PyExc>) {
    let first = match src {
        Some(x) => spec_merge_source(s, x),
        None => (s, None),
    };
    if first.1 is Some {
        first
    } else {
        spec_merge_typed(first.0, kwargs)
    }
}

/// The `dict` builtin object.
pub struct PyDict {
    pub entries: Dict,
}

impl View for PyDict {
    type V = Seq<(ObjRef, ObjRef)>;

    open spec fn view(&self) -> Seq<(ObjRef, ObjRef)> {
        self.entries@
    }
}

impl Default for PyDict {
    /// An empty dictionary.
    fn default() -> (d: Self)
        ensures
            d@ == Seq::<(ObjRef, ObjRef)>::empty(),
            d.wf(),
            d.entries.gen() == 0,
    {
        PyDict { entries: Dict::new() }
    }
}

impl PyDict {
    /// The dictionary's invariant, inherited from its store.
    pub open spec fn wf(&self) -> bool {
        self.entries.wf()
    }

    /// The current size signature.
    pub open spec fn sig(&self) -> DictSize {
        self.entries.spec_size()
    }

    /// A fresh empty dictionary.
    pub fn new_ref() -> (d: PyDict)
        ensures
            d@ == Seq::<(ObjRef, ObjRef)>::empty(),
            d.wf(),
            d.entries.gen() == 0,
    {
        PyDict { entries: Dict::new() }
    }

    /// Whether no entry is present.
    pub fn is_empty(&self) -> (r: bool)
        ensures
            r == (self@.len() == 0),
    {
        self.entries.len() == 0
    }

    /// Number of present entries.
    pub fn __len__(&self) -> (n: usize)
        ensures
            n == self@.len(),
    {
        self.entries.len()
    }

    /// The current size signature.
    pub fn size(&self) -> (r: DictSize)
        ensures
            r == self.sig(),
    {
        self.entries.size()
    }

    /// Whether `key` addresses an entry; an unhashable key is a type error.
    pub fn __contains__(&self, key: &ObjRef) -> (r: Result<bool, PyExc>)
        ensures
            r == if key.hashable {
                Ok::<bool, PyExc>(dict_has_key(self@, *key))
            } else {
                Err::<bool, PyExc>(PyExc::TypeError)
            },
    {
        self.entries.contains(key)
    }

    /// Whether a key known to be hashable addresses an entry.
    pub fn contains_key(&self, key: &ObjRef) -> (r: bool)
        requires
            key.hashable,
        ensures
            r == dict_has_key(self@, *key),
    {
        match self.entries.contains(key) {
            Ok(b) => b,
            Err(_) => vstd::pervasive::unreached(),
        }
    }

    /// Insert `key -> value`.
    pub fn inner_setitem(&mut self, key: ObjRef, value: ObjRef) -> (r: Result<(), PyExc>)
        requires
            old(self).wf(),
        ensures
            final(self).wf(),
            if key.hashable {
                r == Ok::<(), PyExc>(()) && final(self)@ == spec_insert(old(self)@, key, value)
                    && final(self).entries.gen() == if dict_has_key(old(self)@, key) {
                    old(self).entries.gen()
                } else {
                    bump(old(self).entries.gen())
                }
            } else {
                r == Err::<(), PyExc>(PyExc::TypeError) && final(self)@ == old(self)@
                    && final(self).entries.gen() == old(self).entries.gen()
            },
    {
        self.entries.insert(key, value)
    }

    /// Insert `key -> value` (the subscript-assignment entry point).
    pub fn __setitem__(&mut self, key: ObjRef, value: ObjRef) -> (r: Result<(), PyExc>)
        requires
            old(self).wf(),
        ensures
            final(self).wf(),
            if key.hashable {
                r == Ok::<(), PyExc>(()) && final(self)@ == spec_insert(old(self)@, key, value)
                    && final(self).entries.gen() == if dict_has_key(old(self)@, key) {
                    old(self).entries.gen()
                } else {
                    bump(old(self).entries.gen())
                }
            } else {
                r == Err::<(), PyExc>(PyExc::TypeError) && final(self)@ == old(self)@
                    && final(self).entries.gen() == old(self).entries.gen()
            },
    {
        self.entries.insert(key, value)
    }

    /// Insert `key -> value` on an exact dictionary.
    pub fn set_item(&mut self, key: ObjRef, value: ObjRef) -> (r: Result<(), PyExc>)
        requires
            old(self).wf(),
        ensures
            final(self).wf(),
            if key.hashable {
                r == Ok::<(), PyExc>(()) && final(self)@ == spec_insert(old(self)@, key, value)
            } else {
                r == Err::<(), PyExc>(PyExc::TypeError) && final(self)@ == old(self)@
            },
    {
        self.entries.insert(key, value)
    }

    /// Delete the entry under `key`; an absent key is a key error.
    pub fn inner_delitem(&mut self, key: ObjRef) -> (r: Result<(), PyExc>)
        requires
            old(self).wf(),
        ensures
            final(self).wf(),
            final(self).entries.gen() == old(self).entries.gen(),
            if !key.hashable {
                r == Err::<(), PyExc>(PyExc::TypeError) && final(self)@ == old(self)@
            } else if dict_has_key(old(self)@, key) {
                r == Ok::<(), PyExc>(()) && final(self)@ == spec_remove(old(self)@, key)
            } else {
                r == Err::<(), PyExc>(PyExc::KeyError(key)) && final(self)@ == old(self)@
            },
    {
        self.entries.delete(key)
    }

    /// Delete the entry under `key` (the subscript-deletion entry point).
    pub fn __delitem__(&mut self, key: ObjRef) -> (r: Result<(), PyExc>)
        requires
            old(self).wf(),
        ensures
            final(self).wf(),
            if !key.hashable {
                r == Err::<(), PyExc>(PyExc::TypeError) && final(self)@ == old(self)@
            } else if dict_has_key(old(self)@, key) {
                r == Ok::<(), PyExc>(()) && final(self)@ == spec_remove(old(self)@, key)
            } else {
                r == Err::<(), PyExc>(PyExc::KeyError(key)) && final(self)@ == old(self)@
            },
    {
        self.entries.delete(key)
    }

    /// Delete the entry under `key` on an exact dictionary.
    pub fn del_item(&mut self, key: ObjRef) -> (r: Result<(), PyExc>)
        requires
            old(self).wf(),
        ensures
            final(self).wf(),
            if !key.hashable {
                r == Err::<(), PyExc>(PyExc::TypeError) && final(self)@ == old(self)@
            } else if dict_has_key(old(self)@, key) {
                r == Ok::<(), PyExc>(()) && final(self)@ == spec_remove(old(self)@, key)
            } else {
                r == Err::<(), PyExc>(PyExc::KeyError(key)) && final(self)@ == old(self)@
            },
    {
        self.entries.delete(key)
    }

    /// Drop every entry.
    pub fn clear(&mut self)
        requires
            old(self).wf(),
        ensures
            final(self).wf(),
            final(self)@ == Seq::<(ObjRef, ObjRef)>::empty(),
            final(self).entries.gen() == old(self).entries.gen(),
    {
        self.entries.clear()
    }

    /// The value under `key`, or the supplied default when absent. The
    /// missing-key hook is never consulted here.
    pub fn get(&self, key: &ObjRef, default: Option<ObjRef>) -> (r: Result<Option<ObjRef>, PyExc>)
        ensures
            r == if key.hashable {
                Ok::<Option<ObjRef>, PyExc>(
                    match dict_get(self@, *key) {
                        Some(v) => Some(v),
                        None => default,
                    },
                )
            } else {
                Err::<Option<ObjRef>, PyExc>(PyExc::TypeError)
            },
    {
        match self.entries.get(key)? {
            Some(v) => Ok(Some(v)),
            None => Ok(default),
        }
    }

    /// The value under `key` on an exact dictionary, or `None`.
    pub fn get_item_opt(&self, key: &ObjRef) -> (r: Result<Option<ObjRef>, PyExc>)
        ensures
            r == if key.hashable {
                Ok::<Option<ObjRef>, PyExc>(dict_get(self@, *key))
            } else {
                Err::<Option<ObjRef>, PyExc>(PyExc::TypeError)
            },
    {
        self.entries.get(key)
    }

    /// Item access: the stored value, else the missing-key hook's result
    /// (`missing` carries it when the runtime's type provides the hook),
    /// else a key error. This is the only entry point that consults the
    /// hook.
    pub fn inner_getitem(&self, key: &ObjRef, missing: Option<ObjRef>) -> (r: Result<
        ObjRef,
        PyExc,
    >)
        ensures
            r == if !key.hashable {
                Err::<ObjRef, PyExc>(PyExc::TypeError)
            } else {
                match dict_get(self@, *key) {
                    Some(v) => Ok::<ObjRef, PyExc>(v),
                    None => match missing {
                        Some(m) => Ok::<ObjRef, PyExc>(m),
                        None => Err::<ObjRef, PyExc>(PyExc::KeyError(*key)),
                    },
                }
            },
    {
        match self.entries.get(key)? {
            Some(v) => Ok(v),
            None => match missing {
                Some(m) => Ok(m),
                None => Err(PyExc::KeyError(*key)),
            },
        }
    }

    /// Subscript access, delegating to `inner_getitem`.
    pub fn __getitem__(&self, key: &ObjRef, missing: Option<ObjRef>) -> (r: Result<ObjRef, PyExc>)
        ensures
            r == if !key.hashable {
                Err::<ObjRef, PyExc>(PyExc::TypeError)
            } else {
                match dict_get(self@, *key) {
                    Some(v) => Ok::<ObjRef, PyExc>(v),
                    None => match missing {
                        Some(m) => Ok::<ObjRef, PyExc>(m),
                        None => Err::<ObjRef, PyExc>(PyExc::KeyError(*key)),
                    },
                }
            },
    {
        self.inner_getitem(key, missing)
    }

    /// Item access on an exact dictionary, same contract as `inner_getitem`.
    pub fn get_item(&self, key: &ObjRef, missing: Option<ObjRef>) -> (r: Result<ObjRef, PyExc>)
        ensures
            r == if !key.hashable {
                Err::<ObjRef, PyExc>(PyExc::TypeError)
            } else {
                match dict_get(self@, *key) {
                    Some(v) => Ok::<ObjRef, PyExc>(v),
                    None => match missing {
                        Some(m) => Ok::<ObjRef, PyExc>(m),
                        None => Err::<ObjRef, PyExc>(PyExc::KeyError(*key)),
                    },
                }
            },
    {
        self.inner_getitem(key, missing)
    }

    /// The value under `key`, inserting `default` first when absent.
    pub fn setdefault(&mut self, key: ObjRef, default: ObjRef) -> (r: Result<ObjRef, PyExc>)
        requires
            old(self).wf(),
        ensures
            final(self).wf(),
            if !key.hashable {
                r == Err::<ObjRef, PyExc>(PyExc::TypeError) && final(self)@ == old(self)@
            } else {
                final(self)@ == spec_setdefault(old(self)@, key, default) && r == Ok::<
                    ObjRef,
                    PyExc,
                >(
                    if dict_has_key(old(self)@, key) {
                        dict_get(old(self)@, key).unwrap()
                    } else {
                        default
                    },
                )
            },
    {
        match self.entries.setdefault(key, default) {
            Ok((v, _)) => Ok(v),
            Err(e) => Err(e),
        }
    }

    /// The value under `key`; when `key` is absent the default producer is
    /// invoked exactly once, its result inserted and returned. A present key
    /// never invokes the producer.
    pub fn get_or_insert<F: FnOnce() -> ObjRef>(&mut self, key: ObjRef, default: F) -> (r: Result<
        ObjRef,
        PyExc,
    >)
        requires
            old(self).wf(),
            call_requires(default, ()),
        ensures
            final(self).wf(),
            if !key.hashable {
                r == Err::<ObjRef, PyExc>(PyExc::TypeError) && final(self)@ == old(self)@
            } else {
                match r {
                    Ok(v) => if dict_has_key(old(self)@, key) {
                        v == dict_get(old(self)@, key).unwrap() && final(self)@ == old(self)@
                    } else {
                        call_ensures(default, (), v) && final(self)@ == old(self)@.push((key, v))
                    },
                    Err(_) => false,
                }
            },
    {
        if !key.hashable {
            return Err(PyExc::TypeError);
        }
        match self.entries.get(&key) {
            Ok(Some(v)) => Ok(v),
            Ok(None) => {
                let v = default();
                match self.entries.insert(key, v) {
                    Ok(()) => Ok(v),
                    Err(_) => vstd::pervasive::unreached(),
                }
            },
            Err(_) => vstd::pervasive::unreached(),
        }
    }

    /// Remove the entry under `key` and hand back its value; when absent,
    /// hand back the supplied default, or fail with a key error without one.
    pub fn pop(&mut self, key: ObjRef, default: Option<ObjRef>) -> (r: Result<ObjRef, PyExc>)
        requires
            old(self).wf(),
        ensures
            final(self).wf(),
            final(self).entries.gen() == old(self).entries.gen(),
            if !key.hashable {
                r == Err::<ObjRef, PyExc>(PyExc::TypeError) && final(self)@ == old(self)@
            } else {
                final(self)@ == spec_remove(old(self)@, key) && r == match dict_get(
                    old(self)@,
                    key,
                ) {
                    Some(v) => Ok::<ObjRef, PyExc>(v),
                    None => match default {
                        Some(d) => Ok::<ObjRef, PyExc>(d),
                        None => Err::<ObjRef, PyExc>(PyExc::KeyError(key)),
                    },
                }
            },
    {
        match self.entries.pop(key)? {
            Some(v) => Ok(v),
            None => match default {
                Some(d) => Ok(d),
                None => Err(PyExc::KeyError(key)),
            },
        }
    }

    /// Remove the entry under `key` if present (the exact-dictionary pop).
    pub fn pop_item(&mut self, key: ObjRef) -> (r: Result<Option<ObjRef>, PyExc>)
        requires
            old(self).wf(),
        ensures
            final(self).wf(),
            if !key.hashable {
                r == Err::<Option<ObjRef>, PyExc>(PyExc::TypeError) && final(self)@ == old(self)@
            } else {
                r == Ok::<Option<ObjRef>, PyExc>(dict_get(old(self)@, key)) && final(self)@
                    == spec_remove(old(self)@, key)
            },
    {
        self.entries.pop(key)
    }

    /// Remove and return the last-inserted surviving entry; on an empty
    /// dictionary this is a key error with a fixed message.
    pub fn popitem(&mut self) -> (r: Result<(ObjRef, ObjRef), PyExc>)
        requires
            old(self).wf(),
        ensures
            final(self).wf(),
            match r {
                Ok(e) => old(self)@.len() > 0 && e == old(self)@.last() && final(self)@ == old(
                    self,
                )@.drop_last(),
                Err(e) => e == PyExc::KeyErrorEmptyDict && old(self)@.len() == 0 && final(self)@
                    == old(self)@,
            },
    {
        match self.entries.pop_back() {
            Some(e) => Ok(e),
            None => Err(PyExc::KeyErrorEmptyDict),
        }
    }

    /// The value under `key` in `self`, or failing that in `other`.
    pub fn get_chain(&self, other: &PyDict, key: &ObjRef) -> (r: Result<Option<ObjRef>, PyExc>)
        ensures
            r == if key.hashable {
                Ok::<Option<ObjRef>, PyExc>(
                    if dict_has_key(self@, *key) {
                        dict_get(self@, *key)
                    } else {
                        dict_get(other@, *key)
                    },
                )
            } else {
                Err::<Option<ObjRef>, PyExc>(PyExc::TypeError)
            },
    {
        self.entries.get_chain(&other.entries, key)
    }

    /// An entry-for-entry copy with the same signature.
    pub fn copy(&self) -> (d: PyDict)
        ensures
            d@ == self@,
            d.entries.gen() == self.entries.gen(),
            self.wf() ==> d.wf(),
    {
        PyDict { entries: self.entries.duplicate() }
    }

    /// The entries in insertion order, for conversion to an attribute table.
    pub fn to_attributes(&self) -> (r: Vec<(ObjRef, ObjRef)>)
        ensures
            r@ == self@,
    {
        self.entries.to_pairs()
    }

    /// A dictionary built from an attribute table's entries, in order.
    pub fn from_attributes(attrs: &Vec<(ObjRef, ObjRef)>) -> (r: Result<PyDict, PyExc>)
        ensures
            ({
                let m = spec_merge_typed(Seq::<(ObjRef, ObjRef)>::empty(), attrs@);
                match r {
                    Ok(d) => m.1 is None && d@ == m.0 && d.wf(),
                    Err(e) => m.1 == Some(e),
                }
            }),
    {
        let mut d = PyDict::new_ref();
        d.merge_typed_pairs(attrs)?;
        Ok(d)
    }

    /// A dictionary mapping every key of `keys` to the one supplied value.
    pub fn fromkeys(keys: &Vec<ObjRef>, value: ObjRef) -> (r: Result<PyDict, PyExc>)
        ensures
            ({
                let m = spec_merge_typed(
                    Seq::<(ObjRef, ObjRef)>::empty(),
                    pairs_of_keys(keys@, value),
                );
                match r {
                    Ok(d) => m.1 is None && d@ == m.0 && d.wf(),
                    Err(e) => m.1 == Some(e),
                }
            }),
    {
        let ghost ps = pairs_of_keys(keys@, value);
        let mut d = PyDict::new_ref();
        let n = keys.len();
        let mut j: usize = 0;
        proof {
            assert(ps.skip(0) =~= ps);
        }
        while j < n
            invariant
                0 <= j <= n,
                n == keys@.len(),
                ps == pairs_of_keys(keys@, value),
                d.wf(),
                spec_merge_typed(Seq::<(ObjRef, ObjRef)>::empty(), ps) == spec_merge_typed(
                    d@,
                    ps.skip(j as int),
                ),
            decreases n - j,
        {
            let ghost before = d@;
            let k = keys[j];
            proof {
                assert(ps.skip(j as int)[0] == ps[j as int]);
            }
            match d.entries.insert(k, value) {
                Ok(()) => {
                    proof {
                        assert(ps.skip(j as int).drop_first() =~= ps.skip(j + 1 as int));
                    }
                },
                Err(e) => {
                    proof {
                        assert(spec_merge_typed(before, ps.skip(j as int)).1 == Some(
                            PyExc::TypeError,
                        ));
                    }
                    return Err(e);
                },
            }
            j = j + 1;
        }
        proof {
            assert(ps.skip(n as int) =~= Seq::<(ObjRef, ObjRef)>::empty());
        }
        Ok(d)
    }

    /// Merge a vector of typed pairs into `self`, left to right.
    fn merge_typed_pairs(&mut self, ps: &Vec<(ObjRef, ObjRef)>) -> (r: Result<(), PyExc>)
        requires
            old(self).wf(),
        ensures
            final(self).wf(),
            ({
                let m = spec_merge_typed(old(self)@, ps@);
                final(self)@ == m.0 && match r {
                    Ok(()) => m.1 is None,
                    Err(e) => m.1 == Some(e),
                }
            }),
    {
        let n = ps.len();
        let mut j: usize = 0;
        proof {
            assert(ps@.skip(0) =~= ps@);
        }
        while j < n
            invariant
                0 <= j <= n,
                n == ps@.len(),
                self.wf(),
                spec_merge_typed(old(self)@, ps@) == spec_merge_typed(self@, ps@.skip(j as int)),
            decreases n - j,
        {
            let ghost before = self@;
            let e = ps[j];
            proof {
                assert(ps@.skip(j as int)[0] == ps@[j as int]);
            }
            match self.entries.insert(e.0, e.1) {
                Ok(()) => {
                    proof {
                        assert(ps@.skip(j as int).drop_first() =~= ps@.skip(j + 1 as int));
                    }
                },
                Err(err) => {
                    proof {
                        assert(spec_merge_typed(before, ps@.skip(j as int)).1 == Some(
                            PyExc::TypeError,
                        ));
                    }
                    return Err(err);
                },
            }
            j = j + 1;
        }
        proof {
            assert(ps@.skip(n as int) =~= Seq::<(ObjRef, ObjRef)>::empty());
        }
        Ok(())
    }

    /// Copy every entry of another dictionary into `self`, in the source's
    /// iteration order. A source that mutates during the copy would be a
    /// runtime error; exclusive access makes that check provably inert here.
    pub fn merge_dict(&mut self, other: &PyDict) -> (r: Result<(), PyExc>)
        requires
            old(self).wf(),
            other.wf(),
        ensures
            final(self).wf(),
            r == Ok::<(), PyExc>(()),
            final(self)@ == spec_merge_typed(old(self)@, other@).0,
    {
        proof {
            lemma_merge_typed_ok(old(self)@, other@);
        }
        let captured = other.entries.size();
        let n = other.entries.len();
        let mut j: usize = 0;
        proof {
            assert(other@.skip(0) =~= other@);
        }
        while j < n
            invariant
                0 <= j <= n,
                n == other@.len(),
                self.wf(),
                other.wf(),
                spec_merge_typed(old(self)@, other@) == spec_merge_typed(
                    self@,
                    other@.skip(j as int),
                ),
            decreases n - j,
        {
            match other.entries.next_entry(j) {
                Some((_, k, v)) => {
                    proof {
                        assert(other@.skip(j as int)[0] == other@[j as int]);
                        assert(other@[j as int].0.hashable);
                    }
                    match self.entries.insert(k, v) {
                        Ok(()) => {
                            proof {
                                assert(other@.skip(j as int).drop_first() =~= other@.skip(
                                    j + 1 as int,
                                ));
                            }
                        },
                        Err(_) => {
                            return vstd::pervasive::unreached();
                        },
                    }
                },
                None => {
                    return vstd::pervasive::unreached();
                },
            }
            j = j + 1;
        }
        proof {
            assert(other@.skip(n as int) =~= Seq::<(ObjRef, ObjRef)>::empty());
        }
        if other.entries.has_changed_size(&captured) {
            return Err(PyExc::RuntimeMutatedDuringUpdate);
        }
        Ok(())
    }

    /// Merge a source object into `self`: another dictionary is copied in
    /// its iteration order; a keyed object is walked through its keys, each
    /// value fetched by item lookup; a plain iterable must yield pairs of
    /// exactly two values.
    pub fn merge_object(&mut self, other: &MergeSource) -> (r: Result<(), PyExc>)
        requires
            old(self).wf(),
            match *other {
                MergeSource::Dict(ref d) => d.wf(),
                MergeSource::Keyed(ref d) => d.wf(),
                MergeSource::Pairs(_) => true,
            },
        ensures
            final(self).wf(),
            ({
                let m = spec_merge_source(old(self)@, *other);
                final(self)@ == m.0 && match r {
                    Ok(()) => m.1 is None,
                    Err(e) => m.1 == Some(e),
                }
            }),
    {
        proof {
            match *other {
                MergeSource::Dict(ref d) => lemma_merge_typed_ok(old(self)@, d@),
                MergeSource::Keyed(ref d) => lemma_merge_typed_ok(old(self)@, d@),
                MergeSource::Pairs(_) => {},
            }
        }
        match other {
            MergeSource::Dict(d) => self.merge_dict(d),
            MergeSource::Keyed(d) => self.merge_keyed(d),
            MergeSource::Pairs(ps) => self.merge_plain_pairs(ps),
        }
    }

    /// Merge a keyed source: iterate its keys and fetch each value by item
    /// lookup.
    fn merge_keyed(&mut self, other: &PyDict) -> (r: Result<(), PyExc>)
        requires
            old(self).wf(),
            other.wf(),
        ensures
            final(self).wf(),
            r == Ok::<(), PyExc>(()),
            final(self)@ == spec_merge_typed(old(self)@, other@).0,
    {
        proof {
            lemma_merge_typed_ok(old(self)@, other@);
        }
        let n = other.entries.len();
        let mut j: usize = 0;
        proof {
            assert(other@.skip(0) =~= other@);
        }
        while j < n
            invariant
                0 <= j <= n,
                n == other@.len(),
                self.wf(),
                other.wf(),
                spec_merge_typed(old(self)@, other@) == spec_merge_typed(
                    self@,
                    other@.skip(j as int),
                ),
            decreases n - j,
        {
            match other.entries.next_entry(j) {
                Some((_, k, _)) => {
                    proof {
                        assert(other@.skip(j as int)[0] == other@[j as int]);
                        assert(other@[j as int].0.hashable);
                        crate::dict_inner::lemma_find_from_props(other@, k, 0);
                        if dict_find(other@, k) != Some(j as int) {
                            let m = dict_find(other@, k).unwrap();
                            assert(crate::obj::key_match(other@[m].0, other@[j as int].0));
                        }
                    }
                    let v = match other.entries.get(&k) {
                        Ok(Some(v)) => v,
                        _ => {
                            return vstd::pervasive::unreached();
                        },
                    };
                    match self.entries.insert(k, v) {
                        Ok(()) => {
                            proof {
                                assert(other@.skip(j as int).drop_first() =~= other@.skip(
                                    j + 1 as int,
                                ));
                            }
                        },
                        Err(_) => {
                            return vstd::pervasive::unreached();
                        },
                    }
                },
                None => {
                    return vstd::pervasive::unreached();
                },
            }
            j = j + 1;
        }
        proof {
            assert(other@.skip(n as int) =~= Seq::<(ObjRef, ObjRef)>::empty());
        }
        Ok(())
    }

    /// Merge a plain iterable of pair iterables: every element must hold
    /// exactly two values.
    fn merge_plain_pairs(&mut self, ps: &Vec<Vec<ObjRef>>) -> (r: Result<(), PyExc>)
        requires
            old(self).wf(),
        ensures
            final(self).wf(),
            ({
                let m = spec_merge_pairs(old(self)@, ps@.map_values(|p: Vec<ObjRef>| p@));
                final(self)@ == m.0 && match r {
                    Ok(()) => m.1 is None,
                    Err(e) => m.1 == Some(e),
                }
            }),
    {
        let ghost mapped = ps@.map_values(|p: Vec<ObjRef>| p@);
        let n = ps.len();
        let mut j: usize = 0;
        proof {
            assert(mapped.skip(0) =~= mapped);
        }
        while j < n
            invariant
                0 <= j <= n,
                n == ps@.len(),
                mapped == ps@.map_values(|p: Vec<ObjRef>| p@),
                self.wf(),
                spec_merge_pairs(old(self)@, mapped) == spec_merge_pairs(
                    self@,
                    mapped.skip(j as int),
                ),
            decreases n - j,
        {
            let ghost before = self@;
            let e = &ps[j];
            proof {
                assert(mapped.skip(j as int)[0] == mapped[j as int]);
                assert(mapped[j as int] == ps@[j as int]@);
            }
            if e.len() != 2 {
                proof {
                    assert(spec_merge_pairs(before, mapped.skip(j as int)).1 == Some(
                        PyExc::ValueError,
                    ));
                }
                return Err(PyExc::ValueError);
            }
            let k = e[0];
            let v = e[1];
            match self.entries.insert(k, v) {
                Ok(()) => {
                    proof {
                        assert(mapped.skip(j as int).drop_first() =~= mapped.skip(j + 1 as int));
                    }
                },
                Err(err) => {
                    proof {
                        assert(spec_merge_pairs(before, mapped.skip(j as int)).1 == Some(
                            PyExc::TypeError,
                        ));
                    }
                    return Err(err);
                },
            }
            j = j + 1;
        }
        proof {
            assert(mapped.skip(n as int) =~= Seq::<Seq<ObjRef>>::empty());
        }
        Ok(())
    }

    /// Merge an optional source and then the keyword arguments, in order.
    pub fn update(&mut self, dict_obj: Option<&MergeSource>, kwargs: &Vec<(ObjRef, ObjRef)>) -> (r:
        Result<(), PyExc>)
        requires
            old(self).wf(),
            match dict_obj {
                Some(src) => match *src {
                    MergeSource::Dict(ref d) => d.wf(),
                    MergeSource::Keyed(ref d) => d.wf(),
                    MergeSource::Pairs(_) => true,
                },
                None => true,
            },
        ensures
            final(self).wf(),
            ({
                let m = spec_update(
                    old(self)@,
                    match dict_obj {
                        Some(src) => Some(*src),
                        None => None,
                    },
                    kwargs@,
                );
                final(self)@ == m.0 && match r {
                    Ok(()) => m.1 is None,
                    Err(e) => m.1 == Some(e),
                }
            }),
    {
        if let Some(src) = dict_obj {
            self.merge_object(src)?;
        }
        self.merge_typed_pairs(kwargs)
    }

    /// The union of two dictionaries: a copy of `self` with `other` merged
    /// on top.
    pub fn __or__(&self, other: &PyDict) -> (r: Result<PyDict, PyExc>)
        requires
            self.wf(),
            other.wf(),
        ensures
            match r {
                Ok(d) => d.wf() && d@ == spec_merge_typed(self@, other@).0,
                Err(_) => false,
            },
    {
        let mut cp = self.copy();
        cp.merge_dict(other)?;
        Ok(cp)
    }

    /// In-place union: merge a source into `self` (the receiver is the
    /// result).
    pub fn __ior__(&mut self, other: &MergeSource) -> (r: Result<(), PyExc>)
        requires
            old(self).wf(),
            match *other {
                MergeSource::Dict(ref d) => d.wf(),
                MergeSource::Keyed(ref d) => d.wf(),
                MergeSource::Pairs(_) => true,
            },
        ensures
            final(self).wf(),
            ({
                let m = spec_merge_source(old(self)@, *other);
                final(self)@ == m.0 && match r {
                    Ok(()) => m.1 is None,
                    Err(e) => m.1 == Some(e),
                }
            }),
    {
        self.merge_object(other)
    }

    /// The reflected union: a copy of `other` with `self` merged on top.
    pub fn __ror__(&self, other: &PyDict) -> (r: Result<PyDict, PyExc>)
        requires
            self.wf(),
            other.wf(),
        ensures
            match r {
                Ok(d) => d.wf() && d@ == spec_merge_typed(other@, self@).0,
                Err(_) => false,
            },
    {
        let mut cp = other.copy();
        cp.merge_dict(self)?;
        Ok(cp)
    }

    /// Rich comparison of two dictionaries: the lengths must order as the
    /// operator asks and the smaller operand's entries must all be
    /// accounted for in the larger one; for item comparisons the values
    /// must be identical or value-equal.
    pub fn inner_cmp(&self, other: &PyDict, op: CmpOp, item: bool) -> (r: bool)
        requires
            self.wf(),
            other.wf(),
        ensures
            r == spec_inner_cmp(self@, other@, op, item),
    {
        let negate = match op {
            CmpOp::Ne => true,
            _ => false,
        };
        let base_op = if negate {
            CmpOp::Eq
        } else {
            op
        };
        let lens_ok = eval_ord(base_op, self.__len__(), other.__len__());
        let result = if !lens_ok {
            false
        } else if self.__len__() < other.__len__() {
            dict_subset_exec(self, other, item)
        } else {
            dict_subset_exec(other, self, item)
        };
        if negate {
            !result
        } else {
            result
        }
    }

    /// Equality-only comparison, the dictionary's comparison surface:
    /// operators other than equality and inequality are not implemented.
    pub fn cmp(&self, other: &PyDict, op: CmpOp) -> (r: Option<bool>)
        requires
            self.wf(),
            other.wf(),
        ensures
            r == match op {
                CmpOp::Eq | CmpOp::Ne => Some(spec_inner_cmp(self@, other@, op, true)),
                _ => None::<bool>,
            },
    {
        match op {
            CmpOp::Eq | CmpOp::Ne => Some(self.inner_cmp(other, op, true)),
            _ => None,
        }
    }
}

/// How a comparison operator reads the ordering of two lengths.
fn eval_ord(op: CmpOp, a: usize, b: usize) -> (r: bool)
    ensures
        r == spec_len_ord(op, a as int, b as int),
{
    match op {
        CmpOp::Lt => a < b,
        CmpOp::Le => a <= b,
        CmpOp::Eq => a == b,
        CmpOp::Ne => a != b,
        CmpOp::Ge => a >= b,
        CmpOp::Gt => a > b,
    }
}

/// Whether every entry of `sub` is accounted for in `sup`.
fn dict_subset_exec(sub: &PyDict, sup: &PyDict, item: bool) -> (r: bool)
    requires
        sub.wf(),
        sup.wf(),
    ensures
        r == dict_subset(sub@, sup@, item),
{
    let n = sub.entries.len();
    let mut j: usize = 0;
    while j < n
        invariant
            0 <= j <= n,
            n == sub@.len(),
            sub.wf(),
            sup.wf(),
            forall|m: int| 0 <= m < j ==> entry_ok(sup@, #[trigger] sub@[m], item),
        decreases n - j,
    {
        match sub.entries.next_entry(j) {
            Some((_, k, v1)) => {
                proof {
                    assert(sub@[j as int].0.hashable);
                }
                match sup.entries.get(&k) {
                    Ok(Some(v2)) => {
                        if item && !crate::obj::obj_eq_exec(&v1, &v2) {
                            proof {
                                assert(!entry_ok(sup@, sub@[j as int], item));
                            }
                            return false;
                        }
                    },
                    Ok(None) => {
                        proof {
                            assert(!entry_ok(sup@, sub@[j as int], item));
                        }
                        return false;
                    },
                    Err(_) => {
                        return vstd::pervasive::unreached();
                    },
                }
            },
            None => {
                return vstd::pervasive::unreached();
            },
        }
        j = j + 1;
    }
    true
}

/// A consuming entry iterator over a dictionary, for embedding-side use.
pub struct DictIntoIter {
    pub dict: PyDict,
    pub position: usize,
}

impl DictIntoIter {
    /// A fresh iterator owning the dictionary.
    pub fn new(dict: PyDict) -> (r: DictIntoIter)
        ensures
            r.dict == dict,
            r.position == 0,
    {
        DictIntoIter { dict, position: 0 }
    }

    /// The next entry in insertion order, if any.
    pub fn next(&mut self) -> (r: Option<(ObjRef, ObjRef)>)
        ensures
            final(self).dict == old(self).dict,
            match r {
                Some(e) => old(self).position < old(self).dict@.len() && e == old(
                    self,
                ).dict@[old(self).position as int] && final(self).position == old(self).position
                    + 1,
                None => old(self).position >= old(self).dict@.len() && final(self).position == old(
                    self,
                ).position,
            },
    {
        match self.dict.entries.next_entry(self.position) {
            Some((next, k, v)) => {
                self.position = next;
                Some((k, v))
            },
            None => None,
        }
    }

    /// How many entries remain.
    pub fn len(&self) -> (r: usize)
        ensures
            r == if self.position < self.dict@.len() {
                self.dict@.len() - self.position
            } else {
                0int
            },
    {
        self.dict.entries.len_from_entry_index(self.position)
    }
}

/// A borrowing entry iterator over a dictionary, for embedding-side use.
pub struct DictIter<'a> {
    pub dict: &'a PyDict,
    pub position: usize,
}

impl<'a> DictIter<'a> {
    /// A fresh iterator borrowing the dictionary.
    pub fn new(dict: &'a PyDict) -> (r: DictIter<'a>)
        ensures
            r.dict == dict,
            r.position == 0,
    {
        DictIter { dict, position: 0 }
    }

    /// The next entry in insertion order, if any.
    pub fn next(&mut self) -> (r: Option<(ObjRef, ObjRef)>)
        ensures
            final(self).dict == old(self).dict,
            match r {
                Some(e) => old(self).position < old(self).dict@.len() && e == old(
                    self,
                ).dict@[old(self).position as int] && final(self).position == old(self).position
                    + 1,
                None => old(self).position >= old(self).dict@.len() && final(self).position == old(
                    self,
                ).position,
            },
    {
        match self.dict.entries.next_entry(self.position) {
            Some((next, k, v)) => {
                self.position = next;
                Some((k, v))
            },
            None => None,
        }
    }

    /// How many entries remain.
    pub fn len(&self) -> (r: usize)
        ensures
            r == if self.position < self.dict@.len() {
                self.dict@.len() - self.position
            } else {
                0int
            },
    {
        self.dict.entries.len_from_entry_index(self.position)
    }
}

} // verus!

//! Live views over a dictionary (keys / values / items), their forward and
//! reverse iterators with mutation detection, and the set algebra on
//! materialized key and item views.
//!
//! The view kinds share one generic component parameterized by the
//! projection, instead of one copy of the logic per kind. A view does not
//! own the dictionary: the dictionary is handed to each operation, and the
//! operation reads its current state.

use vstd::prelude::*;

use crate::dict::PyDict;
use crate::dict::spec_inner_cmp;
use crate::dict_inner::DictSize;
use crate::dict_inner::dict_find;
use crate::dict_inner::dict_has_key;
use crate::iter::IterStatus;
use crate::iter::PositionIterInternal;
use crate::obj::ObjRef;
use crate::obj::CmpOp;
use crate::obj::PyExc;
use crate::obj::PyIterReturn;
use crate::obj::key_match;
use crate::obj::obj_eq;

verus! {

/// The discriminator of a dictionary view.
#[derive(Clone, Copy, PartialEq, Eq, Structural, Debug)]
pub enum ViewKind {
    Keys,
    Values,
    Items,
}

/// One element produced by a view: a key, a value, or a (key, value) pair.
#[derive(Clone, Copy, PartialEq, Eq, Structural, Debug)]
pub enum ViewElem {
    Key(ObjRef),
    Value(ObjRef),
    Pair(ObjRef, ObjRef),
}

/// The projection a view applies to one entry.
pub open spec fn project_spec(kind: ViewKind, k: ObjRef, v: ObjRef) -> ViewElem {
    match kind {
        ViewKind::Keys => ViewElem::Key(k),
        ViewKind::Values => ViewElem::Value(v),
        ViewKind::Items => ViewElem::Pair(k, v),
    }
}

/// The sequence a view currently projects from the dictionary's entries.
pub open spec fn view_seq(s: Seq<(ObjRef, ObjRef)>, kind: ViewKind) -> Seq<ViewElem> {
    Seq::new(s.len(), |i: int| project_spec(kind, s[i].0, s[i].1))
}

/// Element equality of view elements, mirroring the dictionary's
/// identity-then-value rule: keys match as dictionary keys do; item pairs
/// additionally compare values by identity or value equality.
pub open spec fn elem_eq(a: ViewElem, b: ViewElem) -> bool {
    match (a, b) {
        (ViewElem::Key(x), ViewElem::Key(y)) => key_match(x, y),
        (ViewElem::Value(x), ViewElem::Value(y)) => obj_eq(x, y),
        (ViewElem::Pair(k1, v1), ViewElem::Pair(k2, v2)) => key_match(k1, k2) && obj_eq(v1, v2),
        _ => false,
    }
}

/// Whether some element of `s` equals `x`.
pub open spec fn elem_in(s: Seq<ViewElem>, x: ViewElem) -> bool {
    exists|i: int| 0 <= i < s.len() && elem_eq(#[trigger] s[i], x)
}

/// No two elements of `s` are equal: `s` is a set.
pub open spec fn elems_unique(s: Seq<ViewElem>) -> bool {
    forall|i: int, j: int| 0 <= i < j < s.len() ==> !elem_eq(#[trigger] s[i], #[trigger] s[j])
}

/// The elements of `a` whose membership in `b` is `keep_in`, in `a`'s
/// order: the intersection for `true`, the difference for `false`.
pub open spec fn spec_filter_in(a: Seq<ViewElem>, b: Seq<ViewElem>, keep_in: bool) -> Seq<ViewElem>
    decreases a.len(),
{
    if a.len() == 0 {
        Seq::empty()
    } else {
        let rest = spec_filter_in(a.drop_last(), b, keep_in);
        if elem_in(b, a.last()) == keep_in {
            rest.push(a.last())
        } else {
            rest
        }
    }
}

/// `s` extended with the elements of `t`, left to right, skipping any that
/// are already present: the set union.
pub open spec fn spec_set_extend(s: Seq<ViewElem>, t: Seq<ViewElem>) -> Seq<ViewElem>
    decreases t.len(),
{
    if t.len() == 0 {
        s
    } else {
        let s2 = if elem_in(s, t[0]) {
            s
        } else {
            s.push(t[0])
        };
        spec_set_extend(s2, t.drop_first())
    }
}

/// `acc` extended with the elements of `b` that are neither in `a` nor
/// already accumulated: the right half of a symmetric difference.
pub open spec fn spec_symdiff_rest(acc: Seq<ViewElem>, a: Seq<ViewElem>, b: Seq<ViewElem>) -> Seq<
    ViewElem,
>
    decreases b.len(),
{
    if b.len() == 0 {
        acc
    } else {
        let acc2 = if !elem_in(a, b[0]) && !elem_in(acc, b[0]) {
            acc.push(b[0])
        } else {
            acc
        };
        spec_symdiff_rest(acc2, a, b.drop_first())
    }
}

/// A view materialized as a set: its projected elements, deduplicated.
pub open spec fn view_set(s: Seq<(ObjRef, ObjRef)>, kind: ViewKind) -> Seq<ViewElem> {
    spec_set_extend(Seq::<ViewElem>::empty(), view_seq(s, kind))
}

/// Every element of `a` is an element of `b`.
pub open spec fn spec_set_subset(a: Seq<ViewElem>, b: Seq<ViewElem>) -> bool {
    forall|i: int| 0 <= i < a.len() ==> elem_in(b, #[trigger] a[i])
}

/// Set comparison by subset semantics, with strictness read off the
/// lengths of the two (deduplicated) operands.
pub open spec fn spec_set_cmp(a: Seq<ViewElem>, b: Seq<ViewElem>, op: CmpOp) -> bool {
    match op {
        CmpOp::Lt => a.len() < b.len() && spec_set_subset(a, b),
        CmpOp::Le => spec_set_subset(a, b),
        CmpOp::Eq => a.len() == b.len() && spec_set_subset(a, b),
        CmpOp::Ne => !(a.len() == b.len() && spec_set_subset(a, b)),
        CmpOp::Ge => spec_set_subset(b, a),
        CmpOp::Gt => b.len() < a.len() && spec_set_subset(b, a),
    }
}

/// Executable element equality.
pub fn elem_eq_exec(a: &ViewElem, b: &ViewElem) -> (r: bool)
    ensures
        r == elem_eq(*a, *b),
{
    match (a, b) {
        (ViewElem::Key(x), ViewElem::Key(y)) => crate::obj::key_match_exec(x, y),
        (ViewElem::Value(x), ViewElem::Value(y)) => crate::obj::obj_eq_exec(x, y),
        (ViewElem::Pair(k1, v1), ViewElem::Pair(k2, v2)) => crate::obj::key_match_exec(k1, k2)
            && crate::obj::obj_eq_exec(v1, v2),
        _ => false,
    }
}

/// Executable membership test.
pub fn elem_in_exec(s: &Vec<ViewElem>, x: &ViewElem) -> (r: bool)
    ensures
        r == elem_in(s@, *x),
{
    let n = s.len();
    let mut j: usize = 0;
    while j < n
        invariant
            0 <= j <= n,
            n == s@.len(),
            forall|m: int| 0 <= m < j ==> !elem_eq(#[trigger] s@[m], *x),
        decreases n - j,
    {
        if elem_eq_exec(&s[j], x) {
            return true;
        }
        j = j + 1;
    }
    false
}

/// The executable projection.
pub fn project(kind: ViewKind, k: ObjRef, v: ObjRef) -> (r: ViewElem)
    ensures
        r == project_spec(kind, k, v),
{
    match kind {
        ViewKind::Keys => ViewElem::Key(k),
        ViewKind::Values => ViewElem::Value(v),
        ViewKind::Items => ViewElem::Pair(k, v),
    }
}

/// Deduplicate an iterable into a set, keeping first occurrences in order.
pub fn set_from_elems(v: &Vec<ViewElem>) -> (r: Vec<ViewElem>)
    ensures
        r@ == spec_set_extend(Seq::<ViewElem>::empty(), v@),
        elems_unique(r@),
{
    let ghost t = v@;
    let mut acc: Vec<ViewElem> = Vec::new();
    let n = v.len();
    let mut j: usize = 0;
    proof {
        assert(t.skip(0) =~= t);
    }
    while j < n
        invariant
            0 <= j <= n,
            n == t.len(),
            t == v@,
            elems_unique(acc@),
            spec_set_extend(Seq::<ViewElem>::empty(), t) == spec_set_extend(acc@, t.skip(j as int)),
        decreases n - j,
    {
        proof {
            assert(t.skip(j as int)[0] == t[j as int]);
            assert(t.skip(j as int).drop_first() =~= t.skip(j + 1 as int));
        }
        let e = v[j];
        if !elem_in_exec(&acc, &e) {
            let ghost before = acc@;
            acc.push(e);
            proof {
                assert forall|x: int, y: int| 0 <= x < y < acc@.len() implies !elem_eq(
                    #[trigger] acc@[x],
                    #[trigger] acc@[y],
                ) by {
                    if y < before.len() {
                        assert(acc@[x] == before[x]);
                        assert(acc@[y] == before[y]);
                    } else {
                        assert(acc@[x] == before[x]);
                        assert(acc@[y] == e);
                    }
                }
            }
        }
        j = j + 1;
    }
    proof {
        assert(t.skip(n as int) =~= Seq::<ViewElem>::empty());
    }
    acc
}

/// The elements of `a` that are in `b` (`keep_in` true) or not in `b`
/// (`keep_in` false), in `a`'s order.
fn filter_in(a: &Vec<ViewElem>, b: &Vec<ViewElem>, keep_in: bool) -> (r: Vec<ViewElem>)
    ensures
        r@ == spec_filter_in(a@, b@, keep_in),
{
    let mut acc: Vec<ViewElem> = Vec::new();
    let n = a.len();
    let mut j: usize = 0;
    proof {
        assert(a@.subrange(0, 0) =~= Seq::<ViewElem>::empty());
    }
    while j < n
        invariant
            0 <= j <= n,
            n == a@.len(),
            acc@ == spec_filter_in(a@.subrange(0, j as int), b@, keep_in),
        decreases n - j,
    {
        let e = a[j];
        proof {
            let pre = a@.subrange(0, j + 1 as int);
            assert(pre.drop_last() =~= a@.subrange(0, j as int));
            assert(pre.last() == a@[j as int]);
        }
        if elem_in_exec(b, &e) == keep_in {
            acc.push(e);
        }
        j = j + 1;
    }
    proof {
        assert(a@.subrange(0, n as int) =~= a@);
    }
    acc
}

/// Set intersection: the elements of `a` that are also in `b`, in `a`'s
/// order.
pub fn set_intersection(a: &Vec<ViewElem>, b: &Vec<ViewElem>) -> (r: Vec<ViewElem>)
    ensures
        r@ == spec_filter_in(a@, b@, true),
{
    filter_in(a, b, true)
}

/// Set difference: the elements of `a` that are not in `b`, in `a`'s order.
pub fn set_difference(a: &Vec<ViewElem>, b: &Vec<ViewElem>) -> (r: Vec<ViewElem>)
    ensures
        r@ == spec_filter_in(a@, b@, false),
{
    filter_in(a, b, false)
}

/// Set union: `a` followed by the elements of `b` not already present.
pub fn set_union(a: &Vec<ViewElem>, b: &Vec<ViewElem>) -> (r: Vec<ViewElem>)
    ensures
        r@ == spec_set_extend(a@, b@),
{
    let ghost t = b@;
    let mut acc: Vec<ViewElem> = Vec::new();
    let mut j: usize = 0;
    let na = a.len();
    let mut i: usize = 0;
    while i < na
        invariant
            0 <= i <= na,
            na == a@.len(),
            acc@ =~= a@.subrange(0, i as int),
        decreases na - i,
    {
        acc.push(a[i]);
        proof {
            assert(acc@ =~= a@.subrange(0, i + 1 as int));
        }
        i = i + 1;
    }
    proof {
        assert(acc@ =~= a@);
        assert(t.skip(0) =~= t);
    }
    let nb = b.len();
    while j < nb
        invariant
            0 <= j <= nb,
            nb == t.len(),
            t == b@,
            spec_set_extend(a@, t) == spec_set_extend(acc@, t.skip(j as int)),
        decreases nb - j,
    {
        proof {
            assert(t.skip(j as int)[0] == t[j as int]);
            assert(t.skip(j as int).drop_first() =~= t.skip(j + 1 as int));
        }
        let e = b[j];
        if !elem_in_exec(&acc, &e) {
            acc.push(e);
        }
        j = j + 1;
    }
    proof {
        assert(t.skip(nb as int) =~= Seq::<ViewElem>::empty());
    }
    acc
}

/// Set symmetric difference: the elements of `a` not in `b`, followed by
/// the elements of `b` not in `a`, deduplicated.
pub fn set_symmetric_difference(a: &Vec<ViewElem>, b: &Vec<ViewElem>) -> (r: Vec<ViewElem>)
    ensures
        r@ == spec_symdiff_rest(spec_filter_in(a@, b@, false), a@, b@),
{
    let ghost t = b@;
    let mut acc = filter_in(a, b, false);
    let nb = b.len();
    let mut j: usize = 0;
    proof {
        assert(t.skip(0) =~= t);
    }
    while j < nb
        invariant
            0 <= j <= nb,
            nb == t.len(),
            t == b@,
            spec_symdiff_rest(spec_filter_in(a@, b@, false), a@, t) == spec_symdiff_rest(
                acc@,
                a@,
                t.skip(j as int),
            ),
        decreases nb - j,
    {
        proof {
            assert(t.skip(j as int)[0] == t[j as int]);
            assert(t.skip(j as int).drop_first() =~= t.skip(j + 1 as int));
        }
        let e = b[j];
        if !elem_in_exec(a, &e) && !elem_in_exec(&acc, &e) {
            acc.push(e);
        }
        j = j + 1;
    }
    proof {
        assert(t.skip(nb as int) =~= Seq::<ViewElem>::empty());
    }
    acc
}

/// Disjointness: no element of `a` is an element of `b`.
pub fn set_isdisjoint(a: &Vec<ViewElem>, b: &Vec<ViewElem>) -> (r: bool)
    ensures
        r == (forall|i: int| 0 <= i < a@.len() ==> !elem_in(b@, #[trigger] a@[i])),
{
    let n = a.len();
    let mut j: usize = 0;
    while j < n
        invariant
            0 <= j <= n,
            n == a@.len(),
            forall|m: int| 0 <= m < j ==> !elem_in(b@, #[trigger] a@[m]),
        decreases n - j,
    {
        if elem_in_exec(b, &a[j]) {
            return false;
        }
        j = j + 1;
    }
    true
}

/// Subset test: every element of `a` is an element of `b`.
pub fn set_subset(a: &Vec<ViewElem>, b: &Vec<ViewElem>) -> (r: bool)
    ensures
        r == spec_set_subset(a@, b@),
{
    let n = a.len();
    let mut j: usize = 0;
    while j < n
        invariant
            0 <= j <= n,
            n == a@.len(),
            forall|m: int| 0 <= m < j ==> elem_in(b@, #[trigger] a@[m]),
        decreases n - j,
    {
        if !elem_in_exec(b, &a[j]) {
            return false;
        }
        j = j + 1;
    }
    true
}

/// Set comparison by subset semantics.
pub fn set_cmp(a: &Vec<ViewElem>, b: &Vec<ViewElem>, op: CmpOp) -> (r: bool)
    ensures
        r == spec_set_cmp(a@, b@, op),
{
    match op {
        CmpOp::Lt => a.len() < b.len() && set_subset(a, b),
        CmpOp::Le => set_subset(a, b),
        CmpOp::Eq => a.len() == b.len() && set_subset(a, b),
        CmpOp::Ne => !(a.len() == b.len() && set_subset(a, b)),
        CmpOp::Ge => set_subset(b, a),
        CmpOp::Gt => b.len() < a.len() && set_subset(b, a),
    }
}

/// An iterator over one projection of a dictionary, forward or reverse.
/// The size signature captured at creation is compared against the
/// dictionary's live signature on every step: any size change fails the
/// next step with a runtime error and permanently exhausts the iterator.
pub struct DictViewIter {
    pub kind: ViewKind,
    pub reverse: bool,
    pub size: DictSize,
    pub internal: PositionIterInternal<()>,
}

impl DictViewIter {
    /// Whether the iterator is still active.
    pub open spec fn is_active(&self) -> bool {
        self.internal.status is Active
    }

    /// The current cursor.
    pub open spec fn pos(&self) -> usize {
        self.internal.position
    }

    /// A fresh forward iterator over `dict`'s current state.
    pub fn new(dict: &PyDict, kind: ViewKind) -> (r: DictViewIter)
        ensures
            r.kind == kind,
            !r.reverse,
            r.size == dict.sig(),
            r.is_active(),
            r.pos() == 0,
    {
        DictViewIter {
            kind,
            reverse: false,
            size: dict.size(),
            internal: PositionIterInternal::new((), 0),
        }
    }

    /// A fresh reverse iterator over `dict`'s current state, starting at
    /// the last-inserted surviving entry.
    pub fn new_reversed(dict: &PyDict, kind: ViewKind) -> (r: DictViewIter)
        ensures
            r.kind == kind,
            r.reverse,
            r.size == dict.sig(),
            r.is_active(),
            r.pos() == if dict@.len() > 0 {
                (dict@.len() - 1) as usize
            } else {
                0usize
            },
    {
        let len = dict.__len__();
        let start = if len > 0 {
            len - 1
        } else {
            0
        };
        DictViewIter {
            kind,
            reverse: true,
            size: dict.size(),
            internal: PositionIterInternal::new((), start),
        }
    }

    /// One step. While active: a changed size signature is a runtime error
    /// and exhausts the iterator; otherwise the entry at the cursor is
    /// projected and the cursor moves, and running off the entries is the
    /// ordinary end of the stream. Once exhausted, every step reports
    /// exhaustion.
    pub fn next(&mut self, dict: &PyDict) -> (r: Result<PyIterReturn<ViewElem>, PyExc>)
        ensures
            final(self).kind == old(self).kind,
            final(self).reverse == old(self).reverse,
            final(self).size == old(self).size,
            if !old(self).is_active() {
                r == Ok::<PyIterReturn<ViewElem>, PyExc>(PyIterReturn::StopIteration) && !final(self).is_active()
            } else if dict.sig() != old(self).size {
                r == Err::<PyIterReturn<ViewElem>, PyExc>(PyExc::RuntimeChangedSize) && !final(self).is_active()
            } else if old(self).pos() < dict@.len() {
                ({
                    let e = dict@[old(self).pos() as int];
                    &&& r == Ok::<PyIterReturn<ViewElem>, PyExc>(
                        PyIterReturn::Return(project_spec(old(self).kind, e.0, e.1)),
                    )
                    &&& if old(self).reverse {
                        if old(self).pos() == 0 {
                            !final(self).is_active()
                        } else {
                            final(self).is_active() && final(self).pos() == old(self).pos() - 1
                        }
                    } else {
                        final(self).is_active() && final(self).pos() == old(self).pos() + 1
                    }
                })
            } else {
                r == Ok::<PyIterReturn<ViewElem>, PyExc>(PyIterReturn::StopIteration) && !final(self).is_active()
            },
    {
        match &self.internal.status {
            IterStatus::Exhausted => Ok(PyIterReturn::StopIteration),
            IterStatus::Active(_) => {
                if dict.entries.has_changed_size(&self.size) {
                    self.internal.status = IterStatus::Exhausted;
                    return Err(PyExc::RuntimeChangedSize);
                }
                if !self.reverse {
                    let fetched: Result<PyIterReturn<ViewElem>, PyExc> = match dict
                        .entries
                        .next_entry(self.internal.position) {
                        Some((_, k, v)) => Ok(PyIterReturn::Return(project(self.kind, k, v))),
                        None => Ok(PyIterReturn::StopIteration),
                    };
                    self.internal.next(fetched)
                } else {
                    let fetched: Result<PyIterReturn<ViewElem>, PyExc> = match dict
                        .entries
                        .prev_entry(self.internal.position) {
                        Some((_, k, v)) => Ok(PyIterReturn::Return(project(self.kind, k, v))),
                        None => Ok(PyIterReturn::StopIteration),
                    };
                    self.internal.rev_next(fetched)
                }
            },
        }
    }

    /// The remaining count reported to callers: for a forward iterator the
    /// captured total minus the cursor; for a reverse iterator the cursor
    /// plus one while active, 0 once exhausted.
    pub fn length_hint(&self) -> (r: usize)
        requires
            self.reverse ==> self.size.used < usize::MAX,
        ensures
            r == if !self.is_active() {
                0int
            } else if !self.reverse {
                if self.pos() <= self.size.used {
                    self.size.used - self.pos()
                } else {
                    0int
                }
            } else {
                if self.pos() <= self.size.used {
                    self.pos() + 1
                } else {
                    0int
                }
            },
    {
        if !self.reverse {
            self.internal.length_hint(self.size.used)
        } else {
            self.internal.rev_length_hint(self.size.used)
        }
    }
}

/// A live, non-owning view of a dictionary: a discriminator applied to the
/// dictionary that each operation receives. Length and contents always
/// reflect the dictionary's current state.
pub struct PyDictView {
    pub kind: ViewKind,
}

impl PyDictView {
    /// The view's length: always the dictionary's current length.
    pub fn __len__(&self, dict: &PyDict) -> (n: usize)
        ensures
            n == dict@.len(),
    {
        dict.__len__()
    }

    /// A fresh forward iterator over the dictionary's current state.
    pub fn iter(&self, dict: &PyDict) -> (r: DictViewIter)
        ensures
            r.kind == self.kind,
            !r.reverse,
            r.size == dict.sig(),
            r.is_active(),
            r.pos() == 0,
    {
        DictViewIter::new(dict, self.kind)
    }

    /// A fresh reverse iterator over the dictionary's current state.
    pub fn __reversed__(&self, dict: &PyDict) -> (r: DictViewIter)
        ensures
            r.kind == self.kind,
            r.reverse,
            r.size == dict.sig(),
            r.is_active(),
            r.pos() == if dict@.len() > 0 {
                (dict@.len() - 1) as usize
            } else {
                0usize
            },
    {
        DictViewIter::new_reversed(dict, self.kind)
    }

    /// Materialize the view's current elements, in insertion order.
    pub fn to_elems(&self, dict: &PyDict) -> (r: Vec<ViewElem>)
        ensures
            r@ == view_seq(dict@, self.kind),
    {
        let n = dict.entries.len();
        let mut acc: Vec<ViewElem> = Vec::new();
        let mut j: usize = 0;
        while j < n
            invariant
                0 <= j <= n,
                n == dict@.len(),
                acc@.len() == j,
                forall|m: int|
                    0 <= m < j ==> acc@[m] == project_spec(
                        self.kind,
                        (#[trigger] dict@[m]).0,
                        dict@[m].1,
                    ),
        decreases n - j,
        {
            match dict.entries.next_entry(j) {
                Some((_, k, v)) => {
                    acc.push(project(self.kind, k, v));
                },
                None => {
                    return vstd::pervasive::unreached();
                },
            }
            j = j + 1;
        }
        proof {
            assert(acc@ =~= view_seq(dict@, self.kind));
        }
        acc
    }

    /// Membership in the view. A key element is looked up as a dictionary
    /// key (an unhashable key is a type error); an item pair requires the
    /// key to be present with an identical or value-equal value; a value
    /// element is sought by value equality. An element of a different
    /// shape than the view's projection is never contained.
    pub fn contains(&self, dict: &PyDict, e: &ViewElem) -> (r: Result<bool, PyExc>)
        ensures
            r == match (self.kind, *e) {
                (ViewKind::Keys, ViewElem::Key(k)) => if k.hashable {
                    Ok::<bool, PyExc>(dict_has_key(dict@, k))
                } else {
                    Err::<bool, PyExc>(PyExc::TypeError)
                },
                (ViewKind::Items, ViewElem::Pair(k, v)) => if k.hashable {
                    Ok::<bool, PyExc>(
                        match dict_find(dict@, k) {
                            Some(j) => obj_eq(v, dict@[j].1),
                            None => false,
                        },
                    )
                } else {
                    Err::<bool, PyExc>(PyExc::TypeError)
                },
                (ViewKind::Values, ViewElem::Value(x)) => Ok::<bool, PyExc>(
                    exists|i: int| 0 <= i < dict@.len() && obj_eq((#[trigger] dict@[i]).1, x),
                ),
                _ => Ok::<bool, PyExc>(false),
            },
    {
        match self.kind {
            ViewKind::Keys => match e {
                ViewElem::Key(k) => dict.entries.contains(k),
                _ => Ok(false),
            },
            ViewKind::Items => match e {
                ViewElem::Pair(k, v) => {
                    match dict.entries.get(k)? {
                        Some(stored) => Ok(crate::obj::obj_eq_exec(v, &stored)),
                        None => Ok(false),
                    }
                },
                _ => Ok(false),
            },
            ViewKind::Values => match e {
                ViewElem::Value(x) => {
                    let n = dict.entries.len();
                    let mut j: usize = 0;
                    while j < n
                        invariant
                            0 <= j <= n,
                            n == dict@.len(),
                            self.kind is Values,
                            *e == ViewElem::Value(*x),
                            forall|m: int| 0 <= m < j ==> !obj_eq((#[trigger] dict@[m]).1, *x),
                        decreases n - j,
                    {
                        match dict.entries.next_entry(j) {
                            Some((_, _, v)) => {
                                if crate::obj::obj_eq_exec(&v, x) {
                                    proof {
                                        assert(obj_eq((dict@[j as int]).1, *x));
                                    }
                                    return Ok(true);
                                }
                            },
                            None => {
                                return vstd::pervasive::unreached();
                            },
                        }
                        j = j + 1;
                    }
                    Ok(false)
                },
                _ => Ok(false),
            },
        }
    }

    /// The view materialized as a set: its current elements, deduplicated.
    pub fn to_set(&self, dict: &PyDict) -> (r: Vec<ViewElem>)
        ensures
            r@ == view_set(dict@, self.kind),
            elems_unique(r@),
    {
        let elems = self.to_elems(dict);
        set_from_elems(&elems)
    }

    /// Set intersection with an iterable of elements.
    pub fn __and__(&self, dict: &PyDict, other: &Vec<ViewElem>) -> (r: Vec<ViewElem>)
        ensures
            r@ == spec_filter_in(view_set(dict@, self.kind), other@, true),
    {
        let zelf = self.to_set(dict);
        set_intersection(&zelf, other)
    }

    /// Set union with an iterable of elements.
    pub fn __or__(&self, dict: &PyDict, other: &Vec<ViewElem>) -> (r: Vec<ViewElem>)
        ensures
            r@ == spec_set_extend(view_set(dict@, self.kind), other@),
    {
        let zelf = self.to_set(dict);
        set_union(&zelf, other)
    }

    /// Set difference: the view's elements that are not in `other`.
    pub fn __sub__(&self, dict: &PyDict, other: &Vec<ViewElem>) -> (r: Vec<ViewElem>)
        ensures
            r@ == spec_filter_in(view_set(dict@, self.kind), other@, false),
    {
        let zelf = self.to_set(dict);
        set_difference(&zelf, other)
    }

    /// Reflected set difference: the elements of `other`, deduplicated, that
    /// are not in the view.
    pub fn __rsub__(&self, dict: &PyDict, other: &Vec<ViewElem>) -> (r: Vec<ViewElem>)
        ensures
            r@ == spec_filter_in(
                spec_set_extend(Seq::<ViewElem>::empty(), other@),
                view_seq(dict@, self.kind),
                false,
            ),
    {
        let left = set_from_elems(other);
        let zelf = self.to_elems(dict);
        set_difference(&left, &zelf)
    }

    /// Set symmetric difference with an iterable of elements.
    pub fn __xor__(&self, dict: &PyDict, other: &Vec<ViewElem>) -> (r: Vec<ViewElem>)
        ensures
            ({
                let zelf = view_set(dict@, self.kind);
                r@ == spec_symdiff_rest(spec_filter_in(zelf, other@, false), zelf, other@)
            }),
    {
        let zelf = self.to_set(dict);
        set_symmetric_difference(&zelf, other)
    }

    /// Whether the view and an iterable of elements share no element.
    pub fn isdisjoint(&self, dict: &PyDict, other: &Vec<ViewElem>) -> (r: bool)
        ensures
            r == (forall|i: int|
                0 <= i < view_set(dict@, self.kind).len() ==> !elem_in(
                    other@,
                    #[trigger] view_set(dict@, self.kind)[i],
                )),
    {
        let zelf = self.to_set(dict);
        set_isdisjoint(&zelf, other)
    }

    /// Rich comparison against another view of the same discriminator:
    /// the underlying dictionaries compare with subset semantics, and item
    /// views additionally compare values.
    pub fn cmp(&self, dict: &PyDict, other: &PyDictView, other_dict: &PyDict, op: CmpOp) -> (r:
        Option<bool>)
        requires
            dict.wf(),
            other_dict.wf(),
        ensures
            r == if self.kind == other.kind {
                Some(
                    spec_inner_cmp(dict@, other_dict@, op, !(self.kind is Keys)),
                )
            } else {
                None::<bool>
            },
    {
        if !kind_eq(self.kind, other.kind) {
            return None;
        }
        let item = match self.kind {
            ViewKind::Keys => false,
            _ => true,
        };
        Some(dict.inner_cmp(other_dict, op, item))
    }
}

/// Executable equality of view discriminators.
fn kind_eq(a: ViewKind, b: ViewKind) -> (r: bool)
    ensures
        r == (a == b),
{
    match (a, b) {
        (ViewKind::Keys, ViewKind::Keys) => true,
        (ViewKind::Values, ViewKind::Values) => true,
        (ViewKind::Items, ViewKind::Items) => true,
        _ => false,
    }
}

impl PyDict {
    /// The live keys view.
    pub fn keys(&self) -> (r: PyDictView)
        ensures
            r.kind == ViewKind::Keys,
    {
        PyDictView { kind: ViewKind::Keys }
    }

    /// The live values view.
    pub fn values(&self) -> (r: PyDictView)
        ensures
            r.kind == ViewKind::Values,
    {
        PyDictView { kind: ViewKind::Values }
    }

    /// The live items view.
    pub fn items(&self) -> (r: PyDictView)
        ensures
            r.kind == ViewKind::Items,
    {
        PyDictView { kind: ViewKind::Items }
    }

    /// Iterating a dictionary iterates its keys.
    pub fn iter_keys(&self) -> (r: DictViewIter)
        ensures
            r.kind == ViewKind::Keys,
            !r.reverse,
            r.size == self.sig(),
            r.is_active(),
            r.pos() == 0,
    {
        DictViewIter::new(self, ViewKind::Keys)
    }

    /// A reverse iterator over the dictionary's keys.
    pub fn __reversed__(&self) -> (r: DictViewIter)
        ensures
            r.kind == ViewKind::Keys,
            r.reverse,
            r.size == self.sig(),
            r.is_active(),
            r.pos() == if self@.len() > 0 {
                (self@.len() - 1) as usize
            } else {
                0usize
            },
    {
        DictViewIter::new_reversed(self, ViewKind::Keys)
    }
}

/// A view always projects exactly one element per present entry: the
/// length of a dictionary equals the length of its materialized items.
pub proof fn lemma_view_len(s: Seq<(ObjRef, ObjRef)>, kind: ViewKind)
    ensures
        view_seq(s, kind).len() == s.len(),
{
}

} // verus!

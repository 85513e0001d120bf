//! The mapping (zip-transform) iterator: a transform applied to elements
//! drawn in lockstep from several source iterators.

use vstd::prelude::*;

use crate::iter::PySequenceIterator;
use crate::obj::ObjRef;
use crate::obj::PyExc;
use crate::obj::PyIterReturn;

verus! {

/// The first source index, scanning from `i`, that cannot yield an element;
/// the total count when every source can.
pub open spec fn first_blocked(its: Seq<PySequenceIterator>, i: int) -> int
    decreases its.len() - i
        when 0 <= i <= its.len()
{
    if i >= its.len() {
        i
    } else if !its[i].can_yield() {
        i
    } else {
        first_blocked(its, i + 1)
    }
}

/// A source after yielding one element: same target, cursor advanced.
pub open spec fn stepped(a: PySequenceIterator, b: PySequenceIterator) -> bool {
    b.internal.status == a.internal.status && b.internal.position == a.internal.position + 1
}

/// The elements the sources yield this step, one per source.
pub open spec fn args_of(its: Seq<PySequenceIterator>) -> Seq<ObjRef> {
    Seq::new(its.len(), |i: int| its[i].elems()[its[i].pos() as int])
}

/// The largest length hint among the sources: an estimate ceiling, not an
/// exact bound, because the combined iterator stops at the shortest source.
pub open spec fn hints_prefix_max(its: Seq<PySequenceIterator>, i: int) -> int
    decreases i,
{
    if i <= 0 {
        0
    } else {
        let prev = hints_prefix_max(its, i - 1);
        let h = its[i - 1].hint_spec();
        if h > prev {
            h
        } else {
            prev
        }
    }
}

proof fn lemma_first_blocked_from(its: Seq<PySequenceIterator>, m: int, i: int)
    requires
        0 <= m <= i <= its.len(),
        forall|x: int| m <= x < i ==> (#[trigger] its[x]).can_yield(),
        i == its.len() || !its[i].can_yield(),
    ensures
        first_blocked(its, m) == i,
    decreases i - m,
{
    if m < i {
        assert(its[m].can_yield());
        lemma_first_blocked_from(its, m + 1, i);
    }
}

/// The mapping iterator: a transform callable plus N source iterators.
/// Each step advances all sources; if any source exhausts, the combined
/// iterator exhausts immediately and later sources are not advanced that
/// step; otherwise the transform is invoked on the N fetched values and its
/// outcome — including a failure or an exhaustion signal it raises itself —
/// becomes the step's outcome.
pub struct PyMap<F> {
    pub mapper: F,
    pub iterators: Vec<PySequenceIterator>,
}

impl<F: Fn(Vec<ObjRef>) -> Result<PyIterReturn<ObjRef>, PyExc>> PyMap<F> {
    /// A fresh mapping iterator over the given transform and sources.
    pub fn py_new(mapper: F, iterators: Vec<PySequenceIterator>) -> (r: PyMap<F>)
        ensures
            r.mapper == mapper,
            r.iterators == iterators,
    {
        PyMap { mapper, iterators }
    }

    /// One step of the combined iterator.
    pub fn next(&mut self) -> (r: Result<PyIterReturn<ObjRef>, PyExc>)
        requires
            forall|args: Vec<ObjRef>|
                args@.len() == old(self).iterators@.len() ==> call_requires(
                    old(self).mapper,
                    (args,),
                ),
        ensures
            final(self).mapper == old(self).mapper,
            final(self).iterators@.len() == old(self).iterators@.len(),
            ({
                let its = old(self).iterators@;
                let n = its.len() as int;
                let j = first_blocked(its, 0);
                &&& forall|i: int|
                    0 <= i < j ==> stepped(its[i], #[trigger] final(self).iterators@[i])
                &&& if j == n {
                    exists|args: Vec<ObjRef>, mr: Result<PyIterReturn<ObjRef>, PyExc>|
                        args@ == args_of(its) && #[trigger] call_ensures(
                            old(self).mapper,
                            (args,),
                            mr,
                        ) && r == mr
                } else {
                    &&& r == Ok::<PyIterReturn<ObjRef>, PyExc>(PyIterReturn::StopIteration)
                    &&& final(self).iterators@[j].internal.status is Exhausted
                    &&& final(self).iterators@[j].internal.position == its[j].internal.position
                    &&& forall|i: int| j < i < n ==> final(self).iterators@[i] == its[i]
                }
            }),
    {
        let n = self.iterators.len();
        let mut args: Vec<ObjRef> = Vec::new();
        let mut i: usize = 0;
        while i < n
            invariant
                0 <= i <= n,
                n == self.iterators@.len(),
                self.iterators@.len() == old(self).iterators@.len(),
                self.mapper == old(self).mapper,
                forall|args2: Vec<ObjRef>|
                    args2@.len() == old(self).iterators@.len() ==> call_requires(
                        old(self).mapper,
                        (args2,),
                    ),
                forall|m: int| 0 <= m < i ==> (#[trigger] old(self).iterators@[m]).can_yield(),
                forall|m: int|
                    0 <= m < i ==> stepped(
                        old(self).iterators@[m],
                        #[trigger] self.iterators@[m],
                    ),
                forall|m: int|
                    i <= m < n ==> #[trigger] self.iterators@[m] == old(self).iterators@[m],
                args@.len() == i,
                forall|m: int|
                    0 <= m < i ==> args@[m] == (#[trigger] old(self).iterators@[m]).elems()[old(
                        self,
                    ).iterators@[m].pos() as int],
            decreases n - i,
        {
            let res = self.iterators[i].next();
            match res {
                Ok(PyIterReturn::Return(v)) => {
                    args.push(v);
                },
                Ok(PyIterReturn::StopIteration) => {
                    proof {
                        lemma_first_blocked_from(old(self).iterators@, 0, i as int);
                    }
                    return Ok(PyIterReturn::StopIteration);
                },
                Err(_) => {
                    return vstd::pervasive::unreached();
                },
            }
            i = i + 1;
        }
        proof {
            lemma_first_blocked_from(old(self).iterators@, 0, n as int);
            assert(args@ =~= args_of(old(self).iterators@));
        }
        (self.mapper)(args)
    }

    /// The reported remaining count: the maximum of the sources' hints.
    pub fn __length_hint__(&self) -> (r: usize)
        ensures
            r == hints_prefix_max(self.iterators@, self.iterators@.len() as int),
    {
        let n = self.iterators.len();
        let mut acc: usize = 0;
        let mut i: usize = 0;
        while i < n
            invariant
                0 <= i <= n,
                n == self.iterators@.len(),
                acc == hints_prefix_max(self.iterators@, i as int),
            decreases n - i,
        {
            let h = self.iterators[i].length_hint();
            if h > acc {
                acc = h;
            }
            i = i + 1;
        }
        acc
    }
}

} // verus!

//! The shared iteration-state machine and the generic iterator adapters: the
//! position iterator over any positionable container, the sequence-protocol
//! iterator, and the callable-sentinel iterator.

use vstd::prelude::*;

use crate::obj::ObjRef;
use crate::obj::PyExc;
use crate::obj::PyIterReturn;
use crate::obj::obj_eq;

verus! {

/// Status of an iterator over a target `T`: once `Exhausted`, an iterator
/// stays exhausted permanently, even if the underlying container regains
/// elements.
#[derive(Debug, Clone)]
pub enum IterStatus<T> {
    /// The iterator has not yet reported the end of the stream.
    Active(T),
    /// The iterator has reported the end of the stream.
    Exhausted,
}

/// Which builtin reconstructs an iterator when it is serialized.
#[derive(Clone, Copy, PartialEq, Eq, Structural, Debug)]
pub enum ReduceFunc {
    BuiltinsIter,
    BuiltinsReversed,
}

/// The serializable state of a position iterator: the reconstructing
/// builtin, plus the cursor while the iterator is active.
#[derive(Clone, Copy, PartialEq, Eq, Structural, Debug)]
pub struct IterReduction {
    pub func: ReduceFunc,
    pub state: Option<usize>,
}

/// Shared state of any iterator built over a positionable container:
/// an active/exhausted status plus a cursor position.
#[derive(Debug, Clone)]
pub struct PositionIterInternal<T> {
    pub status: IterStatus<T>,
    pub position: usize,
}

impl<T> PositionIterInternal<T> {
    /// A fresh, active iterator over `obj` starting at `position`.
    pub fn new(obj: T, position: usize) -> (r: PositionIterInternal<T>)
        ensures
            r.status == IterStatus::Active(obj),
            r.position == position,
    {
        PositionIterInternal { status: IterStatus::Active(obj), position }
    }

    /// Restore a cursor from a deserialized state value. `state` carries the
    /// already-converted integer; anything that was not an integer is `None`
    /// and is a type error. An exhausted iterator accepts and ignores any
    /// state.
    pub fn set_state(&mut self, state: Option<usize>) -> (r: Result<(), PyExc>)
        ensures
            final(self).status == old(self).status,
            match r {
                Ok(()) => final(self).position == if old(self).status is Active && state is Some {
                    state.unwrap()
                } else {
                    old(self).position
                },
                Err(e) => e == PyExc::TypeError && old(self).status is Active && state is None
                    && final(self).position == old(self).position,
            },
    {
        match &self.status {
            IterStatus::Active(_) => match state {
                Some(i) => {
                    self.position = i;
                    Ok(())
                },
                None => Err(PyExc::TypeError),
            },
            IterStatus::Exhausted => Ok(()),
        }
    }

    /// The serializable state, reconstructed through the `iter` builtin.
    pub fn builtins_iter_reduce(&self) -> (r: IterReduction)
        ensures
            r.func == ReduceFunc::BuiltinsIter,
            r.state == if self.status is Active {
                Some(self.position)
            } else {
                None::<usize>
            },
    {
        IterReduction {
            func: ReduceFunc::BuiltinsIter,
            state: match &self.status {
                IterStatus::Active(_) => Some(self.position),
                IterStatus::Exhausted => None,
            },
        }
    }

    /// The serializable state, reconstructed through the `reversed` builtin.
    pub fn builtins_reversed_reduce(&self) -> (r: IterReduction)
        ensures
            r.func == ReduceFunc::BuiltinsReversed,
            r.state == if self.status is Active {
                Some(self.position)
            } else {
                None::<usize>
            },
    {
        IterReduction {
            func: ReduceFunc::BuiltinsReversed,
            state: match &self.status {
                IterStatus::Active(_) => Some(self.position),
                IterStatus::Exhausted => None,
            },
        }
    }

    /// Step a forward iterator. `fetched` is the outcome of fetching the
    /// element at the current cursor from the active target: a yielded
    /// element advances the cursor, any other outcome exhausts the iterator,
    /// and the outcome is handed back unchanged. An exhausted iterator
    /// reports exhaustion without consulting `fetched`.
    pub fn next<E>(&mut self, fetched: Result<PyIterReturn<E>, PyExc>) -> (r: Result<
        PyIterReturn<E>,
        PyExc,
    >)
        requires
            (old(self).status is Active && fetched matches Ok(PyIterReturn::Return(_))) ==> old(
                self,
            ).position < usize::MAX,
        ensures
            if old(self).status is Active {
                r == fetched && if fetched matches Ok(PyIterReturn::Return(_)) {
                    final(self).status == old(self).status && final(self).position == old(self).position + 1
                } else {
                    final(self).status is Exhausted && final(self).position == old(self).position
                }
            } else {
                r == Ok::<PyIterReturn<E>, PyExc>(PyIterReturn::StopIteration) && final(self).status
                    is Exhausted && final(self).position == old(self).position
            },
    {
        match &self.status {
            IterStatus::Active(_) => {
                if let Ok(PyIterReturn::Return(_)) = &fetched {
                    self.position = self.position + 1;
                } else {
                    self.status = IterStatus::Exhausted;
                }
                fetched
            },
            IterStatus::Exhausted => Ok(PyIterReturn::StopIteration),
        }
    }

    /// Step a reverse iterator: a yielded element moves the cursor down, and
    /// a yield at cursor 0 exhausts the iterator after handing the element
    /// back. Any other outcome exhausts the iterator.
    pub fn rev_next<E>(&mut self, fetched: Result<PyIterReturn<E>, PyExc>) -> (r: Result<
        PyIterReturn<E>,
        PyExc,
    >)
        ensures
            if old(self).status is Active {
                r == fetched && if fetched matches Ok(PyIterReturn::Return(_)) {
                    if old(self).position == 0 {
                        final(self).status is Exhausted && final(self).position == 0
                    } else {
                        final(self).status == old(self).status && final(self).position == old(self).position - 1
                    }
                } else {
                    final(self).status is Exhausted && final(self).position == old(self).position
                }
            } else {
                r == Ok::<PyIterReturn<E>, PyExc>(PyIterReturn::StopIteration) && final(self).status
                    is Exhausted && final(self).position == old(self).position
            },
    {
        match &self.status {
            IterStatus::Active(_) => {
                if let Ok(PyIterReturn::Return(_)) = &fetched {
                    if self.position == 0 {
                        self.status = IterStatus::Exhausted;
                    } else {
                        self.position = self.position - 1;
                    }
                } else {
                    self.status = IterStatus::Exhausted;
                }
                fetched
            },
            IterStatus::Exhausted => Ok(PyIterReturn::StopIteration),
        }
    }

    /// Remaining elements of a forward iterator whose target currently
    /// counts `len` elements: the count minus the cursor, and 0 once
    /// exhausted.
    pub fn length_hint(&self, len: usize) -> (r: usize)
        ensures
            r == if self.status is Active {
                if self.position <= len {
                    len - self.position
                } else {
                    0int
                }
            } else {
                0int
            },
    {
        match &self.status {
            IterStatus::Active(_) => {
                if self.position <= len {
                    len - self.position
                } else {
                    0
                }
            },
            IterStatus::Exhausted => 0,
        }
    }

    /// Remaining elements of a reverse iterator whose target currently
    /// counts `len` elements: the cursor plus one while active and in
    /// bounds, and 0 once exhausted.
    pub fn rev_length_hint(&self, len: usize) -> (r: usize)
        requires
            len < usize::MAX,
        ensures
            r == if self.status is Active && self.position <= len {
                self.position + 1
            } else {
                0int
            },
    {
        match &self.status {
            IterStatus::Active(_) => {
                if self.position <= len {
                    self.position + 1
                } else {
                    0
                }
            },
            IterStatus::Exhausted => 0,
        }
    }
}

/// An iterator over an object exposing the indexable-sequence capability,
/// reduced to the sequence of its elements. Fetching past the end is the
/// ordinary end of the stream, not an error.
pub struct PySequenceIterator {
    pub internal: PositionIterInternal<Vec<ObjRef>>,
}

impl PySequenceIterator {
    /// Whether the iterator is still active.
    pub open spec fn is_active(&self) -> bool {
        self.internal.status is Active
    }

    /// The iterated elements (meaningful while active).
    pub open spec fn elems(&self) -> Seq<ObjRef> {
        self.internal.status->Active_0@
    }

    /// The current cursor.
    pub open spec fn pos(&self) -> usize {
        self.internal.position
    }

    /// Whether the next step will yield an element.
    pub open spec fn can_yield(&self) -> bool {
        self.is_active() && self.pos() < self.elems().len()
    }

    /// The reported length hint: the sequence's full current length while
    /// active, 0 once exhausted.
    pub open spec fn hint_spec(&self) -> int {
        if self.is_active() {
            self.elems().len() as int
        } else {
            0
        }
    }

    /// A fresh iterator over the elements of a sequence.
    pub fn new(seq: Vec<ObjRef>) -> (r: PySequenceIterator)
        ensures
            r.is_active(),
            r.elems() == seq@,
            r.pos() == 0,
    {
        PySequenceIterator { internal: PositionIterInternal::new(seq, 0) }
    }

    /// Yield the element at the cursor, or report exhaustion once the cursor
    /// leaves the sequence. Exhaustion is permanent.
    pub fn next(&mut self) -> (r: Result<PyIterReturn<ObjRef>, PyExc>)
        ensures
            if old(self).can_yield() {
                r == Ok::<PyIterReturn<ObjRef>, PyExc>(
                    PyIterReturn::Return(old(self).elems()[old(self).pos() as int]),
                ) && final(self).internal.status == old(self).internal.status && final(self).pos()
                    == old(self).pos() + 1
            } else {
                r == Ok::<PyIterReturn<ObjRef>, PyExc>(PyIterReturn::StopIteration) && final(self).internal.status is Exhausted && final(self).pos() == old(self).pos()
            },
    {
        let fetched: Result<PyIterReturn<ObjRef>, PyExc> = match &self.internal.status {
            IterStatus::Active(seq) => {
                let pos = self.internal.position;
                if pos < seq.len() {
                    Ok(PyIterReturn::Return(seq[pos]))
                } else {
                    Ok(PyIterReturn::StopIteration)
                }
            },
            IterStatus::Exhausted => Ok(PyIterReturn::StopIteration),
        };
        self.internal.next(fetched)
    }

    /// The length hint an indexable sequence reports: its full current
    /// length while the iterator is active, 0 once exhausted.
    pub fn length_hint(&self) -> (r: usize)
        ensures
            r == self.hint_spec(),
    {
        match &self.internal.status {
            IterStatus::Active(seq) => seq.len(),
            IterStatus::Exhausted => 0,
        }
    }

    /// The serializable state, reconstructed through the `iter` builtin.
    pub fn reduce(&self) -> (r: IterReduction)
        ensures
            r.func == ReduceFunc::BuiltinsIter,
            r.state == if self.is_active() {
                Some(self.pos())
            } else {
                None::<usize>
            },
    {
        self.internal.builtins_iter_reduce()
    }

    /// Restore the cursor from a deserialized state value.
    pub fn set_state(&mut self, state: Option<usize>) -> (r: Result<(), PyExc>)
        ensures
            final(self).internal.status == old(self).internal.status,
            match r {
                Ok(()) => final(self).pos() == if old(self).is_active() && state is Some {
                    state.unwrap()
                } else {
                    old(self).pos()
                },
                Err(e) => e == PyExc::TypeError && old(self).is_active() && state is None && final(self).pos() == old(self).pos(),
            },
    {
        self.internal.set_state(state)
    }
}

/// An iterator over a zero-argument callable terminated by a sentinel: each
/// step invokes the callable; a result value-equal to the sentinel exhausts
/// the iterator permanently, any other result is yielded, and an error from
/// the callable propagates without exhausting the iterator.
pub struct PyCallableIterator<F> {
    pub sentinel: ObjRef,
    pub status: IterStatus<F>,
}

impl<F: Fn() -> Result<ObjRef, PyExc>> PyCallableIterator<F> {
    /// Whether the iterator is still active.
    pub open spec fn is_active(&self) -> bool {
        self.status is Active
    }

    /// The wrapped callable (meaningful while active).
    pub open spec fn callable(&self) -> F {
        self.status->Active_0
    }

    /// The sentinel value.
    pub open spec fn sentinel_spec(&self) -> ObjRef {
        self.sentinel
    }

    /// A fresh iterator around a callable and a sentinel.
    pub fn new(callable: F, sentinel: ObjRef) -> (r: PyCallableIterator<F>)
        ensures
            r.is_active(),
            r.callable() == callable,
            r.sentinel_spec() == sentinel,
    {
        PyCallableIterator { sentinel, status: IterStatus::Active(callable) }
    }

    /// One step: invoke the callable while active and decide the outcome.
    /// Once exhausted, the callable is never invoked again.
    pub fn next(&mut self) -> (r: Result<PyIterReturn<ObjRef>, PyExc>)
        requires
            old(self).is_active() ==> call_requires(old(self).callable(), ()),
        ensures
            final(self).sentinel_spec() == old(self).sentinel_spec(),
            if old(self).is_active() {
                exists|cr: Result<ObjRef, PyExc>|
                    {
                        &&& call_ensures(old(self).callable(), (), cr)
                        &&& match cr {
                            Err(e) => r == Err::<PyIterReturn<ObjRef>, PyExc>(e) && final(self).status == old(self).status,
                            Ok(v) => if obj_eq(v, old(self).sentinel_spec()) {
                                r == Ok::<PyIterReturn<ObjRef>, PyExc>(PyIterReturn::StopIteration)
                                    && final(self).status is Exhausted
                            } else {
                                r == Ok::<PyIterReturn<ObjRef>, PyExc>(PyIterReturn::Return(v))
                                    && final(self).status == old(self).status
                            },
                        }
                    }
            } else {
                r == Ok::<PyIterReturn<ObjRef>, PyExc>(PyIterReturn::StopIteration) && final(self).status is Exhausted
            },
    {
        let step: Option<Result<ObjRef, PyExc>> = match &self.status {
            IterStatus::Active(callable) => Some(callable()),
            IterStatus::Exhausted => None,
        };
        match step {
            None => Ok(PyIterReturn::StopIteration),
            Some(Err(e)) => Err(e),
            Some(Ok(v)) => {
                if crate::obj::obj_eq_exec(&v, &self.sentinel) {
                    self.status = IterStatus::Exhausted;
                    Ok(PyIterReturn::StopIteration)
                } else {
                    Ok(PyIterReturn::Return(v))
                }
            },
        }
    }
}

} // verus!

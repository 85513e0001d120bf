use std::cell::Cell;

use pycore::iter::IterReduction;
use pycore::iter::IterStatus;
use pycore::iter::PositionIterInternal;
use pycore::iter::PyCallableIterator;
use pycore::iter::PySequenceIterator;
use pycore::iter::ReduceFunc;
use pycore::map::PyMap;
use pycore::obj::ObjRef;
use pycore::obj::PyExc;
use pycore::obj::PyIterReturn;

fn o(n: u64) -> ObjRef {
    ObjRef::new(n, n, n)
}

#[test]
fn position_iter_forward_steps() {
    let mut it: PositionIterInternal<u32> = PositionIterInternal::new(7, 0);
    let r = it.next(Ok(PyIterReturn::Return(o(1))));
    assert_eq!(r, Ok(PyIterReturn::Return(o(1))));
    assert_eq!(it.position, 1);
    let r2: Result<PyIterReturn<ObjRef>, PyExc> = it.next(Ok(PyIterReturn::StopIteration));
    assert_eq!(r2, Ok(PyIterReturn::StopIteration));
    assert!(matches!(it.status, IterStatus::Exhausted));
    // once exhausted, the fetched outcome is ignored
    let r3 = it.next(Ok(PyIterReturn::Return(o(2))));
    assert_eq!(r3, Ok(PyIterReturn::StopIteration));
}

#[test]
fn position_iter_error_exhausts() {
    let mut it: PositionIterInternal<u32> = PositionIterInternal::new(7, 3);
    let r: Result<PyIterReturn<ObjRef>, PyExc> = it.next(Err(PyExc::TypeError));
    assert_eq!(r, Err(PyExc::TypeError));
    assert!(matches!(it.status, IterStatus::Exhausted));
}

#[test]
fn position_iter_reverse_steps() {
    let mut it: PositionIterInternal<u32> = PositionIterInternal::new(7, 1);
    let r = it.rev_next(Ok(PyIterReturn::Return(o(5))));
    assert_eq!(r, Ok(PyIterReturn::Return(o(5))));
    assert_eq!(it.position, 0);
    // a yield at cursor 0 exhausts after handing the element back
    let r2 = it.rev_next(Ok(PyIterReturn::Return(o(6))));
    assert_eq!(r2, Ok(PyIterReturn::Return(o(6))));
    assert!(matches!(it.status, IterStatus::Exhausted));
    let r3 = it.rev_next(Ok(PyIterReturn::Return(o(7))));
    assert_eq!(r3, Ok(PyIterReturn::StopIteration));
}

#[test]
fn position_iter_hints_and_state() {
    let mut it: PositionIterInternal<u32> = PositionIterInternal::new(7, 2);
    assert_eq!(it.length_hint(5), 3);
    assert_eq!(it.rev_length_hint(5), 3);
    assert_eq!(it.builtins_iter_reduce(), IterReduction {
        func: ReduceFunc::BuiltinsIter,
        state: Some(2),
    });
    assert_eq!(it.builtins_reversed_reduce().func, ReduceFunc::BuiltinsReversed);

    it.set_state(Some(4)).unwrap();
    assert_eq!(it.position, 4);
    assert_eq!(it.set_state(None), Err(PyExc::TypeError));

    let mut done: PositionIterInternal<u32> = PositionIterInternal::new(7, 0);
    let _: Result<PyIterReturn<ObjRef>, PyExc> = done.next(Ok(PyIterReturn::StopIteration));
    assert_eq!(done.length_hint(5), 0);
    assert_eq!(done.rev_length_hint(5), 0);
    assert_eq!(done.builtins_iter_reduce().state, None);
    // an exhausted iterator accepts and ignores any state
    assert_eq!(done.set_state(None), Ok(()));
}

#[test]
fn sequence_iterator_drains_and_stays_exhausted() {
    let mut it = PySequenceIterator::new(vec![o(1), o(2)]);
    assert_eq!(it.length_hint(), 2);
    assert_eq!(it.next().unwrap(), PyIterReturn::Return(o(1)));
    // the sequence iterator reports the sequence's full current length
    assert_eq!(it.length_hint(), 2);
    assert_eq!(it.next().unwrap(), PyIterReturn::Return(o(2)));
    assert_eq!(it.next().unwrap(), PyIterReturn::StopIteration);
    assert_eq!(it.next().unwrap(), PyIterReturn::StopIteration);
    assert_eq!(it.length_hint(), 0);
}

#[test]
fn sequence_iterator_state_round_trip() {
    let mut it = PySequenceIterator::new(vec![o(1), o(2), o(3)]);
    it.next().unwrap();
    let red = it.reduce();
    assert_eq!(red.state, Some(1));
    it.set_state(Some(0)).unwrap();
    assert_eq!(it.next().unwrap(), PyIterReturn::Return(o(1)));
}

#[test]
fn rev_length_hint_out_of_bounds_is_zero() {
    let it: PositionIterInternal<u32> = PositionIterInternal::new(7, 9);
    assert_eq!(it.rev_length_hint(5), 0);
    assert_eq!(it.length_hint(5), 0);
}

#[test]
fn sequence_iterator_state_past_the_end() {
    let mut it = PySequenceIterator::new(vec![o(1)]);
    it.set_state(Some(5)).unwrap();
    assert_eq!(it.next().unwrap(), PyIterReturn::StopIteration);
}

#[test]
fn callable_iterator_stops_at_sentinel() {
    let sentinel = o(99);
    let counter = Cell::new(0u64);
    let callable = || {
        let n = counter.get();
        counter.set(n + 1);
        if n >= 2 {
            Ok(o(99))
        } else {
            Ok(o(n))
        }
    };
    let mut it = PyCallableIterator::new(callable, sentinel);
    assert_eq!(it.next().unwrap(), PyIterReturn::Return(o(0)));
    assert_eq!(it.next().unwrap(), PyIterReturn::Return(o(1)));
    assert_eq!(it.next().unwrap(), PyIterReturn::StopIteration);
    assert_eq!(counter.get(), 3);
    // subsequent steps report exhaustion without re-invoking the callable
    assert_eq!(it.next().unwrap(), PyIterReturn::StopIteration);
    assert_eq!(it.next().unwrap(), PyIterReturn::StopIteration);
    assert_eq!(counter.get(), 3);
}

#[test]
fn callable_iterator_error_propagates_without_exhausting() {
    let counter = Cell::new(0u64);
    let callable = || {
        let n = counter.get();
        counter.set(n + 1);
        if n == 0 {
            Err(PyExc::TypeError)
        } else {
            Ok(o(5))
        }
    };
    let mut it = PyCallableIterator::new(callable, o(99));
    assert_eq!(it.next(), Err(PyExc::TypeError));
    // the iterator is still active and the callable is invoked again
    assert_eq!(it.next().unwrap(), PyIterReturn::Return(o(5)));
}

#[test]
fn map_stops_at_shortest_source_and_hints_the_max() {
    // sources of length 3 and 5 with a pass-through transform: three
    // elements, and a length hint of 5 before anything is consumed
    let s3 = PySequenceIterator::new(vec![o(1), o(2), o(3)]);
    let s5 = PySequenceIterator::new(vec![o(11), o(12), o(13), o(14), o(15)]);
    let pass = |args: Vec<ObjRef>| Ok(PyIterReturn::Return(args[0]));
    let mut m = PyMap::py_new(pass, vec![s3, s5]);
    assert_eq!(m.__length_hint__(), 5);
    assert_eq!(m.next().unwrap(), PyIterReturn::Return(o(1)));
    assert_eq!(m.next().unwrap(), PyIterReturn::Return(o(2)));
    assert_eq!(m.next().unwrap(), PyIterReturn::Return(o(3)));
    assert_eq!(m.next().unwrap(), PyIterReturn::StopIteration);
    assert_eq!(m.next().unwrap(), PyIterReturn::StopIteration);
}

#[test]
fn map_combines_all_sources() {
    let a = PySequenceIterator::new(vec![o(1), o(2)]);
    let b = PySequenceIterator::new(vec![o(10), o(20)]);
    // the transform sees one value per source, in source order
    let sum_ids = |args: Vec<ObjRef>| {
        let total = args.iter().map(|x| x.id).sum::<u64>();
        Ok(PyIterReturn::Return(ObjRef::new(total, total, total)))
    };
    let mut m = PyMap::py_new(sum_ids, vec![a, b]);
    assert_eq!(m.next().unwrap(), PyIterReturn::Return(o(11)));
    assert_eq!(m.next().unwrap(), PyIterReturn::Return(o(22)));
    assert_eq!(m.next().unwrap(), PyIterReturn::StopIteration);
}

#[test]
fn map_transform_outcome_is_the_step_outcome() {
    let a = PySequenceIterator::new(vec![o(1), o(2)]);
    let failing = |_args: Vec<ObjRef>| -> Result<PyIterReturn<ObjRef>, PyExc> {
        Err(PyExc::ValueError)
    };
    let mut m = PyMap::py_new(failing, vec![a]);
    assert_eq!(m.next(), Err(PyExc::ValueError));

    let b = PySequenceIterator::new(vec![o(1), o(2)]);
    // the transform can itself signal exhaustion; it is the step's outcome
    let stopping = |_args: Vec<ObjRef>| -> Result<PyIterReturn<ObjRef>, PyExc> {
        Ok(PyIterReturn::StopIteration)
    };
    let mut m2 = PyMap::py_new(stopping, vec![b]);
    assert_eq!(m2.next().unwrap(), PyIterReturn::StopIteration);
}

#[test]
fn map_with_no_sources_calls_transform_with_no_values() {
    let constant = |_args: Vec<ObjRef>| Ok(PyIterReturn::Return(o(7)));
    let mut m = PyMap::py_new(constant, vec![]);
    assert_eq!(m.__length_hint__(), 0);
    assert_eq!(m.next().unwrap(), PyIterReturn::Return(o(7)));
}

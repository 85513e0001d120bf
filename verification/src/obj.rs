//! The abstract object capability: plain value tokens standing for runtime
//! objects, the identity / value-equality / hashing rules built on them, and
//! the error and iterator-outcome types shared by the whole crate.

use vstd::prelude::*;

verus! {

/// A reference to a runtime object, reduced to what the container logic
/// reads of it.
///
/// * `id` is the identity token: two references denote the same object
///   exactly when their `id`s are equal.
/// * `val` is the value-equality token: two objects compare equal by value
///   exactly when their `val`s are equal.
/// * `hash` is the object's hash code; it is meaningful only when
///   `hashable` is true. Using an unhashable object as a dictionary key
///   fails with a type error.
#[derive(Clone, Copy, PartialEq, Eq, Structural, Debug, Hash)]
pub struct ObjRef {
    pub id: u64,
    pub val: u64,
    pub hash: u64,
    pub hashable: bool,
}

impl ObjRef {
    /// A reference to a hashable object.
    pub fn new(id: u64, val: u64, hash: u64) -> (r: ObjRef)
        ensures
            r == (ObjRef { id, val, hash, hashable: true }),
    {
        ObjRef { id, val, hash, hashable: true }
    }

    /// A reference to an unhashable object (usable as a value, never as a key).
    pub fn unhashable(id: u64, val: u64) -> (r: ObjRef)
        ensures
            r == (ObjRef { id, val, hash: 0, hashable: false }),
    {
        ObjRef { id, val, hash: 0, hashable: false }
    }
}

/// Value equality between two objects: identical by identity, or equal by
/// value comparison.
pub open spec fn obj_eq(a: ObjRef, b: ObjRef) -> bool {
    a.id == b.id || a.val == b.val
}

/// Dictionary key matching: two keys address the same entry when they are
/// identical by identity, or when they are hash-equal and equal by value.
pub open spec fn key_match(a: ObjRef, b: ObjRef) -> bool {
    a.id == b.id || (a.hash == b.hash && a.val == b.val)
}

/// Executable value-equality test.
pub fn obj_eq_exec(a: &ObjRef, b: &ObjRef) -> (r: bool)
    ensures
        r == obj_eq(*a, *b),
{
    a.id == b.id || a.val == b.val
}

/// Executable key-matching test.
pub fn key_match_exec(a: &ObjRef, b: &ObjRef) -> (r: bool)
    ensures
        r == key_match(*a, *b),
{
    a.id == b.id || (a.hash == b.hash && a.val == b.val)
}

/// The error taxonomy surfaced to callers. Exhaustion of an iterator is not
/// an error; it is the `StopIteration` outcome of [`PyIterReturn`].
#[derive(Clone, Copy, PartialEq, Eq, Structural, Debug)]
pub enum PyExc {
    /// A key was absent on delete, pop or subscript without default; carries
    /// the offending key.
    KeyError(ObjRef),
    /// `popitem` on an empty dictionary (a key error with a fixed message).
    KeyErrorEmptyDict,
    /// An unhashable key, a malformed override, or a forbidden direct
    /// construction.
    TypeError,
    /// An element of a plain pair iterable did not hold exactly two values.
    ValueError,
    /// The dictionary changed size while an iterator over it was active.
    RuntimeChangedSize,
    /// The source dictionary mutated during a cross-dictionary merge.
    RuntimeMutatedDuringUpdate,
}

/// The outcome of one iterator step: a yielded element, or the ordinary
/// end-of-stream signal, which is distinct from every error.
#[derive(Clone, Copy, PartialEq, Eq, Debug)]
pub enum PyIterReturn<E> {
    Return(E),
    StopIteration,
}

/// A rich-comparison operator selector.
#[derive(Clone, Copy, PartialEq, Eq, Structural, Debug)]
pub enum CmpOp {
    Lt,
    Le,
    Eq,
    Ne,
    Ge,
    Gt,
}

} // verus!

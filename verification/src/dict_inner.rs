//! The insertion-ordered dictionary store: an ordered sequence of live
//! (key, value) entries plus a size signature for mutation detection.
//!
//! The abstract state of a dictionary is the sequence of its present entries
//! in first-insertion order. Every operation's contract is stated against
//! that sequence through the spec functions below, which all resolve a key to
//! its first matching entry.

use vstd::prelude::*;

use crate::obj::ObjRef;
use crate::obj::PyExc;
use crate::obj::key_match;

verus! {

/// First index at or after `i` whose key matches `k`, if any.
pub open spec fn find_from(s: Seq<(ObjRef, ObjRef)>, k: ObjRef, i: int) -> Option<int>
    decreases s.len() - i
        when 0 <= i <= s.len()
{
    if i >= s.len() {
        None
    } else if key_match(s[i].0, k) {
        Some(i)
    } else {
        find_from(s, k, i + 1)
    }
}

/// Index of the entry addressed by `k`, if any.
pub open spec fn dict_find(s: Seq<(ObjRef, ObjRef)>, k: ObjRef) -> Option<int> {
    find_from(s, k, 0)
}

/// Whether some entry is addressed by `k`.
pub open spec fn dict_has_key(s: Seq<(ObjRef, ObjRef)>, k: ObjRef) -> bool {
    dict_find(s, k) is Some
}

/// The value stored under `k`, if any.
pub open spec fn dict_get(s: Seq<(ObjRef, ObjRef)>, k: ObjRef) -> Option<ObjRef> {
    match dict_find(s, k) {
        Some(i) => Some(s[i].1),
        None => None,
    }
}

/// The entries after `insert(k, v)`: a present key keeps its slot and its
/// original key object and only the value changes; an absent key is appended.
pub open spec fn spec_insert(s: Seq<(ObjRef, ObjRef)>, k: ObjRef, v: ObjRef) -> Seq<
    (ObjRef, ObjRef),
> {
    match dict_find(s, k) {
        Some(i) => s.update(i, (s[i].0, v)),
        None => s.push((k, v)),
    }
}

/// The entries after a successful `delete(k)`: the addressed entry is gone,
/// all other entries keep their relative order.
pub open spec fn spec_remove(s: Seq<(ObjRef, ObjRef)>, k: ObjRef) -> Seq<(ObjRef, ObjRef)> {
    match dict_find(s, k) {
        Some(i) => s.remove(i),
        None => s,
    }
}

/// The entries after `setdefault(k, d)`: unchanged when `k` is present,
/// otherwise `(k, d)` is appended.
pub open spec fn spec_setdefault(s: Seq<(ObjRef, ObjRef)>, k: ObjRef, d: ObjRef) -> Seq<
    (ObjRef, ObjRef),
> {
    if dict_has_key(s, k) {
        s
    } else {
        s.push((k, d))
    }
}

/// No two stored keys address the same entry.
pub open spec fn keys_unique(s: Seq<(ObjRef, ObjRef)>) -> bool {
    forall|i: int, j: int|
        0 <= i < j < s.len() ==> !key_match(#[trigger] s[i].0, #[trigger] s[j].0)
}

/// Every stored key is hashable.
pub open spec fn keys_hashable(s: Seq<(ObjRef, ObjRef)>) -> bool {
    forall|i: int| 0 <= i < s.len() ==> (#[trigger] s[i].0).hashable
}

/// Two object references are consistent when equal identity tokens imply
/// equal value and hash tokens — the faithfulness condition of the token
/// model, satisfied by any two references to real runtime objects.
pub open spec fn token_consistent(a: ObjRef, b: ObjRef) -> bool {
    a.id == b.id ==> a.val == b.val && a.hash == b.hash
}

/// `k` is token-consistent with every key stored in `s`.
pub open spec fn key_consistent(k: ObjRef, s: Seq<(ObjRef, ObjRef)>) -> bool {
    forall|i: int| 0 <= i < s.len() ==> token_consistent(k, (#[trigger] s[i]).0)
}

/// The generation marker after one fresh-key insertion.
pub open spec fn bump(n: u64) -> u64 {
    if n < u64::MAX {
        (n + 1) as u64
    } else {
        n
    }
}

/// A dictionary's size signature: the count of present entries plus a
/// generation marker that grows with every fresh-key insertion, so that an
/// intervening delete-and-insert pair is still detected.
#[derive(Clone, Copy, PartialEq, Eq, Structural, Debug)]
pub struct DictSize {
    pub entries_size: u64,
    pub used: usize,
}

/// What `find_from` finds is the first match at or after `i`.
pub proof fn lemma_find_from_props(s: Seq<(ObjRef, ObjRef)>, k: ObjRef, i: int)
    requires
        0 <= i <= s.len(),
    ensures
        match find_from(s, k, i) {
            Some(j) => i <= j < s.len() && key_match(s[j].0, k) && (forall|m: int|
                i <= m < j ==> !key_match(#[trigger] s[m].0, k)),
            None => forall|m: int| i <= m < s.len() ==> !key_match(#[trigger] s[m].0, k),
        },
    decreases s.len() - i,
{
    if i < s.len() && !key_match(s[i].0, k) {
        lemma_find_from_props(s, k, i + 1);
    }
}

/// Appending to a sequence does not change where a key is first found, and a
/// key absent before the append is found at the appended entry if it matches.
pub proof fn lemma_find_from_push(s: Seq<(ObjRef, ObjRef)>, k: ObjRef, e: (ObjRef, ObjRef), i: int)
    requires
        0 <= i <= s.len(),
    ensures
        find_from(s.push(e), k, i) == match find_from(s, k, i) {
            Some(j) => Some(j),
            None => if key_match(e.0, k) {
                Some(s.len() as int)
            } else {
                None
            },
        },
    decreases s.len() - i,
{
    let t = s.push(e);
    if i < s.len() {
        assert(t[i] == s[i]);
        if !key_match(s[i].0, k) {
            lemma_find_from_push(s, k, e, i + 1);
            assert(find_from(s, k, i) == find_from(s, k, i + 1));
            assert(find_from(t, k, i) == find_from(t, k, i + 1));
        }
    } else {
        assert(i == s.len());
        assert(t[i] == e);
        assert(find_from(s, k, i) is None);
        if key_match(e.0, k) {
            assert(find_from(t, k, i) == Some(i));
        } else {
            assert(find_from(t, k, i + 1) is None);
            assert(find_from(t, k, i) is None);
        }
    }
}

/// Under key uniqueness and token consistency, at most one stored entry
/// matches a given key.
pub proof fn lemma_unique_match(s: Seq<(ObjRef, ObjRef)>, k: ObjRef, i: int, j: int)
    requires
        keys_unique(s),
        key_consistent(k, s),
        0 <= i < s.len(),
        0 <= j < s.len(),
        key_match(s[i].0, k),
        key_match(s[j].0, k),
    ensures
        i == j,
{
    if i != j {
        assert(token_consistent(k, s[i].0));
        assert(token_consistent(k, s[j].0));
        assert(key_match(s[i].0, s[j].0));
        if i < j {
            assert(!key_match(s[i].0, s[j].0));
        } else {
            assert(!key_match(s[j].0, s[i].0));
        }
    }
}

/// Removing an entry keeps the remaining keys pairwise distinct.
pub proof fn lemma_unique_remove(s: Seq<(ObjRef, ObjRef)>, i: int)
    requires
        keys_unique(s),
        0 <= i < s.len(),
    ensures
        keys_unique(s.remove(i)),
        keys_hashable(s) ==> keys_hashable(s.remove(i)),
{
    let t = s.remove(i);
    assert forall|a: int, b: int| 0 <= a < b < t.len() implies !key_match(
        #[trigger] t[a].0,
        #[trigger] t[b].0,
    ) by {
        let a0 = if a < i {
            a
        } else {
            a + 1
        };
        let b0 = if b < i {
            b
        } else {
            b + 1
        };
        assert(t[a] == s[a0]);
        assert(t[b] == s[b0]);
    }
    if keys_hashable(s) {
        assert forall|a: int| 0 <= a < t.len() implies (#[trigger] t[a]).0.hashable by {
            let a0 = if a < i {
                a
            } else {
                a + 1
            };
            assert(t[a] == s[a0]);
        }
    }
}

/// Updating an entry's value in place keeps uniqueness and hashability.
pub proof fn lemma_unique_update(s: Seq<(ObjRef, ObjRef)>, i: int, v: ObjRef)
    requires
        keys_unique(s),
        keys_hashable(s),
        0 <= i < s.len(),
    ensures
        keys_unique(s.update(i, (s[i].0, v))),
        keys_hashable(s.update(i, (s[i].0, v))),
{
    let t = s.update(i, (s[i].0, v));
    assert forall|a: int, b: int| 0 <= a < b < t.len() implies !key_match(
        #[trigger] t[a].0,
        #[trigger] t[b].0,
    ) by {
        assert(t[a].0 == s[a].0);
        assert(t[b].0 == s[b].0);
    }
    assert forall|a: int| 0 <= a < t.len() implies (#[trigger] t[a]).0.hashable by {
        assert(t[a].0 == s[a].0);
    }
}

/// Law: inserting an absent key appends its entry at the end of the
/// iteration order.
pub proof fn lemma_insert_absent_appends(s: Seq<(ObjRef, ObjRef)>, k: ObjRef, v: ObjRef)
    requires
        !dict_has_key(s, k),
    ensures
        spec_insert(s, k, v) == s.push((k, v)),
{
}

/// Law: overwriting a present key keeps every key in its position, so the
/// iteration order is unchanged.
pub proof fn lemma_insert_present_keeps_order(s: Seq<(ObjRef, ObjRef)>, k: ObjRef, v: ObjRef)
    requires
        dict_has_key(s, k),
    ensures
        spec_insert(s, k, v).len() == s.len(),
        forall|i: int| 0 <= i < s.len() ==> (#[trigger] spec_insert(s, k, v)[i]).0 == s[i].0,
{
    lemma_find_from_props(s, k, 0);
}

/// Law: deleting a key removes exactly its entry; every surviving entry
/// keeps its relative order and is not renumbered against its neighbours.
pub proof fn lemma_remove_keeps_order(s: Seq<(ObjRef, ObjRef)>, k: ObjRef)
    requires
        dict_has_key(s, k),
    ensures
        ({
            let i = dict_find(s, k).unwrap();
            let t = spec_remove(s, k);
            &&& 0 <= i < s.len()
            &&& t.len() == s.len() - 1
            &&& (forall|j: int| 0 <= j < i ==> #[trigger] t[j] == s[j])
            &&& (forall|j: int| i <= j < t.len() ==> #[trigger] t[j] == s[j + 1])
        }),
{
    lemma_find_from_props(s, k, 0);
}

/// Law: re-insertion of a previously deleted key appends it at the end,
/// behind every surviving entry. Together with the two insertion laws and
/// the deletion law, the iteration order always equals the order of first
/// insertion among currently present keys.
pub proof fn lemma_reinsert_appends(s: Seq<(ObjRef, ObjRef)>, k: ObjRef, v: ObjRef)
    requires
        keys_unique(s),
        key_consistent(k, s),
    ensures
        spec_insert(spec_remove(s, k), k, v) == spec_remove(s, k).push((k, v)),
{
    lemma_find_from_props(s, k, 0);
    match dict_find(s, k) {
        None => {},
        Some(i) => {
            let t = s.remove(i);
            lemma_find_from_props(t, k, 0);
            match dict_find(t, k) {
                None => {},
                Some(j) => {
                    let j0 = if j < i {
                        j
                    } else {
                        j + 1
                    };
                    assert(t[j] == s[j0]);
                    lemma_unique_match(s, k, i, j0);
                    assert(false);
                },
            }
        },
    }
}

/// Law: a second `setdefault` with the same key finds the key present and
/// changes nothing, so across two calls the default producer's value is
/// consulted exactly once.
pub proof fn lemma_setdefault_once(s: Seq<(ObjRef, ObjRef)>, k: ObjRef, d: ObjRef, d2: ObjRef)
    ensures
        spec_setdefault(spec_setdefault(s, k, d), k, d2) == spec_setdefault(s, k, d),
{
    if !dict_has_key(s, k) {
        lemma_find_from_push(s, k, (k, d), 0);
    }
}

/// The insertion-ordered store. Present entries sit in a vector in
/// first-insertion order; the generation marker counts fresh-key insertions.
pub struct Dict {
    entries: Vec<(ObjRef, ObjRef)>,
    entries_size: u64,
}

impl View for Dict {
    type V = Seq<(ObjRef, ObjRef)>;

    closed spec fn view(&self) -> Seq<(ObjRef, ObjRef)> {
        self.entries@
    }
}

impl Dict {
    /// The generation marker.
    pub closed spec fn gen(&self) -> u64 {
        self.entries_size
    }

    /// The current size signature.
    pub open spec fn spec_size(&self) -> DictSize {
        DictSize { entries_size: self.gen(), used: self@.len() as usize }
    }

    /// The store's invariant: stored keys are pairwise distinct and hashable.
    pub open spec fn wf(&self) -> bool {
        keys_unique(self@) && keys_hashable(self@)
    }

    /// An empty dictionary.
    pub fn new() -> (d: Dict)
        ensures
            d@ == Seq::<(ObjRef, ObjRef)>::empty(),
            d.gen() == 0,
            d.wf(),
    {
        Dict { entries: Vec::new(), entries_size: 0 }
    }

    /// Number of present entries.
    pub fn len(&self) -> (n: usize)
        ensures
            n == self@.len(),
    {
        self.entries.len()
    }

    /// Index of the first entry matching `k`, scanning in insertion order.
    fn find(&self, k: &ObjRef) -> (r: Option<usize>)
        ensures
            match r {
                Some(i) => i < self@.len() && key_match(self@[i as int].0, *k) && dict_find(
                    self@,
                    *k,
                ) == Some(i as int),
                None => dict_find(self@, *k) is None,
            },
    {
        let n = self.entries.len();
        let mut j: usize = 0;
        while j < n
            invariant
                0 <= j <= n,
                n == self@.len(),
                find_from(self@, *k, 0) == find_from(self@, *k, j as int),
            decreases n - j,
        {
            let e = &self.entries[j];
            if crate::obj::key_match_exec(&e.0, k) {
                proof {
                    assert(find_from(self@, *k, j as int) == Some(j as int));
                }
                return Some(j);
            }
            j = j + 1;
        }
        None
    }

    /// Whether `k` addresses an entry; an unhashable key is a type error.
    pub fn contains(&self, k: &ObjRef) -> (r: Result<bool, PyExc>)
        ensures
            r == if k.hashable {
                Ok::<bool, PyExc>(dict_has_key(self@, *k))
            } else {
                Err::<bool, PyExc>(PyExc::TypeError)
            },
    {
        if !k.hashable {
            return Err(PyExc::TypeError);
        }
        Ok(self.find(k).is_some())
    }

    /// The value stored under `k`, or `None`; an unhashable key is a type
    /// error.
    pub fn get(&self, k: &ObjRef) -> (r: Result<Option<ObjRef>, PyExc>)
        ensures
            r == if k.hashable {
                Ok::<Option<ObjRef>, PyExc>(dict_get(self@, *k))
            } else {
                Err::<Option<ObjRef>, PyExc>(PyExc::TypeError)
            },
    {
        if !k.hashable {
            return Err(PyExc::TypeError);
        }
        match self.find(k) {
            Some(i) => Ok(Some(self.entries[i].1)),
            None => Ok(None),
        }
    }

    /// Insert `k -> v`: a present key keeps its slot and only the value is
    /// overwritten; an absent key is appended at the end and the generation
    /// marker grows. An unhashable key is a type error and changes nothing.
    pub fn insert(&mut self, k: ObjRef, v: ObjRef) -> (r: Result<(), PyExc>)
        requires
            old(self).wf(),
        ensures
            final(self).wf(),
            if k.hashable {
                r == Ok::<(), PyExc>(()) && final(self)@ == spec_insert(old(self)@, k, v)
                    && final(self).gen() == if dict_has_key(old(self)@, k) {
                    old(self).gen()
                } else {
                    bump(old(self).gen())
                }
            } else {
                r == Err::<(), PyExc>(PyExc::TypeError) && final(self)@ == old(self)@
                    && final(self).gen() == old(self).gen()
            },
    {
        if !k.hashable {
            return Err(PyExc::TypeError);
        }
        match self.find(&k) {
            Some(i) => {
                let ghost s = self@;
                let key = self.entries[i].0;
                self.entries.set(i, (key, v));
                proof {
                    lemma_unique_update(s, i as int, v);
                }
                Ok(())
            },
            None => {
                let ghost s = self@;
                self.entries.push((k, v));
                if self.entries_size < u64::MAX {
                    self.entries_size = self.entries_size + 1;
                }
                proof {
                    lemma_find_from_props(s, k, 0);
                    assert forall|a: int, b: int| 0 <= a < b < self@.len() implies !key_match(
                        #[trigger] self@[a].0,
                        #[trigger] self@[b].0,
                    ) by {
                        if b < s.len() as int {
                            assert(self@[a] == s[a]);
                            assert(self@[b] == s[b]);
                        } else {
                            assert(self@[a] == s[a]);
                            assert(self@[b].0 == k);
                        }
                    }
                }
                Ok(())
            },
        }
    }

    /// Delete the entry addressed by `k`. An absent key is a key error; an
    /// unhashable key is a type error; neither changes the store.
    pub fn delete(&mut self, k: ObjRef) -> (r: Result<(), PyExc>)
        requires
            old(self).wf(),
        ensures
            final(self).wf(),
            final(self).gen() == old(self).gen(),
            if !k.hashable {
                r == Err::<(), PyExc>(PyExc::TypeError) && final(self)@ == old(self)@
            } else if dict_has_key(old(self)@, k) {
                r == Ok::<(), PyExc>(()) && final(self)@ == spec_remove(old(self)@, k)
            } else {
                r == Err::<(), PyExc>(PyExc::KeyError(k)) && final(self)@ == old(self)@
            },
    {
        if !k.hashable {
            return Err(PyExc::TypeError);
        }
        match self.find(&k) {
            Some(i) => {
                let ghost s = self@;
                self.entries.remove(i);
                proof {
                    lemma_unique_remove(s, i as int);
                }
                Ok(())
            },
            None => Err(PyExc::KeyError(k)),
        }
    }

    /// Remove the entry addressed by `k` if present, returning its value.
    pub fn pop(&mut self, k: ObjRef) -> (r: Result<Option<ObjRef>, PyExc>)
        requires
            old(self).wf(),
        ensures
            final(self).wf(),
            final(self).gen() == old(self).gen(),
            if !k.hashable {
                r == Err::<Option<ObjRef>, PyExc>(PyExc::TypeError) && final(self)@ == old(self)@
            } else {
                r == Ok::<Option<ObjRef>, PyExc>(dict_get(old(self)@, k)) && final(self)@
                    == spec_remove(old(self)@, k)
            },
    {
        if !k.hashable {
            return Err(PyExc::TypeError);
        }
        match self.find(&k) {
            Some(i) => {
                let ghost s = self@;
                let v = self.entries[i].1;
                self.entries.remove(i);
                proof {
                    lemma_unique_remove(s, i as int);
                }
                Ok(Some(v))
            },
            None => Ok(None),
        }
    }

    /// Remove and return the last-inserted surviving entry, if any.
    pub fn pop_back(&mut self) -> (r: Option<(ObjRef, ObjRef)>)
        requires
            old(self).wf(),
        ensures
            final(self).wf(),
            final(self).gen() == old(self).gen(),
            match r {
                Some(e) => old(self)@.len() > 0 && e == old(self)@.last() && final(self)@ == old(self)@.drop_last(),
                None => old(self)@.len() == 0 && final(self)@ == old(self)@,
            },
    {
        let ghost s = self@;
        let r = self.entries.pop();
        proof {
            if s.len() > 0 {
                assert(s.drop_last() =~= s.remove(s.len() - 1));
                lemma_unique_remove(s, s.len() - 1);
            }
        }
        r
    }

    /// Return the value under `k`, inserting `d` first when `k` is absent.
    /// The returned flag reports whether an insertion happened.
    pub fn setdefault(&mut self, k: ObjRef, d: ObjRef) -> (r: Result<(ObjRef, bool), PyExc>)
        requires
            old(self).wf(),
        ensures
            final(self).wf(),
            if !k.hashable {
                r == Err::<(ObjRef, bool), PyExc>(PyExc::TypeError) && final(self)@ == old(self)@
                    && final(self).gen() == old(self).gen()
            } else {
                final(self)@ == spec_setdefault(old(self)@, k, d) && match r {
                    Ok((v, inserted)) => {
                        &&& inserted == !dict_has_key(old(self)@, k)
                        &&& v == if inserted {
                            d
                        } else {
                            dict_get(old(self)@, k).unwrap()
                        }
                        &&& final(self).gen() == if inserted {
                            bump(old(self).gen())
                        } else {
                            old(self).gen()
                        }
                    },
                    Err(_) => false,
                }
            },
    {
        if !k.hashable {
            return Err(PyExc::TypeError);
        }
        match self.find(&k) {
            Some(i) => Ok((self.entries[i].1, false)),
            None => {
                let ghost s = self@;
                self.entries.push((k, d));
                if self.entries_size < u64::MAX {
                    self.entries_size = self.entries_size + 1;
                }
                proof {
                    lemma_find_from_props(s, k, 0);
                    assert forall|a: int, b: int| 0 <= a < b < self@.len() implies !key_match(
                        #[trigger] self@[a].0,
                        #[trigger] self@[b].0,
                    ) by {
                        if b < s.len() as int {
                            assert(self@[a] == s[a]);
                            assert(self@[b] == s[b]);
                        } else {
                            assert(self@[a] == s[a]);
                            assert(self@[b].0 == k);
                        }
                    }
                }
                Ok((d, true))
            },
        }
    }

    /// Drop every entry. The generation marker is kept, so an iterator
    /// created before the clear still observes the mutation.
    pub fn clear(&mut self)
        requires
            old(self).wf(),
        ensures
            final(self).wf(),
            final(self)@ == Seq::<(ObjRef, ObjRef)>::empty(),
            final(self).gen() == old(self).gen(),
    {
        self.entries.clear();
    }

    /// The current size signature.
    pub fn size(&self) -> (r: DictSize)
        ensures
            r == self.spec_size(),
    {
        DictSize { entries_size: self.entries_size, used: self.entries.len() }
    }

    /// Whether the size signature differs from a captured one.
    pub fn has_changed_size(&self, captured: &DictSize) -> (r: bool)
        ensures
            r == (*captured != self.spec_size()),
    {
        captured.entries_size != self.entries_size || captured.used != self.entries.len()
    }

    /// The value under `k` in `self`, or failing that in `other`.
    pub fn get_chain(&self, other: &Dict, k: &ObjRef) -> (r: Result<Option<ObjRef>, PyExc>)
        ensures
            r == if k.hashable {
                Ok::<Option<ObjRef>, PyExc>(
                    if dict_has_key(self@, *k) {
                        dict_get(self@, *k)
                    } else {
                        dict_get(other@, *k)
                    },
                )
            } else {
                Err::<Option<ObjRef>, PyExc>(PyExc::TypeError)
            },
    {
        if !k.hashable {
            return Err(PyExc::TypeError);
        }
        match self.find(k) {
            Some(i) => Ok(Some(self.entries[i].1)),
            None => match other.find(k) {
                Some(j) => Ok(Some(other.entries[j].1)),
                None => Ok(None),
            },
        }
    }

    /// The entry at cursor `pos` together with the next cursor, or `None`
    /// when the cursor is past the end.
    pub fn next_entry(&self, pos: usize) -> (r: Option<(usize, ObjRef, ObjRef)>)
        ensures
            match r {
                Some((next, k, v)) => pos < self@.len() && next == pos + 1 && (k, v)
                    == self@[pos as int],
                None => pos >= self@.len(),
            },
    {
        if pos < self.entries.len() {
            let e = self.entries[pos];
            Some((pos + 1, e.0, e.1))
        } else {
            None
        }
    }

    /// The entry at cursor `pos` together with the previous cursor for
    /// reverse traversal. A cursor of 0 hands back 0 again, which tells the
    /// caller that traversal is complete; a cursor past the end is `None`.
    pub fn prev_entry(&self, pos: usize) -> (r: Option<(usize, ObjRef, ObjRef)>)
        ensures
            match r {
                Some((prev, k, v)) => {
                    &&& pos < self@.len()
                    &&& (k, v) == self@[pos as int]
                    &&& prev == if pos == 0 {
                        0usize
                    } else {
                        (pos - 1) as usize
                    }
                },
                None => pos >= self@.len(),
            },
    {
        if pos < self.entries.len() {
            let e = self.entries[pos];
            let prev = if pos == 0 {
                0
            } else {
                pos - 1
            };
            Some((prev, e.0, e.1))
        } else {
            None
        }
    }

    /// How many entries remain at or after cursor `pos`.
    pub fn len_from_entry_index(&self, pos: usize) -> (r: usize)
        ensures
            r == if pos < self@.len() {
                self@.len() - pos
            } else {
                0int
            },
    {
        let n = self.entries.len();
        if pos < n {
            n - pos
        } else {
            0
        }
    }

    /// The entries in insertion order, as a vector of pairs.
    pub fn to_pairs(&self) -> (r: Vec<(ObjRef, ObjRef)>)
        ensures
            r@ == self@,
    {
        let n = self.entries.len();
        let mut es: Vec<(ObjRef, ObjRef)> = Vec::new();
        let mut j: usize = 0;
        while j < n
            invariant
                0 <= j <= n,
                n == self@.len(),
                es@ =~= self@.subrange(0, j as int),
            decreases n - j,
        {
            es.push(self.entries[j]);
            proof {
                assert(es@ =~= self@.subrange(0, j + 1 as int));
            }
            j = j + 1;
        }
        proof {
            assert(es@ =~= self@);
        }
        es
    }

    /// An entry-for-entry copy with the same signature.
    pub fn duplicate(&self) -> (d: Dict)
        ensures
            d@ == self@,
            d.gen() == self.gen(),
    {
        let n = self.entries.len();
        let mut es: Vec<(ObjRef, ObjRef)> = Vec::new();
        let mut j: usize = 0;
        while j < n
            invariant
                0 <= j <= n,
                n == self@.len(),
                es@ =~= self@.subrange(0, j as int),
            decreases n - j,
        {
            es.push(self.entries[j]);
            proof {
                assert(es@ =~= self@.subrange(0, j + 1 as int));
            }
            j = j + 1;
        }
        proof {
            assert(es@ =~= self@);
        }
        Dict { entries: es, entries_size: self.entries_size }
    }
}

} // verus!

//! The generic read/write capability every backend stores through.
//!
//! A connector is a keyed byte store whose calls may fail transiently. Its
//! model is the map of stored objects plus a budget of pending transient
//! faults: while the budget is positive every call fails transiently and
//! consumes one unit; at zero, a call behaves like the plain map operation.
//! [`MemConnector`] is the fault-free in-memory connector;
//! [`FlakyConnector`] fails a scripted number of times first, which is
//! exactly the situation the retry layer exists to mask.

use crate::bytes::bytes_eq;
use crate::bytes::extend_from;
use crate::errors::IoFailure;
use vstd::prelude::*;

verus! {

/// A keyed byte store with transient faults.
pub trait Connector: Sized {
    /// The objects currently stored, by key.
    spec fn objects(&self) -> Map<Seq<u8>, Seq<u8>>;

    /// How many calls will still fail transiently before one can succeed.
    spec fn failures_left(&self) -> nat;

    /// Reads the object at `key`.
    fn read(&mut self, key: &[u8]) -> (r: Result<Vec<u8>, IoFailure>)
        ensures
            final(self).objects() == old(self).objects(),
            old(self).failures_left() > 0 ==> (r == Err::<Vec<u8>, IoFailure>(IoFailure::Transient)
                && final(self).failures_left() == old(self).failures_left() - 1),
            old(self).failures_left() == 0 ==> final(self).failures_left() == 0,
            (old(self).failures_left() == 0 && old(self).objects().contains_key(key@)) ==> (
            r matches Ok(v) && v@ == old(self).objects()[key@]),
            (old(self).failures_left() == 0 && !old(self).objects().contains_key(key@)) ==> r
                == Err::<Vec<u8>, IoFailure>(IoFailure::NotFound),
    ;

    /// Writes `value` at `key`, overwriting whatever was there. A failed
    /// write leaves the store unchanged: writes are atomic per object, so
    /// a stored object is never a mixture of two writes.
    fn write(&mut self, key: &[u8], value: &[u8]) -> (r: Result<(), IoFailure>)
        ensures
            old(self).failures_left() > 0 ==> (r == Err::<(), IoFailure>(IoFailure::Transient)
                && final(self).failures_left() == old(self).failures_left() - 1
                && final(self).objects() == old(self).objects()),
            old(self).failures_left() == 0 ==> (r == Ok::<(), IoFailure>(())
                && final(self).failures_left() == 0
                && final(self).objects() == old(self).objects().insert(key@, value@)),
    ;
}

/// The stored objects described by an association list, later entries
/// shadowing earlier ones.
pub open spec fn assoc_map(s: Seq<(Vec<u8>, Vec<u8>)>) -> Map<Seq<u8>, Seq<u8>>
    decreases s.len(),
{
    if s.len() == 0 {
        Map::empty()
    } else {
        assoc_map(s.drop_last()).insert(s.last().0@, s.last().1@)
    }
}

/// Entries at or after `i` that never match `k` do not affect lookup of `k`.
proof fn lemma_assoc_map_suffix_irrelevant(s: Seq<(Vec<u8>, Vec<u8>)>, i: int, k: Seq<u8>)
    requires
        0 <= i <= s.len(),
        forall|j: int| i <= j < s.len() ==> s[j].0@ != k,
    ensures
        assoc_map(s).contains_key(k) <==> assoc_map(s.subrange(0, i)).contains_key(k),
        assoc_map(s).contains_key(k) ==> assoc_map(s)[k] == assoc_map(s.subrange(0, i))[k],
    decreases s.len() - i,
{
    if i < s.len() {
        let s1 = s.drop_last();
        assert(s.last().0@ != k);
        assert(s1 =~= s.subrange(0, s.len() - 1));
        lemma_assoc_map_suffix_irrelevant(s1, i, k);
        assert(s1.subrange(0, i) =~= s.subrange(0, i));
    } else {
        assert(s.subrange(0, i) =~= s);
    }
}

/// The in-memory connector: a fault-free keyed byte store. Also the test
/// double through which stored bytes can be inspected directly.
#[derive(Debug)]
pub struct MemConnector {
    entries: Vec<(Vec<u8>, Vec<u8>)>,
}

impl MemConnector {
    /// An empty store.
    pub fn new() -> (r: MemConnector)
        ensures
            r.objects() == Map::<Seq<u8>, Seq<u8>>::empty(),
            r.failures_left() == 0,
    {
        MemConnector { entries: Vec::new() }
    }

    /// The object bytes at `key`, if any.
    pub fn get(&self, key: &[u8]) -> (r: Option<Vec<u8>>)
        ensures
            self.objects().contains_key(key@) ==> (r matches Some(v) && v@ == self.objects()[key@]),
            !self.objects().contains_key(key@) ==> r is None,
    {
        let n = self.entries.len();
        let mut i: usize = n;
        while i > 0
            invariant
                i <= n,
                n == self.entries@.len(),
                forall|j: int| i <= j < n ==> self.entries@[j].0@ != key@,
            decreases i,
        {
            i = i - 1;
            let e = &self.entries[i];
            if bytes_eq(e.0.as_slice(), key) {
                let mut out: Vec<u8> = Vec::new();
                extend_from(&mut out, e.1.as_slice());
                proof {
                    lemma_assoc_map_suffix_irrelevant(self.entries@, i + 1, key@);
                    let t = self.entries@.subrange(0, i + 1);
                    assert(t.last() == self.entries@[i as int]);
                    assert(t.drop_last() =~= self.entries@.subrange(0, i as int));
                    assert(assoc_map(t).contains_key(key@));
                    assert(assoc_map(t)[key@] == self.entries@[i as int].1@);
                }
                return Some(out);
            }
        }
        proof {
            lemma_assoc_map_suffix_irrelevant(self.entries@, 0, key@);
            assert(self.entries@.subrange(0, 0) =~= Seq::<(Vec<u8>, Vec<u8>)>::empty());
            assert(!assoc_map(self.entries@).contains_key(key@));
        }
        None
    }
}

impl Connector for MemConnector {
    closed spec fn objects(&self) -> Map<Seq<u8>, Seq<u8>> {
        assoc_map(self.entries@)
    }

    closed spec fn failures_left(&self) -> nat {
        0
    }

    fn read(&mut self, key: &[u8]) -> (r: Result<Vec<u8>, IoFailure>) {
        match self.get(key) {
            Some(v) => Ok(v),
            None => Err(IoFailure::NotFound),
        }
    }

    fn write(&mut self, key: &[u8], value: &[u8]) -> (r: Result<(), IoFailure>) {
        let mut k: Vec<u8> = Vec::new();
        extend_from(&mut k, key);
        let mut v: Vec<u8> = Vec::new();
        extend_from(&mut v, value);
        let ghost before = self.entries@;
        self.entries.push((k, v));
        proof {
            assert(self.entries@.drop_last() =~= before);
        }
        Ok(())
    }
}

/// A connector that fails transiently a scripted number of times before it
/// behaves like its in-memory store. This is the model of a remote service
/// with a known burst of transient faults.
#[derive(Debug)]
pub struct FlakyConnector {
    inner: MemConnector,
    failures: u64,
}

impl FlakyConnector {
    /// A store that will fail the next `failures` calls.
    pub fn with_failures(inner: MemConnector, failures: u64) -> (r: FlakyConnector)
        ensures
            r.objects() == inner.objects(),
            r.failures_left() == failures,
    {
        FlakyConnector { inner, failures }
    }

    /// Hands the in-memory store back, for direct inspection.
    pub fn into_inner(self) -> (r: MemConnector)
        ensures
            r.objects() == self.objects(),
    {
        self.inner
    }
}

impl Connector for FlakyConnector {
    closed spec fn objects(&self) -> Map<Seq<u8>, Seq<u8>> {
        self.inner.objects()
    }

    closed spec fn failures_left(&self) -> nat {
        self.failures as nat
    }

    fn read(&mut self, key: &[u8]) -> (r: Result<Vec<u8>, IoFailure>) {
        if self.failures > 0 {
            self.failures = self.failures - 1;
            Err(IoFailure::Transient)
        } else {
            self.inner.read(key)
        }
    }

    fn write(&mut self, key: &[u8], value: &[u8]) -> (r: Result<(), IoFailure>) {
        if self.failures > 0 {
            self.failures = self.failures - 1;
            Err(IoFailure::Transient)
        } else {
            self.inner.write(key, value)
        }
    }
}

} // verus!

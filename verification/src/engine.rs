//! The storage engine boundary: an instrumented collaborator that answers
//! pinned reads and counts releases.

use vstd::prelude::*;

use crate::pinned::DBPinnableSlice;

verus! {

/// A failure reported by the engine's native layer during a read.
///
/// Absence of a key is not an error: `get_pinned` reports it as `Ok(None)`.
#[derive(Clone, Copy, Debug, PartialEq, Eq, Structural)]
pub enum EngineError {
    /// The engine detected corrupted data while serving the read.
    Corruption,
    /// The read failed with an I/O fault.
    Io,
    /// The engine instance was already closed.
    Closed,
}

/// The store that a sequence of writes describes: later writes to a key
/// shadow earlier ones.
spec fn store_of(entries: Seq<(Vec<u8>, Vec<u8>)>) -> Map<Seq<u8>, Seq<u8>>
    decreases entries.len(),
{
    if entries.len() == 0 {
        Map::empty()
    } else {
        store_of(entries.drop_last()).insert(entries.last().0@, entries.last().1@)
    }
}

/// A pinned read observes the most recent write: writing `v` under `k`
/// makes the store map `k` to exactly `v`, whatever it held for `k` before.
/// With the contract of [`Engine::get_pinned`] this says that a read of a
/// present key returns the value last written for it, and that an overwrite
/// shadows the earlier value.
pub proof fn lemma_read_sees_last_write(store: Map<Seq<u8>, Seq<u8>>, k: Seq<u8>, v: Seq<u8>)
    ensures
        store.insert(k, v).contains_key(k),
        store.insert(k, v)[k] == v,
{
}

/// A write touches no key but its own: after writing under `k2`, any other
/// key `k` is present exactly as before, with the same value.  With the
/// contract of [`Engine::get_pinned`] this says that a key never written
/// stays absent — reads of it keep returning `Ok(None)` — however much is
/// written under other keys.
pub proof fn lemma_write_leaves_other_keys(
    store: Map<Seq<u8>, Seq<u8>>,
    k: Seq<u8>,
    k2: Seq<u8>,
    v: Seq<u8>,
)
    requires
        k != k2,
    ensures
        store.insert(k2, v).contains_key(k) == store.contains_key(k),
        store.contains_key(k) ==> store.insert(k2, v)[k] == store[k],
{
}

/// The engine instance: the one collaborator the read handles depend on.
///
/// It serves `get_pinned`, materialising a pinned buffer for each hit, and it
/// counts every release that a [`DBPinnableSlice`] performs against it, so
/// callers can observe that each handle releases its buffer exactly once.
/// A pending injected failure makes the next read fail the way a native
/// engine would, without allocating a buffer.
pub struct Engine {
    entries: Vec<(Vec<u8>, Vec<u8>)>,
    release_count: u64,
    fault: Option<EngineError>,
}

impl Engine {
    /// The key-to-value map that the writes so far describe.
    pub closed spec fn store(&self) -> Map<Seq<u8>, Seq<u8>> {
        store_of(self.entries@)
    }

    /// How many times a pinned buffer of this engine has been released.
    pub closed spec fn releases(&self) -> u64 {
        self.release_count
    }

    /// The failure that the next read will report, if one was injected.
    pub closed spec fn pending_failure(&self) -> Option<EngineError> {
        self.fault
    }

    /// An open engine with nothing written, no releases recorded and no
    /// pending failure.
    pub fn new() -> (r: Engine)
        ensures
            r.store() == Map::<Seq<u8>, Seq<u8>>::empty(),
            r.releases() == 0,
            r.pending_failure() is None,
    {
        Engine { entries: Vec::new(), release_count: 0, fault: None }
    }

    /// Records how many releases have been performed against this engine.
    pub fn release_count(&self) -> (r: u64)
        ensures
            r == self.releases(),
    {
        self.release_count
    }

    /// Writes `value` under `key`, shadowing any earlier value for that key.
    ///
    /// Writing touches neither the release count nor a pending failure.
    pub fn put(&mut self, key: Vec<u8>, value: Vec<u8>)
        ensures
            final(self).store() == old(self).store().insert(key@, value@),
            final(self).releases() == old(self).releases(),
            final(self).pending_failure() == old(self).pending_failure(),
    {
        let ghost pre = self.entries@;
        let ghost k = key@;
        let ghost v = value@;
        self.entries.push((key, value));
        proof {
            assert(self.entries@.drop_last() =~= pre);
            assert(self.entries@.last().0@ == k);
            assert(self.entries@.last().1@ == v);
        }
    }

    /// Records that one pinned buffer of this engine was released.
    pub(crate) fn record_release(&mut self)
        requires
            old(self).releases() < u64::MAX,
        ensures
            final(self).releases() == old(self).releases() + 1,
            final(self).store() == old(self).store(),
            final(self).pending_failure() == old(self).pending_failure(),
    {
        self.release_count = self.release_count + 1;
    }

    /// Makes the next read fail with `err`, the way a native fault would.
    ///
    /// The injected failure replaces any failure injected earlier and fires
    /// on the next `get_pinned` only; the store and the release count are
    /// untouched.
    pub fn inject_failure(&mut self, err: EngineError)
        ensures
            final(self).store() == old(self).store(),
            final(self).releases() == old(self).releases(),
            final(self).pending_failure() == Some(err),
    {
        self.fault = Some(err);
    }

    /// Serves one pinned read for `key`.
    ///
    /// A pending injected failure is reported as `Err` with that error, and
    /// no buffer is materialised for it.  Otherwise a key that the store
    /// holds yields `Ok(Some(handle))` whose bytes are the value most
    /// recently written for the key, and an absent key yields `Ok(None)` —
    /// absence is never an error and never an empty handle.  No call of this
    /// function releases anything: the release count is untouched.
    pub fn get_pinned(&mut self, key: &Vec<u8>) -> (r: Result<Option<DBPinnableSlice>, EngineError>)
        ensures
            final(self).store() == old(self).store(),
            final(self).releases() == old(self).releases(),
            final(self).pending_failure() is None,
            old(self).pending_failure() matches Some(e) ==> r matches Err(e2) && e2 == e,
            old(self).pending_failure() is None && old(self).store().contains_key(key@) ==> (r
                matches Ok(Some(s)) && s@ == old(self).store()[key@]),
            old(self).pending_failure() is None && !old(self).store().contains_key(key@) ==> r
                matches Ok(None),
    {
        let fault = self.fault;
        self.fault = None;
        if let Some(err) = fault {
            return Err(err);
        }
        match find_value(&self.entries, key) {
            Some(value) => Ok(Some(DBPinnableSlice::from_c(value))),
            None => Ok(None),
        }
    }
}

/// Looks up the value most recently written for `key`, scanning the write
/// log from the newest entry backwards.
fn find_value(entries: &Vec<(Vec<u8>, Vec<u8>)>, key: &Vec<u8>) -> (r: Option<Vec<u8>>)
    ensures
        r matches Some(v) ==> store_of(entries@).contains_key(key@) && v@ == store_of(
            entries@,
        )[key@],
        r is None ==> !store_of(entries@).contains_key(key@),
{
    let ghost full = entries@;
    let mut j = entries.len();
    proof {
        assert(full.take(full.len() as int) =~= full);
    }
    while j > 0
        invariant
            j <= entries.len(),
            entries@ == full,
            store_of(full).contains_key(key@) == store_of(full.take(j as int)).contains_key(key@),
            store_of(full.take(j as int)).contains_key(key@) ==> store_of(full.take(j as int))[key@]
                == store_of(full)[key@],
        decreases j,
    {
        j -= 1;
        proof {
            assert(full.take(j + 1).drop_last() =~= full.take(j as int));
            assert(full.take(j + 1).last() == full[j as int]);
        }
        if bytes_eq(&entries[j].0, key) {
            return Some(copy_bytes(&entries[j].1));
        }
    }
    proof {
        assert(full.take(0) =~= Seq::<(Vec<u8>, Vec<u8>)>::empty());
    }
    None
}

/// Byte-for-byte equality of two buffers.
fn bytes_eq(a: &Vec<u8>, b: &Vec<u8>) -> (r: bool)
    ensures
        r == (a@ == b@),
{
    if a.len() != b.len() {
        return false;
    }
    let mut i: usize = 0;
    while i < a.len()
        invariant
            i <= a.len(),
            a.len() == b.len(),
            forall|k: int| 0 <= k < i ==> a@[k] == b@[k],
        decreases a.len() - i,
    {
        if a[i] != b[i] {
            return false;
        }
        i += 1;
    }
    proof {
        assert(a@ =~= b@);
    }
    true
}

/// A fresh buffer holding the same bytes as `src`.
fn copy_bytes(src: &Vec<u8>) -> (r: Vec<u8>)
    ensures
        r@ == src@,
{
    let mut out: Vec<u8> = Vec::new();
    let mut i: usize = 0;
    while i < src.len()
        invariant
            i <= src.len(),
            out@ == src@.take(i as int),
        decreases src.len() - i,
    {
        out.push(src[i]);
        i += 1;
        proof {
            assert(out@ =~= src@.take(i as int));
        }
    }
    proof {
        assert(src@.take(src@.len() as int) =~= src@);
    }
    out
}

} // verus!

//! The pinned read handle: a single-owner view over one engine read result.

use vstd::prelude::*;

use crate::engine::Engine;

verus! {

/// Owns the buffer that one successful pinned read produced.
///
/// A value of this type exists only as the direct result of a successful
/// engine read: [`Engine::get_pinned`] builds it through [`DBPinnableSlice::from_c`]
/// and there is no zero-argument constructor.  The type is deliberately not
/// `Clone`: a handle can be moved, never duplicated, so the release that
/// [`DBPinnableSlice::destroy`] performs can only ever happen once per handle.
/// Every byte view handed out by [`DBPinnableSlice::as_bytes`] borrows the
/// handle, so no view can outlive it.
pub struct DBPinnableSlice {
    buf: Vec<u8>,
}

impl View for DBPinnableSlice {
    type V = Seq<u8>;

    closed spec fn view(&self) -> Seq<u8> {
        self.buf@
    }
}

impl DBPinnableSlice {
    /// Adopts one result buffer produced by the engine's pinned read path.
    ///
    /// The caller must hand over a buffer that came out of a successful
    /// `get_pinned` and has not been adopted before; the handle takes sole
    /// ownership of it and is from then on the only path to its bytes and
    /// to its release.
    pub fn from_c(value: Vec<u8>) -> (r: DBPinnableSlice)
        ensures
            r@ == value@,
    {
        DBPinnableSlice { buf: value }
    }

    /// The read-only byte view over the pinned buffer.
    ///
    /// The length is read off the buffer on every call rather than cached,
    /// and the view borrows `self`, so it is valid exactly as long as the
    /// handle is alive.  Calling this any number of times yields views of
    /// the same bytes.
    pub fn as_bytes(&self) -> (r: &[u8])
        ensures
            r@ == self@,
    {
        self.buf.as_slice()
    }

    /// The number of bytes in the pinned buffer, via [`DBPinnableSlice::as_bytes`].
    pub fn len(&self) -> (r: usize)
        ensures
            r == self@.len(),
    {
        self.as_bytes().len()
    }

    /// Whether the pinned buffer is empty, via [`DBPinnableSlice::len`].
    pub fn is_empty(&self) -> (r: bool)
        ensures
            r == (self@.len() == 0),
    {
        self.len() == 0
    }

    /// Releases the pinned buffer back to the engine that produced it.
    ///
    /// This is the end of the handle's scope: it consumes the handle, so no
    /// byte view and no second release can follow, and it bumps the engine's
    /// release count by exactly one.  Nothing else about the engine — its
    /// store or a pending injected failure — changes.  Release itself cannot
    /// fail.
    pub fn destroy(self, engine: &mut Engine)
        requires
            old(engine).releases() < u64::MAX,
        ensures
            final(engine).releases() == old(engine).releases() + 1,
            final(engine).store() == old(engine).store(),
            final(engine).pending_failure() == old(engine).pending_failure(),
    {
        engine.record_release();
    }
}

} // verus!

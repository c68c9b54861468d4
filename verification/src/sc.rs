//! The structured clone buffer as plain data.
//!
//! The engine serialises a value graph into a buffer of bytes and reads it
//! back, possibly on another thread. This type holds what such a buffer
//! holds, the bytes and the scope they were written for, as one owned value.
//! It is never copied as a whole: whoever needs the contents elsewhere takes
//! a copy of the bytes and appends them to a buffer of their own.

use vstd::prelude::*;
use vstd::slice::*;

verus! {

/// How far a clone may travel from where it was written.
#[derive(Clone, Copy, Debug, PartialEq, Eq, Structural)]
pub enum StructuredCloneScope {
    SameProcessSameThread,
    SameProcessDifferentThread,
    DifferentProcess,
}

/// An owned buffer of serialised data.
#[derive(Debug)]
pub struct StructuredCloneBuffer {
    scope: StructuredCloneScope,
    data: Vec<u8>,
}

impl View for StructuredCloneBuffer {
    type V = Seq<u8>;

    /// The bytes that the buffer holds.
    closed spec fn view(&self) -> Seq<u8> {
        self.data@
    }
}

/// What a buffer holds after the serialiser has run on it: the payload where
/// it produced one, else what was there before.
pub open spec fn after_write(before: Seq<u8>, payload: Option<Seq<u8>>) -> Seq<u8> {
    match payload {
        Some(bytes) => bytes,
        None => before,
    }
}

impl StructuredCloneBuffer {
    /// The scope that the buffer was made for.
    pub closed spec fn clone_scope(&self) -> StructuredCloneScope {
        self.scope
    }

    /// An empty buffer for clones within `scope`.
    pub fn new(scope: StructuredCloneScope) -> (buffer: StructuredCloneBuffer)
        ensures
            buffer@ == Seq::<u8>::empty(),
            buffer.clone_scope() == scope,
    {
        StructuredCloneBuffer { scope, data: Vec::new() }
    }

    /// The scope that the buffer was made for.
    pub fn scope(&self) -> (scope: StructuredCloneScope)
        ensures
            scope == self.clone_scope(),
    {
        self.scope
    }

    /// The number of bytes in the buffer.
    pub fn len(&self) -> (n: usize)
        ensures
            n == self@.len(),
    {
        self.data.len()
    }

    /// The buffer's bytes, borrowed for as long as the buffer is.
    pub fn data(&self) -> (bytes: &[u8])
        ensures
            bytes@ == self@,
    {
        self.data.as_slice()
    }

    /// A copy of the buffer's bytes, owned by the caller and exactly as long
    /// as the buffer's data.
    pub fn copy_to_vec(&self) -> (copy: Vec<u8>)
        ensures
            copy@ == self@,
            copy@.len() == self@.len(),
    {
        let n: usize = self.data.len();
        let mut copy: Vec<u8> = Vec::with_capacity(n);
        let mut i: usize = 0;
        while i < n
            invariant
                n == self.data@.len(),
                i <= n,
                copy@ == self.data@.take(i as int),
            decreases n - i,
        {
            copy.push(self.data[i]);
            assert(self.data@.take(i as int).push(self.data@[i as int]) =~= self.data@.take(
                i + 1,
            ));
            i += 1;
        }
        assert(self.data@.take(n as int) =~= self.data@);
        copy
    }

    /// Takes the outcome of serialising a value into this buffer. A payload
    /// replaces what the buffer held and the call reports success. Without
    /// one the serialiser has failed: the buffer keeps what it held and the
    /// call reports the failure.
    pub fn write(&mut self, payload: Option<Vec<u8>>) -> (ok: bool)
        ensures
            ok == payload is Some,
            final(self)@ == after_write(old(self)@, payload.deep_view()),
            final(self).clone_scope() == old(self).clone_scope(),
    {
        match payload {
            Some(bytes) => {
                assert(bytes.deep_view() =~= bytes@);
                self.data = bytes;
                true
            },
            None => false,
        }
    }

    /// Appends `bytes` to the buffer's data. Fails, and leaves the buffer as
    /// it is, only where the data would grow beyond what can be addressed;
    /// appending nothing always succeeds and changes nothing.
    pub fn write_bytes(&mut self, bytes: &[u8]) -> (ok: bool)
        ensures
            ok == (old(self)@.len() + bytes@.len() <= usize::MAX),
            ok ==> final(self)@ == old(self)@ + bytes@,
            !ok ==> final(self)@ == old(self)@,
            bytes@.len() == 0 ==> ok && final(self)@ == old(self)@,
            final(self).clone_scope() == old(self).clone_scope(),
    {
        let n: usize = bytes.len();
        if n > usize::MAX - self.data.len() {
            return false;
        }
        let mut i: usize = 0;
        while i < n
            invariant
                n == bytes@.len(),
                i <= n,
                self.scope == old(self).scope,
                self.data@ == old(self).data@ + bytes@.take(i as int),
            decreases n - i,
        {
            self.data.push(bytes[i]);
            assert((old(self).data@ + bytes@.take(i as int)).push(bytes@[i as int]) =~= old(
                self,
            ).data@ + bytes@.take(i + 1));
            i += 1;
        }
        assert(bytes@.take(n as int) =~= bytes@);
        assert(bytes@.len() == 0 ==> old(self).data@ + bytes@ =~= old(self).data@);
        true
    }
}

} // verus!

//! The bounded accumulator for a request body.

use crate::text::{decimal, decimal_string};
use vstd::prelude::*;

verus! {

/// The default bound on a buffered request body: 10 MiB.
pub const DEFAULT_MAX_BODY_SIZE: usize = 10485760;

/// A chunk would take the buffered body past its bound.
#[derive(Debug, Clone, Copy, PartialEq, Eq, Structural)]
pub struct BodyTooLarge {
    pub max_body_size: usize,
}

/// `Request body exceeds maximum size of <n> bytes`.
pub open spec fn too_large_message(max_body_size: nat) -> Seq<char> {
    "Request body exceeds maximum size of "@ + decimal(max_body_size) + " bytes"@
}

impl BodyTooLarge {
    /// A one-line description for logs and violation records.
    pub fn message(&self) -> (r: String)
        ensures
            r@ == too_large_message(self.max_body_size as nat),
    {
        let mut m = "Request body exceeds maximum size of ".to_owned();
        m.append(decimal_string(self.max_body_size as u64).as_str());
        m.append(" bytes");
        m
    }
}

/// Raw request body bytes, never more than `max_body_size` of them.
pub struct BodyInspector {
    max_body_size: usize,
    buffer: Vec<u8>,
    enabled: bool,
}

impl BodyInspector {
    /// The buffered body is within its bound.
    pub closed spec fn wf(&self) -> bool {
        self.buffer@.len() <= self.max_body_size
    }

    /// A well-formed inspector holds no more than its bound.
    pub proof fn lemma_bounded(&self)
        requires
            self.wf(),
        ensures
            self.buffered().len() <= self.max_size(),
    {
    }

    pub closed spec fn max_size(&self) -> usize {
        self.max_body_size
    }

    pub closed spec fn is_enabled(&self) -> bool {
        self.enabled
    }

    /// The bytes buffered so far.
    pub closed spec fn buffered(&self) -> Seq<u8> {
        self.buffer@
    }

    pub fn new(max_body_size: usize, enabled: bool) -> (r: BodyInspector)
        ensures
            r.max_size() == max_body_size,
            r.is_enabled() == enabled,
            r.buffered() == Seq::<u8>::empty(),
            r.wf(),
    {
        BodyInspector { max_body_size, buffer: Vec::new(), enabled }
    }

    pub fn max_body_size(&self) -> (r: usize)
        ensures
            r == self.max_size(),
    {
        self.max_body_size
    }

    pub fn enabled(&self) -> (r: bool)
        ensures
            r == self.is_enabled(),
    {
        self.enabled
    }

    /// Adds a chunk. A disabled inspector ignores it; a chunk that would take
    /// the buffer past its bound is refused and leaves the buffer as it was.
    pub fn append_chunk(&mut self, chunk: &[u8]) -> (r: Result<(), BodyTooLarge>)
        requires
            old(self).wf(),
        ensures
            final(self).wf(),
            final(self).max_size() == old(self).max_size(),
            final(self).is_enabled() == old(self).is_enabled(),
            !old(self).is_enabled() ==> r is Ok && final(self).buffered() == old(self).buffered(),
            old(self).is_enabled() && old(self).buffered().len() + chunk@.len() > old(self).max_size()
                ==> r == Err::<(), BodyTooLarge>(BodyTooLarge { max_body_size: old(self).max_size() })
                && final(self).buffered() == old(self).buffered(),
            old(self).is_enabled() && old(self).buffered().len() + chunk@.len() <= old(self).max_size()
                ==> r is Ok && final(self).buffered() == old(self).buffered() + chunk@,
            final(self).buffered().len() <= final(self).max_size(),
    {
        if !self.enabled {
            return Ok(());
        }
        if chunk.len() > self.max_body_size - self.buffer.len() {
            return Err(BodyTooLarge { max_body_size: self.max_body_size });
        }
        self.buffer.extend_from_slice(chunk);
        proof {
            assert(self.buffer@ =~= old(self).buffer@ + chunk@);
        }
        Ok(())
    }

    /// A copy of the bytes buffered so far.
    pub fn get_body(&self) -> (r: Vec<u8>)
        ensures
            r@ == self.buffered(),
    {
        self.buffer.clone()
    }

    /// Releases the buffer.
    pub fn clear(&mut self)
        ensures
            final(self).wf(),
            final(self).max_size() == old(self).max_size(),
            final(self).is_enabled() == old(self).is_enabled(),
            final(self).buffered() == Seq::<u8>::empty(),
    {
        self.buffer = Vec::new();
    }
}

} // verus!

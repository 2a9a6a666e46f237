//! What a request carries besides its content.
use vstd::prelude::*;

verus! {

/// Per-request state: whether the request came in the binary
/// (flatbuffers) format, so that errors are answered in it too.
pub struct RequestContext {
    pub is_flatbuffers_: bool,
}

impl RequestContext {
    /// Whether the request is in the binary format.
    pub fn is_flatbuffers(&self) -> (r: bool)
        ensures
            r == self.is_flatbuffers_,
    {
        self.is_flatbuffers_
    }

    /// Marks the request as one in the binary format.
    pub fn set_flatbuffers(&mut self)
        ensures
            final(self).is_flatbuffers_,
    {
        self.is_flatbuffers_ = true;
    }
}

} // verus!

//! Encoded messages kept alive for the SDK, and a validation hook for
//! requests.
use vstd::prelude::*;

verus! {

/// The bytes of an encoded message.
pub struct ProtoBuffer {
    buffer: Vec<u8>,
}

impl ProtoBuffer {
    pub closed spec fn bytes(&self) -> Seq<u8> {
        self.buffer@
    }

    /// Holds the bytes of an encoded message.
    pub fn new(encoded: Vec<u8>) -> (r: Self)
        ensures
            r.bytes() == encoded@,
    {
        ProtoBuffer { buffer: encoded }
    }

    /// The encoded bytes.
    pub fn as_bytes(&self) -> (r: &[u8])
        ensures
            r@ == self.bytes(),
    {
        self.buffer.as_slice()
    }

    /// The number of encoded bytes.
    pub fn len(&self) -> (r: usize)
        ensures
            r == self.bytes().len(),
    {
        self.buffer.len()
    }

    /// Whether the encoding is empty.
    pub fn is_empty(&self) -> (r: bool)
        ensures
            r == (self.bytes().len() == 0),
    {
        self.buffer.len() == 0
    }
}

/// A check that a request carries the fields it needs.
pub trait Validate {
    type Error;

    fn validate(&self) -> Result<(), Self::Error>;
}

} // verus!

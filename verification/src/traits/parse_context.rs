use vstd::prelude::*;

verus! {

/// A type that can be decoded from raw bytes with an already-built value of
/// itself as context.
pub trait ParsableContext: Sized {
    /// The error the decoder reports.
    type Error;

    /// Decodes a value of the implementing type from raw bytes, reading the
    /// context the receiver holds.
    fn parse(&mut self, bytes: &[u8]) -> Result<Self, Self::Error>;
}

} // verus!

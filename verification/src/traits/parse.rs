use vstd::prelude::*;

verus! {

/// A type that can be decoded from raw bytes. Each implementing type's
/// inherent decoder carries the exact contract; this trait only gives the
/// decoders a common shape.
pub trait Parsable: Sized {
    /// The error the decoder reports.
    type Error;

    /// Decodes a value of the implementing type from raw bytes.
    fn parse(bytes: &[u8]) -> Result<Self, Self::Error>;
}

} // verus!

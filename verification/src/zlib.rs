use vstd::prelude::*;

verus! {

/// What inflating a zlib stream yields: the decompressed bytes, or nothing
/// when the stream is not well-formed. Inflation is a function of the input
/// bytes alone, so the result carries no other dependence; nothing further
/// is assumed about its value.
pub uninterp spec fn zlib_inflate(s: Seq<u8>) -> Option<Seq<u8>>;

/// Relies on flate2's ZlibDecoder: reading it to the end inflates the whole
/// zlib stream in `bytes`, a deterministic function of those bytes, and
/// reports an error exactly when the stream is malformed.
#[verifier::external_body]
pub(crate) fn inflate(bytes: &[u8]) -> (r: Option<Vec<u8>>)
    ensures
        r is Some <==> zlib_inflate(bytes@) is Some,
        r matches Some(v) ==> zlib_inflate(bytes@) == Some(v@),
{
    let mut decoder = flate2::read::ZlibDecoder::new(bytes);
    let mut out: Vec<u8> = Vec::new();
    match std::io::Read::read_to_end(&mut decoder, &mut out) {
        Ok(_) => Some(out),
        Err(_) => None,
    }
}

} // verus!

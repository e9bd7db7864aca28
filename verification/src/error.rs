use vstd::prelude::*;

verus! {

/// Every way a PSARC buffer can be rejected, from the first magic check down
/// to per-block decompression.
#[derive(Debug, Clone, Copy, PartialEq, Eq, Structural)]
pub enum PsarcError {
    /// Fewer bytes remain than a fixed-size field needs.
    Truncated,
    /// The magic tag at the start of the buffer is not `PSAR`.
    InvalidHeader,
    /// The version decoder was handed a slice that is not exactly 4 bytes.
    InvalidLength,
    /// The 4-byte compression tag is neither `zlib` nor `lzma`.
    UnknownCompression,
    /// The 4-byte flags field holds a value other than 0, 1 or 2.
    UnknownFlags,
    /// The derived block-size-table length is negative or not an integer.
    CorruptToc,
    /// An entry index at or beyond the entry count.
    IndexOutOfRange,
    /// A declared block size exceeds the bytes that remain in the buffer.
    TruncatedBlock,
    /// A compressed block that the decompressor rejects.
    CorruptBlock,
    /// A block-compressed entry in an archive whose compression kind has no
    /// decoder here (only ZLIB blocks are decodable).
    UnsupportedCompression,
    /// A manifest whose decompressed bytes are not valid UTF-8.
    InvalidUtf8,
}

} // verus!

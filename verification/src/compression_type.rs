use vstd::prelude::*;
use vstd::string::StringExecFns;
use crate::error::PsarcError;

verus! {

/// The compression algorithm used for every block of the archive. Only ZLIB
/// blocks can be decompressed here; LZMA is tagged but has no decoder.
#[derive(Debug, Clone, Copy, PartialEq, Eq, Structural)]
pub enum PSArchiveCompression {
    /// LZMA compression.
    LZMA,
    /// ZLIB compression.
    ZLIB,
    /// Placeholder for a compression kind that never parsed.
    ERROR,
}

/// The bytes of the ASCII tag `lzma`.
pub open spec fn lzma_tag() -> Seq<u8> {
    seq![0x6cu8, 0x7au8, 0x6du8, 0x61u8]
}

/// The bytes of the ASCII tag `zlib`.
pub open spec fn zlib_tag() -> Seq<u8> {
    seq![0x7au8, 0x6cu8, 0x69u8, 0x62u8]
}

/// The compression kind a 4-byte tag denotes, if any.
pub open spec fn compression_of(s: Seq<u8>) -> Option<PSArchiveCompression> {
    if s == lzma_tag() {
        Some(PSArchiveCompression::LZMA)
    } else if s == zlib_tag() {
        Some(PSArchiveCompression::ZLIB)
    } else {
        None
    }
}

impl PSArchiveCompression {
    /// Decodes the compression tag: the whole input must equal the ASCII
    /// bytes `lzma` or `zlib`, case-sensitively and with no trimming.
    pub fn parse(bytes: &[u8]) -> (r: Result<Self, PsarcError>)
        ensures
            r matches Ok(c) ==> compression_of(bytes@) == Some(c),
            r matches Err(e) ==> compression_of(bytes@) is None && e
                == PsarcError::UnknownCompression,
    {
        if bytes.len() == 4 {
            if bytes[0] == 0x6c && bytes[1] == 0x7a && bytes[2] == 0x6d && bytes[3] == 0x61 {
                proof {
                    assert(bytes@ =~= lzma_tag());
                }
                return Ok(PSArchiveCompression::LZMA);
            }
            if bytes[0] == 0x7a && bytes[1] == 0x6c && bytes[2] == 0x69 && bytes[3] == 0x62 {
                proof {
                    assert(bytes@ =~= zlib_tag());
                }
                return Ok(PSArchiveCompression::ZLIB);
            }
        }
        proof {
            assert(bytes@ != lzma_tag() && bytes@ != zlib_tag()) by {
                if bytes@ == lzma_tag() || bytes@ == zlib_tag() {
                    assert(bytes@.len() == 4);
                }
            }
        }
        Err(PsarcError::UnknownCompression)
    }

    /// Renders the compression kind the way the tag is written in an
    /// archive, or an explanation for the kind that never parses.
    pub fn display_string(&self) -> (r: String)
        ensures
            *self == PSArchiveCompression::LZMA ==> r@ == "lzma"@,
            *self == PSArchiveCompression::ZLIB ==> r@ == "zlib"@,
            *self == PSArchiveCompression::ERROR ==> r@ == "Error parsing Archive Compression"@,
    {
        match self {
            PSArchiveCompression::LZMA => String::from_str("lzma"),
            PSArchiveCompression::ZLIB => String::from_str("zlib"),
            PSArchiveCompression::ERROR => String::from_str("Error parsing Archive Compression"),
        }
    }
}

impl crate::traits::Parsable for PSArchiveCompression {
    type Error = PsarcError;

    /// Decodes the tag; `PSArchiveCompression::parse` carries the contract.
    fn parse(bytes: &[u8]) -> Result<Self, PsarcError> {
        Self::parse(bytes)
    }
}

impl Default for PSArchiveCompression {
    /// A compression kind that no tag produced yet.
    fn default() -> (r: Self)
        ensures
            r == PSArchiveCompression::ERROR,
    {
        PSArchiveCompression::ERROR
    }
}

} // verus!

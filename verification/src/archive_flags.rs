use vstd::prelude::*;
use vstd::string::StringExecFns;
use crate::error::PsarcError;

verus! {

/// How the manifest's path strings are meant to be interpreted. The value is
/// carried through parsing but not otherwise acted on here.
#[derive(Debug, Clone, Copy, PartialEq, Eq, Structural)]
pub enum PSArchiveFlags {
    /// Relative paths.
    RELATIVE,
    /// Case-insensitive paths.
    IGNORECASE,
    /// Absolute paths.
    ABSOLUTE,
    /// Placeholder for a flags field that never parsed.
    ERROR,
}

/// The flags a 4-byte field denotes, if any: a big-endian 32-bit integer
/// restricted to 0, 1 or 2 in the low byte.
pub open spec fn flags_of(s: Seq<u8>) -> Option<PSArchiveFlags> {
    if s == seq![0u8, 0u8, 0u8, 0u8] {
        Some(PSArchiveFlags::RELATIVE)
    } else if s == seq![0u8, 0u8, 0u8, 1u8] {
        Some(PSArchiveFlags::IGNORECASE)
    } else if s == seq![0u8, 0u8, 0u8, 2u8] {
        Some(PSArchiveFlags::ABSOLUTE)
    } else {
        None
    }
}

impl PSArchiveFlags {
    /// Decodes the flags field: the whole input must be one of the three
    /// recognized 4-byte values; anything else is a hard parse error.
    pub fn parse(bytes: &[u8]) -> (r: Result<Self, PsarcError>)
        ensures
            r matches Ok(f) ==> flags_of(bytes@) == Some(f),
            r matches Err(e) ==> flags_of(bytes@) is None && e == PsarcError::UnknownFlags,
    {
        if bytes.len() == 4 && bytes[0] == 0 && bytes[1] == 0 && bytes[2] == 0 {
            if bytes[3] == 0 {
                proof {
                    assert(bytes@ =~= seq![0u8, 0u8, 0u8, 0u8]);
                }
                return Ok(PSArchiveFlags::RELATIVE);
            }
            if bytes[3] == 1 {
                proof {
                    assert(bytes@ =~= seq![0u8, 0u8, 0u8, 1u8]);
                }
                return Ok(PSArchiveFlags::IGNORECASE);
            }
            if bytes[3] == 2 {
                proof {
                    assert(bytes@ =~= seq![0u8, 0u8, 0u8, 2u8]);
                }
                return Ok(PSArchiveFlags::ABSOLUTE);
            }
        }
        proof {
            assert(flags_of(bytes@) is None) by {
                if flags_of(bytes@) is Some {
                    assert(bytes@.len() == 4);
                }
            }
        }
        Err(PsarcError::UnknownFlags)
    }

    /// Renders the flags in words, or an explanation for the value that
    /// never parses.
    pub fn display_string(&self) -> (r: String)
        ensures
            *self == PSArchiveFlags::RELATIVE ==> r@ == "relative"@,
            *self == PSArchiveFlags::IGNORECASE ==> r@ == "ignorecase"@,
            *self == PSArchiveFlags::ABSOLUTE ==> r@ == "absolute"@,
            *self == PSArchiveFlags::ERROR ==> r@ == "Error parsing Archive Flags"@,
    {
        match self {
            PSArchiveFlags::RELATIVE => String::from_str("relative"),
            PSArchiveFlags::IGNORECASE => String::from_str("ignorecase"),
            PSArchiveFlags::ABSOLUTE => String::from_str("absolute"),
            PSArchiveFlags::ERROR => String::from_str("Error parsing Archive Flags"),
        }
    }
}

impl crate::traits::Parsable for PSArchiveFlags {
    type Error = PsarcError;

    /// Decodes the field; `PSArchiveFlags::parse` carries the contract.
    fn parse(bytes: &[u8]) -> Result<Self, PsarcError> {
        Self::parse(bytes)
    }
}

impl Default for PSArchiveFlags {
    /// A flags value that no field produced yet.
    fn default() -> (r: Self)
        ensures
            r == PSArchiveFlags::ERROR,
    {
        PSArchiveFlags::ERROR
    }
}

} // verus!

use vstd::prelude::*;
use crate::error::PsarcError;
use crate::reader::be_value;

verus! {

/// One table-of-contents entry: where a member file's bytes start in the
/// archive, where its blocks start in the block-size table, and its declared
/// size once decompressed.
#[derive(Debug, Clone, Copy)]
pub struct PSArchiveTableItem {
    /// The declared MD5 digest of the decompressed content; carried, never
    /// verified against the content.
    pub md5_digest: [u8; 16],
    /// The index into the archive-wide block-size table where this entry's
    /// blocks begin.
    pub block_offset: u32,
    /// The decompressed size, a 40-bit big-endian value on disk.
    pub uncompressed_size: u64,
    /// The absolute byte offset into the archive buffer where this entry's
    /// raw (possibly compressed) bytes start; 40-bit big-endian on disk.
    pub file_offset: u64,
}

/// The number of meaningful bytes at the front of a table entry: the digest,
/// the block offset and the two 40-bit fields. A larger stride pads with
/// bytes the decoder discards.
pub const TABLE_ITEM_BYTES: usize = 30;

/// Whether `it` holds exactly the fields encoded at the front of `s`.
pub open spec fn item_matches(s: Seq<u8>, it: PSArchiveTableItem) -> bool {
    &&& s.len() >= 30
    &&& it.md5_digest@ == s.subrange(0, 16)
    &&& it.block_offset == be_value(s.subrange(16, 20))
    &&& it.uncompressed_size == be_value(s.subrange(20, 25))
    &&& it.file_offset == be_value(s.subrange(25, 30))
}

impl PSArchiveTableItem {
    /// Decodes one table entry from the front of `bytes`: a 16-byte digest,
    /// a 32-bit block offset and two 40-bit values, all big-endian. Trailing
    /// padding up to the caller's stride is ignored.
    pub fn parse(bytes: &[u8]) -> (r: Result<Self, PsarcError>)
        ensures
            bytes@.len() >= 30 ==> (r matches Ok(it) && item_matches(bytes@, it)),
            bytes@.len() < 30 ==> (r matches Err(e) && e == PsarcError::Truncated),
    {
        if bytes.len() < TABLE_ITEM_BYTES {
            return Err(PsarcError::Truncated);
        }
        let md5_digest: [u8; 16] = [
            bytes[0],
            bytes[1],
            bytes[2],
            bytes[3],
            bytes[4],
            bytes[5],
            bytes[6],
            bytes[7],
            bytes[8],
            bytes[9],
            bytes[10],
            bytes[11],
            bytes[12],
            bytes[13],
            bytes[14],
            bytes[15],
        ];
        let tail = &bytes[16..bytes.len()];
        let (block_offset, tail) = match crate::reader::read_u32_be(tail) {
            Ok(p) => p,
            Err(e) => {
                return Err(e);
            },
        };
        let (uncompressed_size, tail) = match crate::reader::read_u40_be(tail) {
            Ok(p) => p,
            Err(e) => {
                return Err(e);
            },
        };
        let (file_offset, _tail) = match crate::reader::read_u40_be(tail) {
            Ok(p) => p,
            Err(e) => {
                return Err(e);
            },
        };
        let it = PSArchiveTableItem { md5_digest, block_offset, uncompressed_size, file_offset };
        proof {
            assert(it.md5_digest@ =~= bytes@.subrange(0, 16));
            assert(bytes@.skip(16).take(4) =~= bytes@.subrange(16, 20));
            assert(bytes@.skip(16).skip(4) =~= bytes@.skip(20));
            assert(bytes@.skip(20).take(5) =~= bytes@.subrange(20, 25));
            assert(bytes@.skip(20).skip(5) =~= bytes@.skip(25));
            assert(bytes@.skip(25).take(5) =~= bytes@.subrange(25, 30));
        }
        Ok(it)
    }
}

impl PartialEq for PSArchiveTableItem {
    /// Entries are equal when every stored field is, the digest compared
    /// byte for byte.
    fn eq(&self, other: &Self) -> (r: bool) {
        let mut digest_eq = true;
        let mut i: usize = 0;
        while i < 16
            invariant
                0 <= i <= 16,
                digest_eq <==> (forall|j: int|
                    0 <= j < i ==> self.md5_digest@[j] == other.md5_digest@[j]),
            decreases 16 - i,
        {
            if self.md5_digest[i] != other.md5_digest[i] {
                digest_eq = false;
            }
            i = i + 1;
        }
        proof {
            if digest_eq {
                assert(self.md5_digest@ =~= other.md5_digest@);
            }
        }
        digest_eq && self.block_offset == other.block_offset && self.uncompressed_size
            == other.uncompressed_size && self.file_offset == other.file_offset
    }
}

impl vstd::std_specs::cmp::PartialEqSpecImpl for PSArchiveTableItem {
    open spec fn obeys_eq_spec() -> bool {
        true
    }

    open spec fn eq_spec(&self, other: &Self) -> bool {
        &&& self.md5_digest@ == other.md5_digest@
        &&& self.block_offset == other.block_offset
        &&& self.uncompressed_size == other.uncompressed_size
        &&& self.file_offset == other.file_offset
    }
}

impl Eq for PSArchiveTableItem {

}

impl Default for PSArchiveTableItem {
    /// An entry with an all-zero digest and zero offsets and size.
    fn default() -> (r: Self)
        ensures
            forall|i: int| 0 <= i < 16 ==> r.md5_digest@[i] == 0,
            r.block_offset == 0,
            r.uncompressed_size == 0,
            r.file_offset == 0,
    {
        PSArchiveTableItem {
            md5_digest: [0u8; 16],
            block_offset: 0,
            uncompressed_size: 0,
            file_offset: 0,
        }
    }
}

} // verus!

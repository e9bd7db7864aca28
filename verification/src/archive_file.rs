use vstd::prelude::*;
use vstd::slice::slice_to_vec;
use vstd::utf8::{decode_utf8, valid_utf8};
use crate::compression_type::{compression_of, PSArchiveCompression};
use crate::error::PsarcError;
use crate::reader::be_value;
use crate::table_of_content::{toc_matches, toc_parse_err, PSArchiveTOC};
use crate::text::split_bytes;
use crate::version::PSArchiveVersion;
use crate::zlib::zlib_inflate;

verus! {

/// Entries whose declared decompressed size is at or below this many bytes
/// are treated as stored (raw, not block-compressed). The format has no
/// per-entry stored flag; this threshold is the policy standing in for one,
/// and `parse_file_with_threshold` lets a caller override it.
pub const STORED_THRESHOLD: u64 = 100;

/// The bytes of the magic tag `PSAR` that every archive starts with.
pub open spec fn psar_tag() -> Seq<u8> {
    seq![0x50u8, 0x53u8, 0x41u8, 0x52u8]
}

/// A decoded archive: the header fields and the table of contents. The raw
/// buffer stays with the caller; extraction reads it again through offsets
/// held here, so the structure never copies the archive's contents.
#[derive(Debug, Clone)]
pub struct PSArchive {
    /// The archive file version.
    pub version: PSArchiveVersion,
    /// The compression algorithm for every block of the archive.
    pub compression: PSArchiveCompression,
    /// The table of contents.
    pub table_of_contents: PSArchiveTOC,
    /// The total size of the archive file in bytes; parsing leaves it zero,
    /// and a caller that wants `get_size_offset` for the last entry sets it.
    pub file_size: usize,
}

/// How decoding an archive from `s` fails, if it does: the magic tag first,
/// then the version and compression fields, then the table of contents.
pub open spec fn archive_parse_err(s: Seq<u8>) -> Option<PsarcError> {
    if s.len() < 4 || s.take(4) != psar_tag() {
        Some(PsarcError::InvalidHeader)
    } else if s.len() < 12 {
        Some(PsarcError::Truncated)
    } else if compression_of(s.subrange(8, 12)) is None {
        Some(PsarcError::UnknownCompression)
    } else {
        toc_parse_err(s.skip(12))
    }
}

/// Whether `a` holds exactly what the front of `s` encodes: the version and
/// compression fields and the full table of contents.
pub open spec fn archive_matches(s: Seq<u8>, a: PSArchive) -> bool {
    &&& s.len() >= 12
    &&& s.take(4) == psar_tag()
    &&& a.version.major == be_value(s.subrange(4, 6))
    &&& a.version.minor == be_value(s.subrange(6, 8))
    &&& compression_of(s.subrange(8, 12)) == Some(a.compression)
    &&& toc_matches(s.skip(12), a.table_of_contents)
    &&& a.file_size == 0
}

/// The result of decompressing blocks `b .. bend` in order, starting at
/// byte `pos` of the buffer: each block occupies the next `sizes[k]` bytes
/// and inflates independently; the decompressed pieces are concatenated.
pub open spec fn walk_blocks(
    buf: Seq<u8>,
    sizes: Seq<u16>,
    b: int,
    bend: int,
    pos: int,
) -> Result<Seq<u8>, PsarcError>
    decreases bend - b,
{
    if b >= bend {
        Ok(Seq::<u8>::empty())
    } else if !(0 <= b < sizes.len()) {
        Err(PsarcError::CorruptToc)
    } else {
        let sz = sizes[b] as int;
        if pos + sz > buf.len() {
            Err(PsarcError::TruncatedBlock)
        } else {
            match zlib_inflate(buf.subrange(pos, pos + sz)) {
                None => Err(PsarcError::CorruptBlock),
                Some(piece) => match walk_blocks(buf, sizes, b + 1, bend, pos + sz) {
                    Ok(tail) => Ok(piece + tail),
                    Err(e) => Err(e),
                },
            }
        }
    }
}

/// What extracting entry `idx` from an archive over buffer `buf` yields: the
/// stored bytes verbatim when the declared size is within `threshold`, and
/// otherwise the concatenated decompression of the entry's blocks, which run
/// from its block offset up to the next entry's (or to the end of the block
/// table for the last entry).
pub open spec fn extract_spec(a: PSArchive, buf: Seq<u8>, idx: int, threshold: u64) -> Result<
    Seq<u8>,
    PsarcError,
> {
    let entries = a.table_of_contents.entries@;
    let sizes = a.table_of_contents.block_sizes@;
    if !(0 <= idx < entries.len()) {
        Err(PsarcError::IndexOutOfRange)
    } else {
        let it = entries[idx];
        if it.file_offset > buf.len() {
            Err(PsarcError::Truncated)
        } else if it.uncompressed_size <= threshold {
            if it.file_offset + it.uncompressed_size > buf.len() {
                Err(PsarcError::Truncated)
            } else {
                Ok(buf.subrange(it.file_offset as int, it.file_offset + it.uncompressed_size))
            }
        } else if a.compression != PSArchiveCompression::ZLIB {
            Err(PsarcError::UnsupportedCompression)
        } else {
            let bend = if idx + 1 < entries.len() {
                entries[idx + 1].block_offset as int
            } else {
                sizes.len() as int
            };
            walk_blocks(buf, sizes, it.block_offset as int, bend, it.file_offset as int)
        }
    }
}

/// What reading the manifest yields: entry 0 extracted, split on line feeds,
/// each piece decoded as UTF-8; any piece that is not valid UTF-8 rejects
/// the whole manifest.
pub open spec fn manifest_spec(a: PSArchive, buf: Seq<u8>) -> Result<Seq<Seq<char>>, PsarcError> {
    match extract_spec(a, buf, 0, STORED_THRESHOLD) {
        Err(e) => Err(e),
        Ok(data) => {
            let pieces = split_bytes(data, 10);
            if forall|i: int| 0 <= i < pieces.len() ==> valid_utf8(#[trigger] pieces[i]) {
                Ok(pieces.map_values(|p: Seq<u8>| decode_utf8(p)))
            } else {
                Err(PsarcError::InvalidUtf8)
            }
        },
    }
}

impl PSArchive {
    /// Decodes an archive: the magic tag, the version, the compression kind
    /// and the table of contents, in that order, each consuming bytes where
    /// the previous field stopped. No extraction happens here; entries are
    /// decoded from the buffer on demand.
    pub fn parse(bytes: &[u8]) -> (r: Result<Self, PsarcError>)
        ensures
            r matches Ok(a) ==> archive_parse_err(bytes@) is None && archive_matches(bytes@, a),
            r matches Ok(a) ==> a.table_of_contents.wf(),
            r matches Err(e) ==> archive_parse_err(bytes@) == Some(e),
    {
        let ghost s = bytes@;
        if bytes.len() < 4 || !(bytes[0] == 0x50 && bytes[1] == 0x53 && bytes[2] == 0x41
            && bytes[3] == 0x52) {
            proof {
                if s.len() >= 4 && s.take(4) == psar_tag() {
                    assert(s.take(4)[0] == 0x50 && s.take(4)[1] == 0x53 && s.take(4)[2] == 0x41
                        && s.take(4)[3] == 0x52);
                }
            }
            return Err(PsarcError::InvalidHeader);
        }
        proof {
            assert(s.take(4) =~= psar_tag());
        }
        if bytes.len() < 12 {
            return Err(PsarcError::Truncated);
        }
        let version = match PSArchiveVersion::parse(&bytes[4..8]) {
            Ok(v) => v,
            Err(e) => {
                return Err(e);
            },
        };
        let compression = match PSArchiveCompression::parse(&bytes[8..12]) {
            Ok(c) => c,
            Err(e) => {
                return Err(e);
            },
        };
        let table_of_contents = match PSArchiveTOC::parse(&bytes[12..bytes.len()]) {
            Ok(p) => p.0,
            Err(e) => {
                return Err(e);
            },
        };
        proof {
            assert(s.subrange(4, 8).take(2) =~= s.subrange(4, 6));
            assert(s.subrange(4, 8).skip(2) =~= s.subrange(6, 8));
        }
        Ok(PSArchive { version, compression, table_of_contents, file_size: 0 })
    }

    /// The byte span of the manifest entry: its length up to where the first
    /// content entry's bytes start, and its offset. The archive must hold a
    /// manifest and at least one further entry, laid out in file order.
    pub fn get_manifest_size_offset(&self) -> (r: (usize, usize))
        requires
            self.table_of_contents.entries@.len() >= 2,
            self.table_of_contents.entries@[0].file_offset
                <= self.table_of_contents.entries@[1].file_offset,
            self.table_of_contents.entries@[1].file_offset <= usize::MAX,
        ensures
            r.0 == self.table_of_contents.entries@[1].file_offset
                - self.table_of_contents.entries@[0].file_offset,
            r.1 == self.table_of_contents.entries@[0].file_offset,
    {
        let manifest_offset: u64 = self.table_of_contents.entries[0].file_offset;
        let next_offset: u64 = self.table_of_contents.entries[1].file_offset;
        ((next_offset - manifest_offset) as usize, manifest_offset as usize)
    }

    /// The byte span of content entry `item` (entry `item + 1` of the table;
    /// the manifest is not counted): up to the byte before the next entry's
    /// offset, or up to `file_size` for the last entry. Entries must be laid
    /// out in file order with at least one byte between consecutive ones.
    pub fn get_size_offset(&self, item: usize) -> (r: (usize, usize))
        requires
            item + 2 <= self.table_of_contents.entries@.len(),
            self.table_of_contents.entries@[item + 1].file_offset <= usize::MAX,
            item + 2 == self.table_of_contents.entries@.len()
                ==> self.table_of_contents.entries@[item + 1].file_offset <= self.file_size,
            item + 2 < self.table_of_contents.entries@.len() ==> {
                &&& self.table_of_contents.entries@[item + 1].file_offset + 1
                    <= self.table_of_contents.entries@[item + 2].file_offset
                &&& self.table_of_contents.entries@[item + 2].file_offset <= usize::MAX
            },
        ensures
            r.1 == self.table_of_contents.entries@[item + 1].file_offset,
            item + 2 == self.table_of_contents.entries@.len() ==> r.0 == self.file_size
                - self.table_of_contents.entries@[item + 1].file_offset,
            item + 2 < self.table_of_contents.entries@.len() ==> r.0
                == self.table_of_contents.entries@[item + 2].file_offset
                - self.table_of_contents.entries@[item + 1].file_offset - 1,
    {
        let n: usize = self.table_of_contents.entries.len();
        let offset: u64 = self.table_of_contents.entries[item + 1].file_offset;
        if item + 2 == n {
            (self.file_size - offset as usize, offset as usize)
        } else {
            let next: u64 = self.table_of_contents.entries[item + 2].file_offset;
            ((next - offset - 1) as usize, offset as usize)
        }
    }

    /// Extracts entry `item` with the default stored-size threshold.
    pub fn parse_file(&self, item: usize, bytes: &[u8]) -> (r: Result<Vec<u8>, PsarcError>)
        ensures
            r matches Ok(v) ==> (extract_spec(*self, bytes@, item as int, STORED_THRESHOLD)
                matches Ok(d) && v@ == d),
            r matches Err(e) ==> extract_spec(*self, bytes@, item as int, STORED_THRESHOLD)
                == Err::<Seq<u8>, PsarcError>(e),
    {
        self.parse_file_with_threshold(item, bytes, STORED_THRESHOLD)
    }

    /// Extracts entry `item` from the archive buffer: stored entries are the
    /// declared number of bytes at the entry's offset, and block-compressed
    /// entries are rebuilt by decompressing each of their blocks in order
    /// and concatenating the results. The entry's blocks end where the next
    /// entry's begin, or at the end of the block table for the last entry;
    /// that range walks the buffer from the entry's offset, each block
    /// taking as many bytes as the block-size table declares for it.
    #[verifier::loop_isolation(false)]
    pub fn parse_file_with_threshold(&self, item: usize, bytes: &[u8], threshold: u64) -> (r:
        Result<Vec<u8>, PsarcError>)
        ensures
            r matches Ok(v) ==> (extract_spec(*self, bytes@, item as int, threshold) matches Ok(d)
                && v@ == d),
            r matches Err(e) ==> extract_spec(*self, bytes@, item as int, threshold) == Err::<
                Seq<u8>,
                PsarcError,
            >(e),
    {
        let entries = &self.table_of_contents.entries;
        if item >= entries.len() {
            return Err(PsarcError::IndexOutOfRange);
        }
        let it = entries[item];
        let len64: u64 = bytes.len() as u64;
        if it.file_offset > len64 {
            return Err(PsarcError::Truncated);
        }
        let fo: usize = it.file_offset as usize;
        if it.uncompressed_size <= threshold {
            if it.uncompressed_size > len64 - it.file_offset {
                return Err(PsarcError::Truncated);
            }
            let end: usize = fo + it.uncompressed_size as usize;
            return Ok(slice_to_vec(&bytes[fo..end]));
        }
        match self.compression {
            PSArchiveCompression::ZLIB => {},
            _ => {
                return Err(PsarcError::UnsupportedCompression);
            },
        }
        let sizes = &self.table_of_contents.block_sizes;
        let bstart: usize = it.block_offset as usize;
        let bend: usize = if item + 1 < entries.len() {
            entries[item + 1].block_offset as usize
        } else {
            sizes.len()
        };
        let mut out: Vec<u8> = Vec::new();
        let mut pos: usize = fo;
        let mut b: usize = bstart;
        proof {
            assert(Seq::<u8>::empty() + walk_ok_value(bytes@, sizes@, b as int, bend as int, pos as int)
                =~= walk_ok_value(bytes@, sizes@, b as int, bend as int, pos as int));
        }
        while b < bend
            invariant
                pos <= bytes@.len(),
                walk_blocks(bytes@, sizes@, bstart as int, bend as int, fo as int) == (match
                    walk_blocks(bytes@, sizes@, b as int, bend as int, pos as int) {
                    Ok(tail) => Ok::<Seq<u8>, PsarcError>(out@ + tail),
                    Err(e) => Err::<Seq<u8>, PsarcError>(e),
                }),
            decreases bend - b,
        {
            if b >= sizes.len() {
                return Err(PsarcError::CorruptToc);
            }
            let sz: usize = sizes[b] as usize;
            if sz > bytes.len() - pos {
                return Err(PsarcError::TruncatedBlock);
            }
            let chunk = &bytes[pos..pos + sz];
            let mut piece = match crate::zlib::inflate(chunk) {
                None => {
                    return Err(PsarcError::CorruptBlock);
                },
                Some(p) => p,
            };
            let ghost prev_out = out@;
            let ghost piece_seq = piece@;
            out.append(&mut piece);
            pos = pos + sz;
            b = b + 1;
            proof {
                assert(out@ =~= prev_out + piece_seq);
                let tail_r = walk_blocks(bytes@, sizes@, b as int, bend as int, pos as int);
                match tail_r {
                    Ok(tail) => {
                        assert(prev_out + (piece_seq + tail) =~= out@ + tail);
                    },
                    Err(_) => {},
                }
            }
        }
        Ok(out)
    }

    /// Reads the manifest: extracts entry 0, splits it on line feeds and
    /// decodes each piece as UTF-8, yielding one path per remaining entry in
    /// table order.
    #[verifier::loop_isolation(false)]
    pub fn parse_manifest(&self, bytes: &[u8]) -> (r: Result<Vec<String>, PsarcError>)
        ensures
            r matches Ok(v) ==> (manifest_spec(*self, bytes@) matches Ok(ss) && v.deep_view()
                == ss),
            r matches Err(e) ==> manifest_spec(*self, bytes@) == Err::<Seq<Seq<char>>, PsarcError>(
                e,
            ),
    {
        let data = match self.parse_file(0, bytes) {
            Ok(d) => d,
            Err(e) => {
                return Err(e);
            },
        };
        let pieces = crate::text::split_on(data.as_slice(), 10);
        let ghost pieces_dv = pieces.deep_view();
        proof {
            assert forall|k: int| 0 <= k < pieces@.len() implies pieces_dv[k] == pieces@[k]@ by {
                assert(pieces@[k].deep_view() =~= pieces@[k]@);
            }
        }
        let mut out: Vec<String> = Vec::new();
        let mut i: usize = 0;
        while i < pieces.len()
            invariant
                0 <= i <= pieces@.len(),
                pieces.deep_view() == pieces_dv,
                pieces_dv.len() == pieces@.len(),
                forall|k: int| 0 <= k < pieces@.len() ==> #[trigger] pieces_dv[k] == pieces@[k]@,
                out@.len() == i,
                forall|k: int|
                    0 <= k < i ==> valid_utf8(#[trigger] pieces_dv[k]) && out@[k]@ == decode_utf8(
                        pieces_dv[k],
                    ),
            decreases pieces@.len() - i,
        {
            let piece = match crate::text::bytes_to_string(pieces[i].as_slice()) {
                Some(p) => p,
                None => {
                    proof {
                        assert(!valid_utf8(pieces_dv[i as int]));
                    }
                    return Err(PsarcError::InvalidUtf8);
                },
            };
            out.push(piece);
            i = i + 1;
        }
        proof {
            let pieces_spec = split_bytes(data@, 10);
            assert(pieces_dv == pieces_spec);
            assert(out.deep_view() =~= pieces_spec.map_values(|p: Seq<u8>| decode_utf8(p)));
        }
        Ok(out)
    }
}

impl crate::traits::Parsable for PSArchive {
    type Error = PsarcError;

    /// Decodes an archive; `PSArchive::parse` carries the contract.
    fn parse(bytes: &[u8]) -> Result<Self, PsarcError> {
        Self::parse(bytes)
    }
}

/// Extraction is idempotent: every call's result equals the one extraction
/// function of the archive, the buffer and the entry index, so extracting
/// the same entry twice yields identical results.
pub proof fn lemma_extract_idempotent(
    a: PSArchive,
    buf: Seq<u8>,
    idx: int,
    threshold: u64,
    r1: Result<Seq<u8>, PsarcError>,
    r2: Result<Seq<u8>, PsarcError>,
)
    requires
        r1 == extract_spec(a, buf, idx, threshold),
        r2 == extract_spec(a, buf, idx, threshold),
    ensures
        r1 == r2,
{
}

/// The decompressed bytes that a successful block walk yields; used only to
/// seed the extraction loop's accumulator reasoning.
pub open spec fn walk_ok_value(buf: Seq<u8>, sizes: Seq<u16>, b: int, bend: int, pos: int) -> Seq<
    u8,
> {
    match walk_blocks(buf, sizes, b, bend, pos) {
        Ok(t) => t,
        Err(_) => Seq::<u8>::empty(),
    }
}

} // verus!

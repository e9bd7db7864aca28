use vstd::prelude::*;
use vstd::arithmetic::mul::{
    lemma_mul_basics,
    lemma_mul_inequality,
    lemma_mul_is_distributive_add_other_way,
    lemma_mul_upper_bound,
};
use crate::archive_flags::{flags_of, PSArchiveFlags};
use crate::archive_table::{item_matches, PSArchiveTableItem};
use crate::error::PsarcError;
use crate::reader::{be_value, lemma_be_value_bound};

verus! {

/// The table of contents: four 32-bit header fields and the flags, then one
/// fixed-stride entry per member file, then the derived block-size table.
#[derive(Debug, Clone)]
pub struct PSArchiveTOC {
    /// The total byte length of the TOC region, counted from the start of
    /// the archive (it includes the 32-byte archive header).
    pub length: u32,
    /// The stride of each table entry in bytes.
    pub entry_size: u32,
    /// The number of table entries.
    pub entry_count: u32,
    /// The nominal decompressed size of one compression block.
    pub block_size: u32,
    /// How the manifest's paths are to be interpreted.
    pub flags: PSArchiveFlags,
    /// The table entries, in on-disk order.
    pub entries: Vec<PSArchiveTableItem>,
    /// The derived length of the block-size table; never stored on disk.
    pub block_count: usize,
    /// The compressed size of each block, archive-wide.
    pub block_sizes: Vec<u16>,
}

impl PSArchiveTOC {
    /// The structural invariant every parsed table of contents satisfies:
    /// the entry and block-size sequences have exactly the declared and
    /// derived lengths, and the declared TOC length accounts for the header,
    /// the entries and the block-size table with nothing left over.
    pub open spec fn wf(&self) -> bool {
        &&& self.entries@.len() == self.entry_count
        &&& self.block_sizes@.len() == self.block_count
        &&& self.length >= 32 + self.entry_count * self.entry_size
        &&& (self.length - 32 - self.entry_count * self.entry_size) % 2 == 0
        &&& self.block_count == (self.length - 32 - self.entry_count * self.entry_size) / 2
    }
}

/// Where the block-size table starts, relative to the first TOC byte (the
/// `length` field): the 20 header bytes, then the entries at their stride.
pub open spec fn toc_blocks_base(s: Seq<u8>) -> int {
    20 + be_value(s.subrange(8, 12)) * be_value(s.subrange(4, 8)) as int
}

/// How decoding a table of contents from `s` fails, if it does. The order
/// mirrors the decoder: header fields and flags first, then the entries,
/// then the derived block count, then the block sizes.
pub open spec fn toc_parse_err(s: Seq<u8>) -> Option<PsarcError> {
    if s.len() < 20 {
        Some(PsarcError::Truncated)
    } else if flags_of(s.subrange(16, 20)) is None {
        Some(PsarcError::UnknownFlags)
    } else {
        let length = be_value(s.subrange(0, 4)) as int;
        let es = be_value(s.subrange(4, 8)) as int;
        let ec = be_value(s.subrange(8, 12)) as int;
        if s.len() < 20 + ec * es || (ec > 0 && es < 30) {
            Some(PsarcError::Truncated)
        } else if length < 32 + ec * es || (length - 32 - ec * es) % 2 != 0 {
            Some(PsarcError::CorruptToc)
        } else if s.len() < 20 + ec * es + (length - 32 - ec * es) {
            Some(PsarcError::Truncated)
        } else {
            None
        }
    }
}

/// Whether `toc` holds exactly the fields, entries and block sizes encoded
/// at the front of `s`.
pub open spec fn toc_matches(s: Seq<u8>, toc: PSArchiveTOC) -> bool {
    let es = be_value(s.subrange(4, 8)) as int;
    let ec = be_value(s.subrange(8, 12)) as int;
    let base = 20 + ec * es;
    &&& s.len() >= 20
    &&& toc.length == be_value(s.subrange(0, 4))
    &&& toc.entry_size == es
    &&& toc.entry_count == ec
    &&& toc.block_size == be_value(s.subrange(12, 16))
    &&& flags_of(s.subrange(16, 20)) == Some(toc.flags)
    &&& toc.entries@.len() == ec
    &&& forall|i: int|
        0 <= i < ec ==> item_matches(
            s.subrange(20 + i * es, 20 + (i + 1) * es),
            #[trigger] toc.entries@[i],
        )
    &&& toc.length >= 32 + ec * es
    &&& (toc.length - 32 - ec * es) % 2 == 0
    &&& toc.block_count == (toc.length - 32 - ec * es) / 2
    &&& toc.block_sizes@.len() == toc.block_count
    &&& s.len() >= base + 2 * toc.block_count
    &&& forall|j: int|
        0 <= j < toc.block_count ==> #[trigger] toc.block_sizes@[j] == be_value(
            s.subrange(base + 2 * j, base + 2 * j + 2),
        )
}

impl PSArchiveTOC {
    /// Decodes the table of contents from the front of `bytes` and returns
    /// it with the unconsumed remainder, which is where the archive's block
    /// data region begins. Decoding is fail-fast: the first missing or
    /// malformed field decides the error, and no partial table is returned.
    #[verifier::loop_isolation(false)]
    pub fn parse<'a>(bytes: &'a [u8]) -> (r: Result<(Self, &'a [u8]), PsarcError>)
        ensures
            r matches Ok(p) ==> {
                &&& toc_parse_err(bytes@) is None
                &&& toc_matches(bytes@, p.0)
                &&& p.0.wf()
                &&& p.1@ == bytes@.skip(toc_blocks_base(bytes@) + 2 * p.0.block_count)
            },
            r matches Err(e) ==> toc_parse_err(bytes@) == Some(e),
    {
        let ghost s = bytes@;
        let (length, rest) = match crate::reader::read_u32_be(bytes) {
            Ok(p) => p,
            Err(e) => {
                return Err(e);
            },
        };
        let (entry_size, rest) = match crate::reader::read_u32_be(rest) {
            Ok(p) => p,
            Err(e) => {
                return Err(e);
            },
        };
        let (entry_count, rest) = match crate::reader::read_u32_be(rest) {
            Ok(p) => p,
            Err(e) => {
                return Err(e);
            },
        };
        let (block_size, rest) = match crate::reader::read_u32_be(rest) {
            Ok(p) => p,
            Err(e) => {
                return Err(e);
            },
        };
        let (flag_bytes, rest) = match crate::reader::take_bytes(rest, 4) {
            Ok(p) => p,
            Err(e) => {
                return Err(e);
            },
        };
        proof {
            assert(s.skip(4).take(4) =~= s.subrange(4, 8));
            assert(s.skip(4).skip(4) =~= s.skip(8));
            assert(s.skip(8).take(4) =~= s.subrange(8, 12));
            assert(s.skip(8).skip(4) =~= s.skip(12));
            assert(s.skip(12).take(4) =~= s.subrange(12, 16));
            assert(s.skip(12).skip(4) =~= s.skip(16));
            assert(s.skip(16).take(4) =~= s.subrange(16, 20));
            assert(s.skip(16).skip(4) =~= s.skip(20));
        }
        let flags = match PSArchiveFlags::parse(flag_bytes) {
            Ok(f) => f,
            Err(e) => {
                return Err(e);
            },
        };
        let ghost es = entry_size as int;
        let ghost ec = entry_count as int;
        let mut entries: Vec<PSArchiveTableItem> = Vec::new();
        let mut cur: &[u8] = rest;
        let mut i: u32 = 0;
        while i < entry_count
            invariant
                0 <= i <= ec,
                ec == entry_count,
                es == entry_size,
                s.len() >= 20,
                20 + i * es <= s.len(),
                cur@ == s.skip(20 + i * es),
                entries@.len() == i,
                forall|k: int|
                    0 <= k < i ==> item_matches(
                        s.subrange(20 + k * es, 20 + (k + 1) * es),
                        #[trigger] entries@[k],
                    ),
            decreases ec - i,
        {
            let ghost pos = 20 + i * es;
            let (chunk, next) = match crate::reader::take_bytes(cur, entry_size as usize) {
                Ok(p) => p,
                Err(_) => {
                    proof {
                        assert(s.len() < pos + es);
                        lemma_mul_is_distributive_add_other_way(es, i as int, 1);
                        lemma_mul_basics(es);
                        lemma_mul_inequality(i + 1, ec, es);
                        assert(s.len() < 20 + ec * es);
                    }
                    return Err(PsarcError::Truncated);
                },
            };
            let item = match PSArchiveTableItem::parse(chunk) {
                Ok(it) => it,
                Err(_) => {
                    proof {
                        assert(chunk@.len() == es);
                        assert(es < 30 && ec > 0);
                    }
                    return Err(PsarcError::Truncated);
                },
            };
            entries.push(item);
            proof {
                lemma_mul_is_distributive_add_other_way(es, i as int, 1);
                lemma_mul_basics(es);
                lemma_mul_inequality(i + 1, ec, es);
                assert(chunk@ =~= s.subrange(20 + i * es, 20 + (i + 1) * es));
                assert(next@ =~= s.skip(20 + (i + 1) * es));
            }
            cur = next;
            i = i + 1;
        }
        proof {
            lemma_be_value_bound(s.subrange(0, 4));
            lemma_be_value_bound(s.subrange(4, 8));
            lemma_be_value_bound(s.subrange(8, 12));
        }
        proof {
            lemma_mul_upper_bound(ec, 0xffff_ffff, es, 0xffff_ffff);
            if entry_count > 0 {
                assert(item_matches(s.subrange(20 + 0 * es, 20 + (0 + 1) * es), entries@[0]));
                lemma_mul_basics(es);
                lemma_mul_inequality(1, ec, es);
                assert(es >= 30);
            }
        }
        let need: u64 = 32 + (entry_count as u64) * (entry_size as u64);
        if (length as u64) < need || ((length as u64) - need) % 2 != 0 {
            return Err(PsarcError::CorruptToc);
        }
        let block_count: usize = (((length as u64) - need) / 2) as usize;
        let ghost base = 20 + ec * es;
        let mut block_sizes: Vec<u16> = Vec::new();
        let mut j: usize = 0;
        while j < block_count
            invariant
                0 <= j <= block_count,
                block_count == (length - 32 - ec * es) / 2,
                (length - 32 - ec * es) % 2 == 0,
                length >= 32 + ec * es,
                base == 20 + ec * es,
                base + 2 * j <= s.len(),
                cur@ == s.skip(base + 2 * j),
                block_sizes@.len() == j,
                forall|k: int|
                    0 <= k < j ==> #[trigger] block_sizes@[k] == be_value(
                        s.subrange(base + 2 * k, base + 2 * k + 2),
                    ),
            decreases block_count - j,
        {
            let (sz, next) = match crate::reader::read_u16_be(cur) {
                Ok(p) => p,
                Err(_) => {
                    proof {
                        assert(s.len() < base + 2 * j + 2);
                        assert(s.len() < base + 2 * block_count);
                        assert(2 * block_count == length - 32 - ec * es);
                    }
                    return Err(PsarcError::Truncated);
                },
            };
            block_sizes.push(sz);
            proof {
                assert(cur@.take(2) =~= s.subrange(base + 2 * j, base + 2 * j + 2));
                assert(next@ =~= s.skip(base + 2 * (j + 1)));
            }
            cur = next;
            j = j + 1;
        }
        let toc = PSArchiveTOC {
            length,
            entry_size,
            entry_count,
            block_size,
            flags,
            entries,
            block_count,
            block_sizes,
        };
        proof {
            assert(2 * toc.block_count == length - 32 - ec * es);
            assert(toc_parse_err(s) is None);
            assert(toc_matches(s, toc));
        }
        Ok((toc, cur))
    }
}

} // verus!

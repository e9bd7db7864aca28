//! Extraction and manifest tests: the stored-size threshold boundary, the
//! block walk, idempotence, and one input for every error the library
//! reports.

use std::io::Write;

use psarc_lib::PSArchive;
use psarc_lib::PSArchiveFlags;
use psarc_lib::PsarcError;

const XML_CONTENT: &str = "<TextData>\r\n\t<Property name=\"color\" value=\"#ff0000\" />\r\n\t<Property name=\"text\" value=\"Hello there!\" />\r\n</TextData>";
const MANIFEST_PATH: &str = "/data/example.xml";

fn be40(v: u64) -> [u8; 5] {
    let b = v.to_be_bytes();
    [b[3], b[4], b[5], b[6], b[7]]
}

fn zlib_compress(data: &[u8]) -> Vec<u8> {
    let mut enc = flate2::write::ZlibEncoder::new(Vec::new(), flate2::Compression::default());
    enc.write_all(data).unwrap();
    enc.finish().unwrap()
}

fn build_archive(
    compression: &str,
    flags: u32,
    entries: &[(u32, u64, u64)],
    block_sizes: &[u16],
    data: &[u8],
) -> Vec<u8> {
    let entry_count = entries.len() as u32;
    let toc_length = 32 + entry_count * 30 + 2 * block_sizes.len() as u32;
    let mut v = Vec::new();
    v.extend_from_slice("PSAR".as_bytes());
    v.extend_from_slice(&[0, 1, 0, 4]);
    v.extend_from_slice(compression.as_bytes());
    v.extend_from_slice(&toc_length.to_be_bytes());
    v.extend_from_slice(&30u32.to_be_bytes());
    v.extend_from_slice(&entry_count.to_be_bytes());
    v.extend_from_slice(&65536u32.to_be_bytes());
    v.extend_from_slice(&flags.to_be_bytes());
    for &(block_offset, uncompressed_size, file_offset) in entries {
        v.extend_from_slice(&[0u8; 16]);
        v.extend_from_slice(&block_offset.to_be_bytes());
        v.extend_from_slice(&be40(uncompressed_size));
        v.extend_from_slice(&be40(file_offset));
    }
    for &bs in block_sizes {
        v.extend_from_slice(&bs.to_be_bytes());
    }
    v.extend_from_slice(data);
    v
}

/// A single-entry archive whose entry 0 holds `content` verbatim when it is
/// at or under the stored threshold, and one zlib block of it otherwise.
/// The TOC is 64 bytes, so the data region starts at offset 64.
fn single_entry_archive(compression: &str, content: &[u8]) -> Vec<u8> {
    if content.len() <= 100 {
        build_archive(
            compression,
            2,
            &[(0, content.len() as u64, 64)],
            &[content.len() as u16],
            content,
        )
    } else {
        let compressed = zlib_compress(content);
        build_archive(
            compression,
            2,
            &[(0, content.len() as u64, 64)],
            &[compressed.len() as u16],
            &compressed,
        )
    }
}

#[test]
fn test_fixture_entry_content() {
    let bytes = single_entry_archive("zlib", XML_CONTENT.as_bytes());
    let archive = PSArchive::parse(&bytes).unwrap();
    let content = archive.parse_file(0, &bytes).unwrap();
    assert_eq!(content, XML_CONTENT.as_bytes());
}

#[test]
fn test_extract_idempotent() {
    let bytes = single_entry_archive("zlib", XML_CONTENT.as_bytes());
    let archive = PSArchive::parse(&bytes).unwrap();
    let first = archive.parse_file(0, &bytes).unwrap();
    let second = archive.parse_file(0, &bytes).unwrap();
    assert_eq!(first, second);
}

#[test]
fn test_stored_threshold_at_boundary() {
    // Exactly 100 declared bytes: the stored path, raw bytes verbatim.
    let content = vec![7u8; 100];
    let bytes = single_entry_archive("zlib", &content);
    let archive = PSArchive::parse(&bytes).unwrap();
    assert_eq!(archive.parse_file(0, &bytes).unwrap(), content);
}

#[test]
fn test_stored_threshold_above_boundary() {
    // 101 declared bytes: the block-walking path through the decompressor.
    let content = vec![7u8; 101];
    let bytes = single_entry_archive("zlib", &content);
    let archive = PSArchive::parse(&bytes).unwrap();
    // The bytes at the entry's offset are compressed, not the content.
    assert_ne!(&bytes[64..], &content[..]);
    assert_eq!(archive.parse_file(0, &bytes).unwrap(), content);
}

#[test]
fn test_multi_block_extraction() {
    // Two blocks compressed independently; extraction concatenates them.
    let first_half = vec![1u8; 120];
    let second_half = vec![2u8; 80];
    let block0 = zlib_compress(&first_half);
    let block1 = zlib_compress(&second_half);
    let mut data = block0.clone();
    data.extend_from_slice(&block1);
    let bytes = build_archive(
        "zlib",
        2,
        &[(0, 200, 66)],
        &[block0.len() as u16, block1.len() as u16],
        &data,
    );
    let archive = PSArchive::parse(&bytes).unwrap();
    let mut expected = first_half.clone();
    expected.extend_from_slice(&second_half);
    assert_eq!(archive.parse_file(0, &bytes).unwrap(), expected);
}

#[test]
fn test_manifest_single_path() {
    let bytes = single_entry_archive("zlib", MANIFEST_PATH.as_bytes());
    let archive = PSArchive::parse(&bytes).unwrap();
    let files = archive.parse_manifest(&bytes).unwrap();
    assert_eq!(files, vec![MANIFEST_PATH.to_string()]);
}

#[test]
fn test_manifest_trailing_line_feed() {
    let mut content = MANIFEST_PATH.as_bytes().to_vec();
    content.push(b'\n');
    let bytes = single_entry_archive("zlib", &content);
    let archive = PSArchive::parse(&bytes).unwrap();
    let files = archive.parse_manifest(&bytes).unwrap();
    assert_eq!(files, vec![MANIFEST_PATH.to_string(), String::new()]);
}

#[test]
fn test_manifest_compressed_paths() {
    // A manifest over the threshold goes through the decompressor too.
    let long_path = "/data/some/deeply/nested/directory/structure/example_file_name.xml";
    let manifest = format!("{}\n{}", long_path, long_path);
    assert!(manifest.len() > 100);
    let bytes = single_entry_archive("zlib", manifest.as_bytes());
    let archive = PSArchive::parse(&bytes).unwrap();
    let files = archive.parse_manifest(&bytes).unwrap();
    assert_eq!(files, vec![long_path.to_string(), long_path.to_string()]);
}

#[test]
fn test_truncated_buffer_fails_cleanly() {
    // Fewer than 4 bytes: rejected, no panic, no out-of-bounds read.
    assert_eq!(PSArchive::parse(&[]).unwrap_err(), PsarcError::InvalidHeader);
    assert_eq!(PSArchive::parse(&[0x50, 0x53]).unwrap_err(), PsarcError::InvalidHeader);
    assert_eq!(PSArchive::parse(&[0x50, 0x53, 0x41]).unwrap_err(), PsarcError::InvalidHeader);
}

#[test]
fn test_invalid_header() {
    let bytes = single_entry_archive("zlib", &[1, 2, 3]);
    let mut wrong = bytes.clone();
    wrong[0] = b'X';
    assert_eq!(PSArchive::parse(&wrong).unwrap_err(), PsarcError::InvalidHeader);
}

#[test]
fn test_truncated_header() {
    // The magic alone, or magic plus version: too short for the fields.
    let good = single_entry_archive("zlib", &[1, 2, 3]);
    assert_eq!(PSArchive::parse(&good[..4]).unwrap_err(), PsarcError::Truncated);
    assert_eq!(PSArchive::parse(&good[..8]).unwrap_err(), PsarcError::Truncated);
    assert_eq!(PSArchive::parse(&good[..16]).unwrap_err(), PsarcError::Truncated);
    assert_eq!(PSArchive::parse(&good[..40]).unwrap_err(), PsarcError::Truncated);
}

#[test]
fn test_unknown_compression() {
    let mut bytes = single_entry_archive("zlib", &[1, 2, 3]);
    bytes[8..12].copy_from_slice("nope".as_bytes());
    assert_eq!(PSArchive::parse(&bytes).unwrap_err(), PsarcError::UnknownCompression);
}

#[test]
fn test_unknown_flags() {
    let bytes = build_archive("zlib", 9, &[(0, 3, 64)], &[3], &[1, 2, 3]);
    assert_eq!(PSArchive::parse(&bytes).unwrap_err(), PsarcError::UnknownFlags);
    assert_eq!(
        PSArchiveFlags::parse(&[0, 0, 0, 9]),
        Err(PsarcError::UnknownFlags)
    );
}

#[test]
fn test_corrupt_toc() {
    // A declared TOC length that leaves an odd number of bytes for the
    // block-size table, and one too small for the header and entries.
    let mut bytes = single_entry_archive("zlib", &[1, 2, 3]);
    bytes[0xC..0x10].copy_from_slice(&63u32.to_be_bytes());
    assert_eq!(PSArchive::parse(&bytes).unwrap_err(), PsarcError::CorruptToc);
    bytes[0xC..0x10].copy_from_slice(&30u32.to_be_bytes());
    assert_eq!(PSArchive::parse(&bytes).unwrap_err(), PsarcError::CorruptToc);
}

#[test]
fn test_index_out_of_range() {
    let bytes = single_entry_archive("zlib", &[1, 2, 3]);
    let archive = PSArchive::parse(&bytes).unwrap();
    assert_eq!(archive.parse_file(5, &bytes), Err(PsarcError::IndexOutOfRange));
}

#[test]
fn test_truncated_block() {
    // The block-size table declares more bytes than the buffer holds.
    let content = vec![7u8; 101];
    let compressed = zlib_compress(&content);
    let bytes = build_archive(
        "zlib",
        2,
        &[(0, 101, 64)],
        &[compressed.len() as u16 + 50],
        &compressed,
    );
    let archive = PSArchive::parse(&bytes).unwrap();
    assert_eq!(archive.parse_file(0, &bytes), Err(PsarcError::TruncatedBlock));
}

#[test]
fn test_corrupt_block() {
    // Ten bytes that are not a zlib stream where a block should be.
    let garbage = [0xFFu8; 10];
    let bytes = build_archive("zlib", 2, &[(0, 101, 64)], &[10], &garbage);
    let archive = PSArchive::parse(&bytes).unwrap();
    assert_eq!(archive.parse_file(0, &bytes), Err(PsarcError::CorruptBlock));
}

#[test]
fn test_lzma_blocks_unsupported() {
    // LZMA archives parse, but their blocks have no decoder here.
    let content = vec![7u8; 101];
    let compressed = zlib_compress(&content);
    let bytes = build_archive(
        "lzma",
        2,
        &[(0, 101, 64)],
        &[compressed.len() as u16],
        &compressed,
    );
    let archive = PSArchive::parse(&bytes).unwrap();
    assert_eq!(
        archive.parse_file(0, &bytes),
        Err(PsarcError::UnsupportedCompression)
    );
}

#[test]
fn test_lzma_stored_entry_extracts() {
    // A stored entry skips decompression, so it extracts from any archive.
    let bytes = single_entry_archive("lzma", &[1, 2, 3]);
    let archive = PSArchive::parse(&bytes).unwrap();
    assert_eq!(archive.parse_file(0, &bytes).unwrap(), vec![1, 2, 3]);
}

#[test]
fn test_manifest_invalid_utf8() {
    let bytes = single_entry_archive("zlib", &[0xFF, 0xFE, 0xFD]);
    let archive = PSArchive::parse(&bytes).unwrap();
    assert_eq!(archive.parse_manifest(&bytes), Err(PsarcError::InvalidUtf8));
}

#[test]
fn test_custom_threshold() {
    // With the threshold lowered to 2, a 3-byte entry goes down the block
    // path instead of the stored path.
    let content = [9u8, 9, 9];
    let compressed = zlib_compress(&content);
    let bytes = build_archive(
        "zlib",
        2,
        &[(0, 3, 64)],
        &[compressed.len() as u16],
        &compressed,
    );
    let archive = PSArchive::parse(&bytes).unwrap();
    // The default threshold treats the entry as stored: the raw (compressed)
    // bytes come back verbatim.
    assert_eq!(archive.parse_file(0, &bytes).unwrap(), compressed[..3].to_vec());
    assert_eq!(
        archive.parse_file_with_threshold(0, &bytes, 2).unwrap(),
        vec![9, 9, 9]
    );
}

//! The decoder tests: header fields, table items and the whole archive,
//! against a small two-entry archive laid out exactly as the format
//! prescribes.

use std::io::Write;

use psarc_lib::ConvertAsBytes;
use psarc_lib::PSArchive;
use psarc_lib::PSArchiveCompression;
use psarc_lib::PSArchiveFlags;
use psarc_lib::PSArchiveTableItem;
use psarc_lib::PSArchiveVersion;

const XML_CONTENT: &str = "<TextData>\r\n\t<Property name=\"color\" value=\"#ff0000\" />\r\n\t<Property name=\"text\" value=\"Hello there!\" />\r\n</TextData>";
const MANIFEST_PATH: &str = "/data/example.xml";

fn be40(v: u64) -> [u8; 5] {
    let b = v.to_be_bytes();
    [b[3], b[4], b[5], b[6], b[7]]
}

fn zlib_compress(data: &[u8]) -> Vec<u8> {
    let mut enc = flate2::write::ZlibEncoder::new(Vec::new(), flate2::Compression::default());
    enc.write_all(data).unwrap();
    enc.finish().unwrap()
}

fn build_archive(
    compression: &str,
    flags: u32,
    entries: &[(u32, u64, u64)],
    block_sizes: &[u16],
    data: &[u8],
) -> Vec<u8> {
    let entry_count = entries.len() as u32;
    let toc_length = 32 + entry_count * 30 + 2 * block_sizes.len() as u32;
    let mut v = Vec::new();
    v.extend_from_slice("PSAR".as_bytes());
    v.extend_from_slice(&[0, 1, 0, 4]);
    v.extend_from_slice(compression.as_bytes());
    v.extend_from_slice(&toc_length.to_be_bytes());
    v.extend_from_slice(&30u32.to_be_bytes());
    v.extend_from_slice(&entry_count.to_be_bytes());
    v.extend_from_slice(&65536u32.to_be_bytes());
    v.extend_from_slice(&flags.to_be_bytes());
    for &(block_offset, uncompressed_size, file_offset) in entries {
        v.extend_from_slice(&[0u8; 16]);
        v.extend_from_slice(&block_offset.to_be_bytes());
        v.extend_from_slice(&be40(uncompressed_size));
        v.extend_from_slice(&be40(file_offset));
    }
    for &bs in block_sizes {
        v.extend_from_slice(&bs.to_be_bytes());
    }
    v.extend_from_slice(data);
    v
}

/// The reference archive: entry 0 is the manifest, stored raw (17 bytes);
/// entry 1 is the XML content, one zlib block. The TOC occupies bytes
/// 0x00..0x60, the manifest sits at 96 and the block data at 113.
fn test_archive() -> Vec<u8> {
    let compressed = zlib_compress(XML_CONTENT.as_bytes());
    let mut data = MANIFEST_PATH.as_bytes().to_vec();
    data.extend_from_slice(&compressed);
    build_archive(
        "zlib",
        2,
        &[(0, 17, 96), (1, 115, 113)],
        &[17, compressed.len() as u16],
        &data,
    )
}

#[test]
fn test_version_parsing() {
    let bytes = test_archive()[0x4..0x8].to_vec();
    let result = PSArchiveVersion::parse(&bytes[..]);
    assert!(result.is_ok());
    let result = result.unwrap();
    assert_eq!(result.major, 1);
    assert_eq!(result.minor, 4);
}

#[test]
fn test_version_display() {
    let bytes = test_archive()[0x4..0x8].to_vec();
    let result = PSArchiveVersion::parse(&bytes[..]).unwrap();
    assert_eq!(result.display_string(), "v1.4");
}

#[test]
fn test_flags_parsing() {
    let bytes = test_archive()[0x1C..0x20].to_vec();
    let result = PSArchiveFlags::parse(&bytes);
    assert!(result.is_ok());
    let result = result.unwrap();
    assert_eq!(result, PSArchiveFlags::ABSOLUTE);
}

#[test]
fn test_archive_table_item_parsing_manifest() {
    let bytes = test_archive()[0x20..0x3E].to_vec();
    let result = PSArchiveTableItem::parse(&bytes[..]);
    assert!(result.is_ok());
    let result = result.unwrap();
    assert_eq!(
        result,
        PSArchiveTableItem {
            md5_digest: [0u8; 16],
            block_offset: 0,
            uncompressed_size: 17,
            file_offset: 96
        }
    );
}

#[test]
fn test_archive_table_item_parsing_item() {
    let bytes = test_archive()[0x3E..0x5C].to_vec();
    let result = PSArchiveTableItem::parse(&bytes[..]);
    assert!(result.is_ok());
    let result = result.unwrap();
    assert_eq!(
        result,
        PSArchiveTableItem {
            md5_digest: [0u8; 16],
            block_offset: 1,
            uncompressed_size: 115,
            file_offset: 113,
        }
    );
}

#[test]
fn test_compression_parsing_lzma() {
    let bytes = "lzma".as_bytes();
    let result = PSArchiveCompression::parse(bytes);
    assert!(result.is_ok());
    let result = result.unwrap();
    assert_eq!(result, PSArchiveCompression::LZMA);
}

#[test]
fn test_compression_parsing_zlib() {
    let bytes = "zlib".as_bytes();
    let result = PSArchiveCompression::parse(bytes);
    assert!(result.is_ok());
    let result = result.unwrap();
    assert_eq!(result, PSArchiveCompression::ZLIB);
}

#[test]
fn test_compression_parsing_error() {
    let bytes = "nope".as_bytes();
    let result = PSArchiveCompression::parse(bytes);
    assert!(result.is_err());
}

#[test]
fn test_compression_display() {
    let bytes = "lzma".as_bytes();
    let result = PSArchiveCompression::parse(bytes).unwrap();
    assert_eq!(result.display_string(), "lzma");
}

#[test]
fn test_archive_parsing() {
    let bytes = test_archive();
    let result = PSArchive::parse(&bytes);
    assert!(result.is_ok());
    let mut result = result.unwrap();
    result.file_size = bytes.len();

    assert_eq!(result.version, PSArchiveVersion { major: 1, minor: 4 });
    assert_eq!(result.compression, PSArchiveCompression::ZLIB);
    assert_eq!(result.table_of_contents.length, 96);
    assert_eq!(result.table_of_contents.entry_size, 30);
    assert_eq!(result.table_of_contents.entry_count, 2);
    assert_eq!(result.table_of_contents.flags, PSArchiveFlags::ABSOLUTE);
    assert_eq!(result.table_of_contents.block_count, 2);
    assert_eq!(result.table_of_contents.block_sizes.len(), 2);
    assert_eq!(result.table_of_contents.entries.len(), 2);
    assert_eq!(
        result.table_of_contents.entries[0],
        PSArchiveTableItem {
            md5_digest: [0u8; 16],
            block_offset: 0,
            uncompressed_size: 17,
            file_offset: 96,
        }
    );
    assert_eq!(
        result.table_of_contents.entries[1],
        PSArchiveTableItem {
            md5_digest: [0u8; 16],
            block_offset: 1,
            uncompressed_size: 115,
            file_offset: 113,
        }
    );

    let (size, offset) = result.get_manifest_size_offset();
    assert_eq!((size, offset), (17, 96));

    let files = result.parse_manifest(&bytes).unwrap();
    assert_eq!(files, vec![MANIFEST_PATH.to_string()]);

    let (size, offset) = result.get_size_offset(0);
    assert_eq!(offset, 113);
    assert_eq!(size, bytes.len() - 113);

    let contents = String::from_utf8(result.parse_file(1, &bytes).unwrap());
    assert!(contents.is_ok());
    assert_eq!(contents.unwrap(), XML_CONTENT);
}

#[test]
fn test_defaults() {
    assert_eq!(PSArchiveCompression::default(), PSArchiveCompression::ERROR);
    assert_eq!(PSArchiveFlags::default(), PSArchiveFlags::ERROR);
    let item = PSArchiveTableItem::default();
    assert_eq!(item, PSArchiveTableItem {
        md5_digest: [0u8; 16],
        block_offset: 0,
        uncompressed_size: 0,
        file_offset: 0,
    });
    assert_eq!(PSArchiveFlags::default().display_string(), "Error parsing Archive Flags");
    assert_eq!(
        PSArchiveCompression::default().display_string(),
        "Error parsing Archive Compression"
    );
}

#[test]
fn test_table_item_wide_fields() {
    let mut bytes = vec![0xABu8; 16];
    bytes.extend_from_slice(&0xDEADBEEFu32.to_be_bytes());
    bytes.extend_from_slice(&[0x01, 0x23, 0x45, 0x67, 0x89]);
    bytes.extend_from_slice(&[0xFF, 0xFF, 0xFF, 0xFF, 0xFF]);
    let item = PSArchiveTableItem::parse(&bytes).unwrap();
    assert_eq!(item.md5_digest, [0xABu8; 16]);
    assert_eq!(item.block_offset, 0xDEADBEEF);
    assert_eq!(item.uncompressed_size, 0x0123456789);
    assert_eq!(item.file_offset, 0xFF_FFFF_FFFF);
}

#[test]
fn test_convert_as_bytes() {
    assert_eq!("PSAR".convert_as_bytes(), vec![0x50, 0x53, 0x41, 0x52]);
    assert_eq!(String::from("zlib").convert_as_bytes(), vec![0x7a, 0x6c, 0x69, 0x62]);
    assert_eq!(7u8.convert_as_bytes(), vec![7]);
    assert_eq!([1u8, 2, 3].convert_as_bytes(), vec![1, 2, 3]);
    assert_eq!(vec![4u8, 5].convert_as_bytes(), vec![4, 5]);
    let slice: &[u8] = &[6, 7];
    assert_eq!(slice.convert_as_bytes(), vec![6, 7]);
}

#[test]
fn test_version_rejects_wrong_length() {
    assert_eq!(
        PSArchiveVersion::parse(&[0, 1]),
        Err(psarc_lib::PsarcError::InvalidLength)
    );
    assert_eq!(
        PSArchiveVersion::parse(&[0, 1, 0, 4, 9]),
        Err(psarc_lib::PsarcError::InvalidLength)
    );
}

//! Decoder for the PSARC (PlayStation Archive) container format: a fixed
//! big-endian header, a table of contents listing each member file, and a
//! region of independently compressed blocks. Parsing turns a byte buffer
//! into structured metadata; extraction walks an entry's blocks and
//! concatenates their decompressed bytes.

pub mod archive_file;
pub mod archive_flags;
pub mod archive_table;
pub mod compression_type;
pub mod error;
pub mod reader;
pub mod table_of_content;
pub mod text;
pub mod traits;
pub mod version;
pub mod zlib;

pub use archive_file::{PSArchive, STORED_THRESHOLD};
pub use archive_flags::PSArchiveFlags;
pub use archive_table::PSArchiveTableItem;
pub use compression_type::PSArchiveCompression;
pub use error::PsarcError;
pub use table_of_content::PSArchiveTOC;
pub use traits::{ConvertAsBytes, Parsable, ParsableContext};
pub use version::PSArchiveVersion;

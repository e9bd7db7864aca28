pub mod as_bytes;
pub mod parse;
pub mod parse_context;

pub use as_bytes::ConvertAsBytes;
pub use parse::Parsable;
pub use parse_context::ParsableContext;

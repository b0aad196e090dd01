//! File contents: line-ending detection and conversion, decoding of raw
//! file bytes, and the text written back to disk.

pub mod encoding;
pub mod reader;
pub mod writer;

pub use encoding::LineEnding;
pub use reader::{decode_file_bytes, ReadResult};
pub use writer::{file_content, WriteOptions};

pub mod binary_reader;
pub mod dcx;
pub mod error;
pub mod oodle;
pub mod sf_util;

pub use binary_reader::BinaryReader;
pub use dcx::CompressionType;
pub use dcx::DCX;
pub use dcx::decompress_container;
pub use error::DcxError;
pub use oodle::CodecRevision;
pub use oodle::Oodle;
pub use oodle::OodleCompressor;
pub use sf_util::SFUtil;

//! Reads the capture timestamp out of the EXIF block of a JPEG file.

pub mod args;
pub mod bytes;
pub mod entry;
pub mod jpg;
pub mod timestamp;

pub use args::Args;
pub use entry::{IfdEntry, IfdValue};
pub use jpg::{get_timestamp, ExifError, MetadataSegment};
pub use timestamp::Timestamp;

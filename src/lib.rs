//! Binary codec for the HEVC sample entry (`hvc1`) of an ISO media container
//! and its decoder configuration record (`hvcC`), with the length-prefixed
//! NAL units that the record carries.

pub mod bytes;
pub mod fixed;
pub mod header;
pub mod hvc1;
pub mod hvcc;
pub mod laws;
pub mod nal;

pub use fixed::FixedPointU16;
pub use header::{BoxHeader, BoxType, Error, HEADER_SIZE};
pub use hvc1::{Hvc1Box, HvcConfig};
pub use hvcc::HvcCBox;
pub use nal::NalUnit;

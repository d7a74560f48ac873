//! Recovery of a still image from a slow-scan television (SSTV) recording.
//!
//! The library holds the protocol logic: the mode catalog, the search for the
//! calibration header, the reading of the identification code, the tracking
//! of sync pulses while scanlines are sampled, the composition of pixels and
//! the encoding of the finished picture. Frequencies of stretches of audio
//! are measured by the caller and handed in as plain values.

pub mod compose;
pub mod crypt;
pub mod decode;
pub mod freq;
pub mod grid;
pub mod img;
pub mod locator;
pub mod modes;
pub mod png;
pub mod ppm;
pub mod reading;
pub mod scan;
pub mod timing;
pub mod vis;

pub use crate::crypt::{crc, encode_data_zlib};
pub use crate::decode::{SSTVDecoder, SSTVSetup};
pub use crate::freq::{calc_lum, Frequency};
pub use crate::img::{Image, RGB};
pub use crate::vis::DecodeError;

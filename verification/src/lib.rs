//! Analysis of decoded lossless audio streams: integrity checksums, loudness
//! levels, duration arithmetic and the fixed-layout collection report.

pub mod checksum;
pub mod duration;
pub mod errors;
pub mod levels;
pub mod model;
pub mod parse;
pub mod process;
pub mod report;
pub mod roundtrip;
pub mod text;
pub mod walk;

pub use crate::levels::MeanSquare;
pub use crate::model::{AudioFile, AudioInfo, DecodedStream, Decibels, FlacLoadError, PeakLevel, ProcessError, RmsLevel, StreamInfo, Summary, WalkEntry};
pub use crate::process::FileAnalysis;
pub use crate::walk::{ErrorPolicy, Walk};

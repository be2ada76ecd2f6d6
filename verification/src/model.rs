//! The data of a collection report and their mathematical views.

use vstd::prelude::*;

verus! {

/// A peak amplitude as a ratio of full scale, in millionths.
#[derive(Clone, Copy, Debug, PartialEq, Eq)]
pub struct PeakLevel {
    pub millionths: u32,
}

/// A finite level in decibels: a sign and a magnitude in hundredths of a
/// decibel. The sign is kept apart so that a level that rounds to zero from
/// below stays distinct from zero.
#[derive(Clone, Copy, Debug, PartialEq, Eq)]
pub struct Decibels {
    pub negative: bool,
    pub hundredths: u64,
}

/// The RMS level of a stream: a finite number of decibels, or negative
/// infinity for a stream without energy.
#[derive(Clone, Copy, Debug, PartialEq, Eq)]
pub enum RmsLevel {
    NegInfinity,
    Finite(Decibels),
}

/// One analysed file of the collection.
#[derive(Clone, Debug, PartialEq, Eq)]
pub struct AudioFile {
    pub file_name: String,
    pub duration: String,
    pub total_samples: u64,
    pub sample_rate: u32,
    pub bit_depth: u32,
    pub channels: u32,
    pub peak_level: PeakLevel,
    pub rms_db_level: RmsLevel,
    pub crc32: String,
    pub md5: String,
}

/// What an [`AudioFile`] is to the contracts: its texts as sequences of
/// characters, its numbers as they are.
pub struct AudioFileView {
    pub file_name: Seq<char>,
    pub duration: Seq<char>,
    pub total_samples: u64,
    pub sample_rate: u32,
    pub bit_depth: u32,
    pub channels: u32,
    pub peak_level: PeakLevel,
    pub rms_db_level: RmsLevel,
    pub crc32: Seq<char>,
    pub md5: Seq<char>,
}

impl View for AudioFile {
    type V = AudioFileView;

    open spec fn view(&self) -> AudioFileView {
        AudioFileView {
            file_name: self.file_name@,
            duration: self.duration@,
            total_samples: self.total_samples,
            sample_rate: self.sample_rate,
            bit_depth: self.bit_depth,
            channels: self.channels,
            peak_level: self.peak_level,
            rms_db_level: self.rms_db_level,
            crc32: self.crc32@,
            md5: self.md5@,
        }
    }
}

/// The views of a sequence of files, in the same order.
pub open spec fn file_views(files: Seq<AudioFile>) -> Seq<AudioFileView> {
    files.map_values(|f: AudioFile| f@)
}

/// The aggregate block of a report.
#[derive(Clone, Debug, PartialEq, Eq)]
pub struct Summary {
    pub total_files: usize,
    pub total_duration: String,
    pub sample_rate: i32,
    pub bit_depth: i32,
    pub channels: i32,
}

pub struct SummaryView {
    pub total_files: usize,
    pub total_duration: Seq<char>,
    pub sample_rate: i32,
    pub bit_depth: i32,
    pub channels: i32,
}

impl View for Summary {
    type V = SummaryView;

    open spec fn view(&self) -> SummaryView {
        SummaryView {
            total_files: self.total_files,
            total_duration: self.total_duration@,
            sample_rate: self.sample_rate,
            bit_depth: self.bit_depth,
            channels: self.channels,
        }
    }
}

/// The report on a collection: a header, the summary and the files in the
/// order in which they were found.
#[derive(Clone, Debug, PartialEq, Eq)]
pub struct AudioInfo {
    pub type_: String,
    pub version: i32,
    pub created_by: String,
    pub summary: Summary,
    pub files: Vec<AudioFile>,
}

pub struct AudioInfoView {
    pub type_: Seq<char>,
    pub version: i32,
    pub created_by: Seq<char>,
    pub summary: SummaryView,
    pub files: Seq<AudioFileView>,
}

impl AudioFileView {
    /// Whether the record has one of the bit depths that are analysed, 16
    /// and 24.
    pub open spec fn has_supported_depth(self) -> bool {
        self.bit_depth == 16 || self.bit_depth == 24
    }
}

impl AudioInfoView {
    /// Whether the report is consistent: the summary counts the files, and
    /// every file has a supported bit depth.
    pub open spec fn well_formed(self) -> bool {
        &&& self.summary.total_files == self.files.len()
        &&& forall|i: int| 0 <= i < self.files.len() ==> (#[trigger] self.files[i]).has_supported_depth()
    }
}

impl View for AudioInfo {
    type V = AudioInfoView;

    open spec fn view(&self) -> AudioInfoView {
        AudioInfoView {
            type_: self.type_@,
            version: self.version,
            created_by: self.created_by@,
            summary: self.summary@,
            files: file_views(self.files@),
        }
    }
}

/// What a decoder reports of a stream apart from its samples.
#[derive(Clone, Debug, PartialEq, Eq)]
pub struct StreamInfo {
    /// Samples a second; a decoder never reports zero.
    pub sample_rate: u32,
    pub bits_per_sample: u32,
    pub channels: u32,
    /// The number of samples in each channel, where the stream states it.
    pub samples: Option<u64>,
    /// The checksum of the content that the stream carries.
    pub md5sum: Vec<u8>,
}

/// A decoded stream: what the decoder reports of it and its samples, the
/// channels interleaved.
#[derive(Clone, Debug, PartialEq, Eq)]
pub struct DecodedStream {
    pub info: StreamInfo,
    pub samples: Vec<i32>,
}

/// One entry that a walk of a directory tree meets.
#[derive(Clone, Debug, PartialEq, Eq)]
pub struct WalkEntry {
    /// The names along the path of the entry, the entry's own name last.
    pub path_segments: Vec<String>,
    pub file_name: String,
    pub is_file: bool,
}

/// Why a stream could not be opened, with the message of the cause.
#[derive(Clone, Debug, PartialEq, Eq)]
pub enum FlacLoadError {
    FileOpenError(String),
    FlacReaderError(String),
}

/// Why a file gave no record.
#[derive(Clone, Debug, PartialEq, Eq)]
pub enum ProcessError {
    NonFlacError,
    FlacLoadError(FlacLoadError),
    NoSamplesFound,
    UnsupportedBitDepth,
}

} // verus!

//! The texts of the errors, and the conversions between them.

use vstd::prelude::*;
use vstd::string::*;
use crate::model::{AudioFile, FlacLoadError, PeakLevel, ProcessError, RmsLevel, Decibels};

verus! {

/// The message of an error in opening a stream.
pub open spec fn load_error_text(error: FlacLoadError) -> Seq<char> {
    match error {
        FlacLoadError::FileOpenError(cause) => "Error opening file: "@ + cause@,
        FlacLoadError::FlacReaderError(cause) => "Error creating claxon FLAC reader: "@ + cause@,
    }
}

/// The message of an error in processing a file.
pub open spec fn process_error_text(error: ProcessError) -> Seq<char> {
    match error {
        ProcessError::FlacLoadError(cause) => "Flac load error: "@ + load_error_text(cause),
        ProcessError::NoSamplesFound => "Total samples not found"@,
        ProcessError::NonFlacError => "Non flac file found"@,
        ProcessError::UnsupportedBitDepth => "Unsupported bit depth"@,
    }
}

impl FlacLoadError {
    /// The message of the error.
    pub fn message(&self) -> (text: String)
        ensures
            text@ == load_error_text(*self),
    {
        match self {
            FlacLoadError::FileOpenError(cause) => {
                let mut text = "Error opening file: ".to_owned();
                text.append(cause.as_str());
                text
            },
            FlacLoadError::FlacReaderError(cause) => {
                let mut text = "Error creating claxon FLAC reader: ".to_owned();
                text.append(cause.as_str());
                text
            },
        }
    }
}

impl ProcessError {
    /// The message of the error.
    pub fn message(&self) -> (text: String)
        ensures
            text@ == process_error_text(*self),
    {
        match self {
            ProcessError::FlacLoadError(cause) => {
                let mut text = "Flac load error: ".to_owned();
                let inner = cause.message();
                text.append(inner.as_str());
                text
            },
            ProcessError::NoSamplesFound => "Total samples not found".to_owned(),
            ProcessError::NonFlacError => "Non flac file found".to_owned(),
            ProcessError::UnsupportedBitDepth => "Unsupported bit depth".to_owned(),
        }
    }
}

impl From<FlacLoadError> for ProcessError {
    fn from(err: FlacLoadError) -> (error: ProcessError) {
        ProcessError::FlacLoadError(err)
    }
}

impl vstd::std_specs::convert::FromSpecImpl<FlacLoadError> for ProcessError {
    open spec fn obeys_from_spec() -> bool {
        true
    }

    open spec fn from_spec(err: FlacLoadError) -> ProcessError {
        ProcessError::FlacLoadError(err)
    }
}

impl Default for AudioFile {
    /// A record with empty texts and every number zero.
    fn default() -> (file: AudioFile)
        ensures
            file.file_name@.len() == 0,
            file.duration@.len() == 0,
            file.total_samples == 0,
            file.sample_rate == 0,
            file.bit_depth == 0,
            file.channels == 0,
            file.peak_level == (PeakLevel { millionths: 0 }),
            file.rms_db_level == RmsLevel::Finite(Decibels { negative: false, hundredths: 0 }),
            file.crc32@.len() == 0,
            file.md5@.len() == 0,
    {
        AudioFile {
            file_name: String::new(),
            duration: String::new(),
            total_samples: 0,
            sample_rate: 0,
            bit_depth: 0,
            channels: 0,
            peak_level: PeakLevel { millionths: 0 },
            rms_db_level: RmsLevel::Finite(Decibels { negative: false, hundredths: 0 }),
            crc32: String::new(),
            md5: String::new(),
        }
    }
}

} // verus!

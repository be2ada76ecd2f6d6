//! From one decoded stream to the analysis of its file.

use vstd::prelude::*;
use crate::checksum::{crc32_of, crc32_text, hex_lower, pcm16_bytes, pcm24_bytes};
use crate::duration::{duration_text, rounded_centis};
use crate::levels::{ints16, ints32, peak_level_16bit, peak_level_24bit, rms_level, sum_squares, MeanSquare};
use crate::model::{AudioFile, AudioFileView, AudioInfo, DecodedStream, Decibels, FlacLoadError, PeakLevel, ProcessError, StreamInfo, WalkEntry};
use crate::text::chars_of;

verus! {

/// What is known of a file once its stream is analysed: everything of its
/// record but the RMS level, in whose place stands the mean square that the
/// level is computed from.
#[derive(Clone, Debug, PartialEq, Eq)]
pub struct FileAnalysis {
    pub file_name: String,
    pub duration: String,
    pub total_samples: u64,
    pub sample_rate: u32,
    pub bit_depth: u32,
    pub channels: u32,
    pub peak_level: PeakLevel,
    pub mean_square: MeanSquare,
    pub crc32: String,
    pub md5: String,
}

pub struct FileAnalysisView {
    pub file_name: Seq<char>,
    pub duration: Seq<char>,
    pub total_samples: u64,
    pub sample_rate: u32,
    pub bit_depth: u32,
    pub channels: u32,
    pub peak_level: PeakLevel,
    pub mean_square: MeanSquare,
    pub crc32: Seq<char>,
    pub md5: Seq<char>,
}

impl View for FileAnalysis {
    type V = FileAnalysisView;

    open spec fn view(&self) -> FileAnalysisView {
        FileAnalysisView {
            file_name: self.file_name@,
            duration: self.duration@,
            total_samples: self.total_samples,
            sample_rate: self.sample_rate,
            bit_depth: self.bit_depth,
            channels: self.channels,
            peak_level: self.peak_level,
            mean_square: self.mean_square,
            crc32: self.crc32@,
            md5: self.md5@,
        }
    }
}

/// The record of an analysed file whose level in decibels, where it has
/// one, is `finite`.
pub open spec fn record_of(analysis: FileAnalysisView, finite: Decibels) -> AudioFileView {
    AudioFileView {
        file_name: analysis.file_name,
        duration: analysis.duration,
        total_samples: analysis.total_samples,
        sample_rate: analysis.sample_rate,
        bit_depth: analysis.bit_depth,
        channels: analysis.channels,
        peak_level: analysis.peak_level,
        rms_db_level: rms_level(analysis.mean_square, finite),
        crc32: analysis.crc32,
        md5: analysis.md5,
    }
}

/// Whether a file name has the extension `flac`: it ends in `.flac` and has
/// at least one character before that.
pub open spec fn has_flac_extension(name: Seq<char>) -> bool {
    name.len() > 5 && name.skip(name.len() - 5) == seq!['.', 'f', 'l', 'a', 'c']
}

/// Whether an entry is a regular file with the extension `flac`.
pub open spec fn is_flac_file(entry: WalkEntry) -> bool {
    entry.is_file && has_flac_extension(entry.file_name@)
}

/// The signed 16-bit value of the low 16 bits of a sample.
pub open spec fn low_16(s: i32) -> i16 {
    ((s + 0x8000) % 0x1_0000 - 0x8000) as i16
}

/// The samples of a 16-bit stream, each cut to its low 16 bits.
pub open spec fn samples_16(samples: Seq<i32>) -> Seq<i16> {
    samples.map_values(|s: i32| low_16(s))
}

/// The analysis of a 16-bit stream of `total` samples a channel.
pub open spec fn analysis_16bit(
    name: Seq<char>,
    info: StreamInfo,
    total: u64,
    samples: Seq<i32>,
) -> FileAnalysisView {
    FileAnalysisView {
        file_name: name,
        duration: duration_text(rounded_centis(total as nat, info.sample_rate as nat)),
        total_samples: total,
        sample_rate: info.sample_rate,
        bit_depth: info.bits_per_sample,
        channels: info.channels,
        peak_level: PeakLevel { millionths: peak_level_16bit(samples_16(samples)) as u32 },
        mean_square: MeanSquare {
            sum_squares: sum_squares(ints16(samples_16(samples))) as u128,
            count: samples.len() as u64,
            max_amplitude: 32_767,
        },
        crc32: crc32_text(crc32_of(pcm16_bytes(samples_16(samples)))),
        md5: hex_lower(info.md5sum@),
    }
}

/// The analysis of a 24-bit stream of `total` samples a channel.
pub open spec fn analysis_24bit(
    name: Seq<char>,
    info: StreamInfo,
    total: u64,
    samples: Seq<i32>,
) -> FileAnalysisView {
    FileAnalysisView {
        file_name: name,
        duration: duration_text(rounded_centis(total as nat, info.sample_rate as nat)),
        total_samples: total,
        sample_rate: info.sample_rate,
        bit_depth: info.bits_per_sample,
        channels: info.channels,
        peak_level: PeakLevel { millionths: peak_level_24bit(samples) as u32 },
        mean_square: MeanSquare {
            sum_squares: sum_squares(ints32(samples)) as u128,
            count: samples.len() as u64,
            max_amplitude: 8_388_607,
        },
        crc32: crc32_text(crc32_of(pcm24_bytes(samples))),
        md5: hex_lower(info.md5sum@),
    }
}

/// Whether the samples of a stream are looked at: it states its number of
/// samples and its bit depth is 16 or 24.
pub open spec fn needs_samples(info: StreamInfo) -> bool {
    info.samples is Some && (info.bits_per_sample == 16 || info.bits_per_sample == 24)
}

/// What processing an entry with its stream gives: the analysis, or the
/// first error in this order: not a `flac` file, a stream that did not open,
/// a stream without its number of samples, a bit depth other than 16 and 24.
pub open spec fn process_outcome(
    entry: WalkEntry,
    stream: Result<DecodedStream, FlacLoadError>,
) -> Result<FileAnalysisView, ProcessError> {
    if !is_flac_file(entry) {
        Err(ProcessError::NonFlacError)
    } else {
        match stream {
            Err(e) => Err(ProcessError::FlacLoadError(e)),
            Ok(decoded) => match decoded.info.samples {
                None => Err(ProcessError::NoSamplesFound),
                Some(total) => if decoded.info.bits_per_sample == 16 {
                    Ok(analysis_16bit(entry.file_name@, decoded.info, total, decoded.samples@))
                } else if decoded.info.bits_per_sample == 24 {
                    Ok(analysis_24bit(entry.file_name@, decoded.info, total, decoded.samples@))
                } else {
                    Err(ProcessError::UnsupportedBitDepth)
                },
            },
        }
    }
}

/// Every file that is analysed has a bit depth of 16 or 24, the name of its
/// entry, and the number of samples that its stream states.
pub proof fn lemma_analysed_bit_depth(
    entry: WalkEntry,
    stream: Result<DecodedStream, FlacLoadError>,
)
    requires
        process_outcome(entry, stream) is Ok,
    ensures
        process_outcome(entry, stream)->Ok_0.bit_depth == 16 || process_outcome(
            entry,
            stream,
        )->Ok_0.bit_depth == 24,
        forall|finite: Decibels|
            (#[trigger] record_of(process_outcome(entry, stream)->Ok_0, finite)).has_supported_depth(),
        process_outcome(entry, stream)->Ok_0.file_name == entry.file_name@,
        stream is Ok,
        stream->Ok_0.info.samples == Some(process_outcome(entry, stream)->Ok_0.total_samples),
{
}

/// Where the samples of a stream are not looked at, processing gives an
/// error, the same whatever the samples are.
pub proof fn lemma_samples_not_needed(entry: WalkEntry, decoded: DecodedStream, other: Vec<i32>)
    requires
        !needs_samples(decoded.info),
    ensures
        process_outcome(entry, Ok(decoded)) is Err,
        process_outcome(entry, Ok(decoded)) == process_outcome(
            entry,
            Ok(DecodedStream { info: decoded.info, samples: other }),
        ),
{
}

fn ends_in_flac(name: &str) -> (found: bool)
    ensures
        found == has_flac_extension(name@),
{
    let chars = chars_of(name);
    let n: usize = chars.len();
    if n <= 5 {
        return false;
    }
    let found = chars[n - 5] == '.' && chars[n - 4] == 'f' && chars[n - 3] == 'l' && chars[n - 2]
        == 'a' && chars[n - 1] == 'c';
    proof {
        let tail = name@.skip(n - 5);
        let want = seq!['.', 'f', 'l', 'a', 'c'];
        assert(tail.len() == 5);
        assert(tail[0] == chars@[n - 5]);
        assert(tail[1] == chars@[n - 4]);
        assert(tail[2] == chars@[n - 3]);
        assert(tail[3] == chars@[n - 2]);
        assert(tail[4] == chars@[n - 1]);
        if found {
            assert(tail =~= want);
        } else {
            assert(tail != want) by {
                if tail == want {
                    assert(want[0] == '.' && want[1] == 'f' && want[2] == 'l' && want[3] == 'a'
                        && want[4] == 'c');
                }
            }
        }
    }
    found
}

fn cut_to_16(samples: &Vec<i32>) -> (cut: Vec<i16>)
    ensures
        cut@ == samples_16(samples@),
{
    let mut cut: Vec<i16> = Vec::new();
    let mut i: usize = 0;
    while i < samples.len()
        invariant
            i <= samples.len(),
            cut@ == samples_16(samples@.take(i as int)),
        decreases samples.len() - i,
    {
        let shifted: i64 = samples[i] as i64 + 0x8000_8000;
        let low: i64 = shifted % 0x1_0000 - 0x8000;
        assert(low == low_16(samples@[i as int]));
        cut.push(low as i16);
        assert(cut@ =~= samples_16(samples@.take(i + 1)));
        i = i + 1;
    }
    assert(samples@.take(i as int) =~= samples@);
    cut
}

impl AudioInfo {
    /// Whether an entry is a regular file with the extension `flac`.
    pub fn is_flac_file(entry: &WalkEntry) -> (found: bool)
        ensures
            found == is_flac_file(*entry),
    {
        entry.is_file && ends_in_flac(entry.file_name.as_str())
    }

    /// Whether the samples of a stream are looked at when it is processed. A
    /// caller that decodes on demand need not decode the others.
    pub fn needs_samples(info: &StreamInfo) -> (needed: bool)
        ensures
            needed == needs_samples(*info),
    {
        match info.samples {
            None => false,
            Some(_) => info.bits_per_sample == 16 || info.bits_per_sample == 24,
        }
    }

    /// Analyses the stream of an entry. `stream` is what opening and decoding
    /// the file gave.
    pub fn process_audio_file(
        entry: &WalkEntry,
        stream: Result<DecodedStream, FlacLoadError>,
    ) -> (outcome: Result<FileAnalysis, ProcessError>)
        requires
            stream matches Ok(decoded) ==> decoded.info.sample_rate > 0,
        ensures
            outcome matches Ok(analysis) ==> process_outcome(*entry, stream) == Ok::<
                FileAnalysisView,
                ProcessError,
            >(analysis@),
            outcome matches Err(error) ==> process_outcome(*entry, stream) == Err::<
                FileAnalysisView,
                ProcessError,
            >(error),
    {
        if !AudioInfo::is_flac_file(entry) {
            return Err(ProcessError::NonFlacError);
        }
        let decoded = match stream {
            Err(e) => {
                return Err(ProcessError::FlacLoadError(e));
            },
            Ok(decoded) => decoded,
        };
        let total_samples: u64 = match decoded.info.samples {
            None => {
                return Err(ProcessError::NoSamplesFound);
            },
            Some(total) => total,
        };
        let bit_depth: u32 = decoded.info.bits_per_sample;
        let duration = AudioInfo::format_duration(total_samples, decoded.info.sample_rate);
        let md5 = AudioInfo::md5_text(&decoded.info.md5sum);
        if bit_depth == 16 {
            let samples = cut_to_16(&decoded.samples);
            Ok(
                FileAnalysis {
                    file_name: entry.file_name.clone(),
                    duration,
                    total_samples,
                    sample_rate: decoded.info.sample_rate,
                    bit_depth,
                    channels: decoded.info.channels,
                    peak_level: AudioInfo::calculate_peak_level_16bit(&samples),
                    mean_square: AudioInfo::mean_square_16bit(&samples),
                    crc32: AudioInfo::generate_crc32_16bit(&samples),
                    md5,
                },
            )
        } else if bit_depth == 24 {
            Ok(
                FileAnalysis {
                    file_name: entry.file_name.clone(),
                    duration,
                    total_samples,
                    sample_rate: decoded.info.sample_rate,
                    bit_depth,
                    channels: decoded.info.channels,
                    peak_level: AudioInfo::calculate_peak_level_24bit(&decoded.samples),
                    mean_square: AudioInfo::mean_square_24bit(&decoded.samples),
                    crc32: AudioInfo::generate_crc32_24bit(&decoded.samples),
                    md5,
                },
            )
        } else {
            Err(ProcessError::UnsupportedBitDepth)
        }
    }
}

impl FileAnalysis {
    /// Completes the record. `finite` is the level in decibels that belongs to
    /// the mean square of the analysis; a stream without energy gets negative
    /// infinity whatever `finite` is.
    pub fn into_audio_file(self, finite: Decibels) -> (file: AudioFile)
        ensures
            file@ == record_of(self@, finite),
    {
        let rms_db_level = AudioInfo::calculate_rms_db_level(&self.mean_square, finite);
        AudioFile {
            file_name: self.file_name,
            duration: self.duration,
            total_samples: self.total_samples,
            sample_rate: self.sample_rate,
            bit_depth: self.bit_depth,
            channels: self.channels,
            peak_level: self.peak_level,
            rms_db_level,
            crc32: self.crc32,
            md5: self.md5,
        }
    }
}

} // verus!

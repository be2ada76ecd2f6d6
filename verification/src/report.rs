//! The fixed text layout of a report.
//!
//! The layout is part of the interface: keys, their order, the indentation
//! and the number of digits after each decimal point are all fixed here.

use vstd::prelude::*;
use vstd::string::*;
use crate::duration::{duration_text, total_centis};
use crate::model::{file_views, AudioFile, AudioFileView, AudioInfo, AudioInfoView, Decibels, PeakLevel, ProcessError, RmsLevel, Summary, SummaryView};
use crate::walk::{after_outcomes, ErrorPolicy};
use crate::text::{decimal_digits, fixed_digits, push_decimal, push_fixed, push_signed, signed_decimal};

verus! {

/// One line of the layout: a key with its indentation, the value, a line
/// feed.
pub open spec fn line(key: Seq<char>, value: Seq<char>) -> Seq<char> {
    key + value + "\n"@
}

/// A peak level with six digits after the decimal point.
pub open spec fn peak_text(p: PeakLevel) -> Seq<char> {
    decimal_digits((p.millionths / 1_000_000) as nat) + "."@ + fixed_digits(
        (p.millionths % 1_000_000) as nat,
        6,
    )
}

/// A finite level with two digits after the decimal point.
pub open spec fn decibels_text(d: Decibels) -> Seq<char> {
    (if d.negative {
        "-"@
    } else {
        Seq::<char>::empty()
    }) + decimal_digits((d.hundredths / 100) as nat) + "."@ + fixed_digits(
        (d.hundredths % 100) as nat,
        2,
    )
}

/// An RMS level: `-inf` for negative infinity, else the finite level.
pub open spec fn rms_text(level: RmsLevel) -> Seq<char> {
    match level {
        RmsLevel::NegInfinity => "-inf"@,
        RmsLevel::Finite(d) => decibels_text(d),
    }
}

/// The list item of one file: ten lines and a blank line.
pub open spec fn file_yaml(f: AudioFileView) -> Seq<char> {
    line("  - file_name: "@, f.file_name)
        + line("    duration: "@, f.duration)
        + line("    total_samples: "@, decimal_digits(f.total_samples as nat))
        + line("    sample_rate: "@, decimal_digits(f.sample_rate as nat))
        + line("    bit_depth: "@, decimal_digits(f.bit_depth as nat))
        + line("    channels: "@, decimal_digits(f.channels as nat))
        + line("    peak_level: "@, peak_text(f.peak_level))
        + line("    rms_db_level: "@, rms_text(f.rms_db_level))
        + line("    crc32: "@, f.crc32)
        + line("    md5: "@, f.md5)
        + "\n"@
}

/// The list items of the files, in order.
pub open spec fn files_yaml(files: Seq<AudioFileView>) -> Seq<char>
    decreases files.len(),
{
    if files.len() == 0 {
        Seq::<char>::empty()
    } else {
        files_yaml(files.drop_last()) + file_yaml(files.last())
    }
}

/// The summary block.
pub open spec fn summary_yaml(s: SummaryView) -> Seq<char> {
    "summary:\n"@
        + line("  total_files: "@, decimal_digits(s.total_files as nat))
        + line("  total_duration: "@, s.total_duration)
        + line("  sample_rate: "@, signed_decimal(s.sample_rate as int))
        + line("  bit_depth: "@, signed_decimal(s.bit_depth as int))
        + line("  channels: "@, signed_decimal(s.channels as int))
}

/// The whole report.
pub open spec fn report_yaml(r: AudioInfoView) -> Seq<char> {
    line("type: "@, r.type_)
        + line("version: "@, signed_decimal(r.version as int))
        + line("created_by: "@, r.created_by)
        + summary_yaml(r.summary)
        + "files:\n"@
        + files_yaml(r.files)
}

/// The report on the given files: the fixed header, a summary with their
/// number and the sum of their durations, and the files in their order. The
/// sample rate, bit depth and channels of the summary are those of a compact
/// disc, whatever the files hold.
pub open spec fn report_of(files: Seq<AudioFileView>) -> AudioInfoView {
    AudioInfoView {
        type_: "audioinfo"@,
        version: 0,
        created_by: "audioinfo"@,
        summary: SummaryView {
            total_files: files.len() as usize,
            total_duration: duration_text(total_centis(files)),
            sample_rate: 44_100,
            bit_depth: 16,
            channels: 2,
        },
        files: files,
    }
}

/// The text of a report without files ends with the key `files:` and its
/// line feed; no entry follows.
pub proof fn lemma_report_without_files(r: AudioInfoView)
    requires
        r.files.len() == 0,
    ensures
        report_yaml(r) == line("type: "@, r.type_) + line(
            "version: "@,
            signed_decimal(r.version as int),
        ) + line("created_by: "@, r.created_by) + summary_yaml(r.summary) + "files:\n"@,
{
    assert(files_yaml(r.files) =~= Seq::<char>::empty());
    let head = line("type: "@, r.type_) + line("version: "@, signed_decimal(r.version as int))
        + line("created_by: "@, r.created_by) + summary_yaml(r.summary) + "files:\n"@;
    assert(head + Seq::<char>::empty() =~= head);
}

fn push_text_line(out: &mut String, key: &str, value: &str)
    ensures
        final(out)@ == old(out)@ + line(key@, value@),
{
    out.append(key);
    out.append(value);
    out.append("\n");
    assert(out@ =~= old(out)@ + line(key@, value@));
}

fn push_number_line(out: &mut String, key: &str, value: u64)
    ensures
        final(out)@ == old(out)@ + line(key@, decimal_digits(value as nat)),
{
    out.append(key);
    push_decimal(out, value as u128);
    out.append("\n");
    assert(out@ =~= old(out)@ + line(key@, decimal_digits(value as nat)));
}

fn push_signed_line(out: &mut String, key: &str, value: i32)
    ensures
        final(out)@ == old(out)@ + line(key@, signed_decimal(value as int)),
{
    out.append(key);
    push_signed(out, value as i64);
    out.append("\n");
    assert(out@ =~= old(out)@ + line(key@, signed_decimal(value as int)));
}

fn push_peak(out: &mut String, p: PeakLevel)
    ensures
        final(out)@ == old(out)@ + peak_text(p),
{
    push_decimal(out, (p.millionths / 1_000_000) as u128);
    out.append(".");
    push_fixed(out, (p.millionths % 1_000_000) as u64, 6);
    assert(out@ =~= old(out)@ + peak_text(p));
}

fn push_rms(out: &mut String, level: RmsLevel)
    ensures
        final(out)@ == old(out)@ + rms_text(level),
{
    match level {
        RmsLevel::NegInfinity => {
            out.append("-inf");
        },
        RmsLevel::Finite(d) => {
            if d.negative {
                out.append("-");
            }
            push_decimal(out, (d.hundredths / 100) as u128);
            out.append(".");
            push_fixed(out, d.hundredths % 100, 2);
            assert(out@ =~= old(out)@ + decibels_text(d));
        },
    }
}

fn push_file(out: &mut String, file: &AudioFile)
    ensures
        final(out)@ == old(out)@ + file_yaml(file@),
{
    push_text_line(out, "  - file_name: ", file.file_name.as_str());
    push_text_line(out, "    duration: ", file.duration.as_str());
    push_number_line(out, "    total_samples: ", file.total_samples);
    push_number_line(out, "    sample_rate: ", file.sample_rate as u64);
    push_number_line(out, "    bit_depth: ", file.bit_depth as u64);
    push_number_line(out, "    channels: ", file.channels as u64);
    out.append("    peak_level: ");
    push_peak(out, file.peak_level);
    out.append("\n");
    out.append("    rms_db_level: ");
    push_rms(out, file.rms_db_level);
    out.append("\n");
    push_text_line(out, "    crc32: ", file.crc32.as_str());
    push_text_line(out, "    md5: ", file.md5.as_str());
    out.append("\n");
    assert(out@ =~= old(out)@ + file_yaml(file@));
}

fn push_summary(out: &mut String, summary: &Summary)
    ensures
        final(out)@ == old(out)@ + summary_yaml(summary@),
{
    out.append("summary:\n");
    push_number_line(out, "  total_files: ", summary.total_files as u64);
    push_text_line(out, "  total_duration: ", summary.total_duration.as_str());
    push_signed_line(out, "  sample_rate: ", summary.sample_rate);
    push_signed_line(out, "  bit_depth: ", summary.bit_depth);
    push_signed_line(out, "  channels: ", summary.channels);
    assert(out@ =~= old(out)@ + summary_yaml(summary@));
}

impl AudioInfo {
    /// The report on the given files.
    pub fn new(songs: Vec<AudioFile>) -> (info: AudioInfo)
        ensures
            info@ == report_of(file_views(songs@)),
            info.files@ == songs@,
            (forall|i: int| 0 <= i < songs.len() ==> (#[trigger] songs[i])@.has_supported_depth())
                ==> info@.well_formed(),
    {
        let total_duration = AudioInfo::add_durations(&songs);
        AudioInfo {
            type_: "audioinfo".to_owned(),
            version: 0,
            created_by: "audioinfo".to_owned(),
            summary: Summary {
                total_files: songs.len(),
                total_duration,
                sample_rate: 44_100,
                bit_depth: 16,
                channels: 2,
            },
            files: songs,
        }
    }

    /// The text of the report on a walk, from the outcomes of the entries met
    /// under its path, in the order in which they were met.
    pub fn generate_audio_info_from_path(
        outcomes: Vec<Result<AudioFile, ProcessError>>,
    ) -> (yaml: String)
        ensures
            yaml@ == report_yaml(
                report_of(file_views(after_outcomes(ErrorPolicy::AbortOnError, outcomes@).files)),
            ),
    {
        let songs = AudioInfo::walk_dir(outcomes);
        let audio_info = AudioInfo::new(songs);
        audio_info.to_yaml()
    }

    /// Renders the report in its fixed layout.
    pub fn to_yaml(&self) -> (yaml: String)
        ensures
            yaml@ == report_yaml(self@),
    {
        let mut yaml = String::new();
        push_text_line(&mut yaml, "type: ", self.type_.as_str());
        push_signed_line(&mut yaml, "version: ", self.version);
        push_text_line(&mut yaml, "created_by: ", self.created_by.as_str());
        push_summary(&mut yaml, &self.summary);
        yaml.append("files:\n");
        let ghost head = yaml@;
        let mut i: usize = 0;
        while i < self.files.len()
            invariant
                i <= self.files.len(),
                yaml@ == head + files_yaml(crate::model::file_views(self.files@).take(i as int)),
            decreases self.files.len() - i,
        {
            push_file(&mut yaml, &self.files[i]);
            proof {
                let views = crate::model::file_views(self.files@);
                assert(views.take(i + 1).drop_last() =~= views.take(i as int));
                assert(views.take(i + 1).last() == self.files@[i as int]@);
            }
            i = i + 1;
        }
        proof {
            let views = crate::model::file_views(self.files@);
            assert(views.take(i as int) =~= views);
        }
        assert(yaml@ =~= report_yaml(self@));
        yaml
    }
}

} // verus!

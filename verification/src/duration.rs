//! Durations as text: `HH:MM:SS.cc`, with hundredths of a second after the
//! point and no upper bound on the hours.
//!
//! A duration is held exactly, as a whole number of hundredths of a second.

use vstd::prelude::*;
use vstd::string::*;
use crate::model::{file_views, AudioFile, AudioFileView, AudioInfo};
use crate::parse::parsed_centis;
use crate::text::{push_two_digits, two_digits};

verus! {

/// The text of a duration of `centis` hundredths of a second.
pub open spec fn duration_text(centis: nat) -> Seq<char> {
    two_digits(centis / 360_000) + ":"@ + two_digits((centis % 360_000) / 6_000) + ":"@
        + two_digits((centis % 6_000) / 100) + "."@ + two_digits(centis % 100)
}

/// The duration of `total_samples` samples at `sample_rate` samples a second,
/// in hundredths of a second: the whole seconds are kept, and the fraction of
/// a second is rounded to the nearest hundredth but never beyond 99.
pub open spec fn rounded_centis(total_samples: nat, sample_rate: nat) -> nat {
    let whole = total_samples / sample_rate;
    let rest = total_samples % sample_rate;
    let hundredths = (200 * rest + sample_rate) / (2 * sample_rate);
    whole * 100 + if hundredths > 99 {
        99
    } else {
        hundredths
    }
}

/// The sum of the durations that the files carry as text, in hundredths of a
/// second.
pub open spec fn total_centis(files: Seq<AudioFileView>) -> nat
    decreases files.len(),
{
    if files.len() == 0 {
        0
    } else {
        total_centis(files.drop_last()) + parsed_centis(files.last().duration)
    }
}

fn render_duration(hours: u128, rest: u32) -> (text: String)
    requires
        rest < 360_000,
    ensures
        text@ == duration_text(hours as nat * 360_000 + rest as nat),
{
    let ghost centis: nat = hours as nat * 360_000 + rest as nat;
    assert(centis / 360_000 == hours);
    assert(centis % 360_000 == rest);
    assert(centis % 6_000 == rest % 6_000);
    assert(centis % 100 == rest % 100);
    let mut text = String::new();
    push_two_digits(&mut text, hours);
    text.append(":");
    push_two_digits(&mut text, (rest / 6_000) as u128);
    text.append(":");
    push_two_digits(&mut text, ((rest % 6_000) / 100) as u128);
    text.append(".");
    push_two_digits(&mut text, (rest % 100) as u128);
    assert(text@ =~= duration_text(centis));
    text
}

impl AudioInfo {
    /// Formats the duration of `total_samples` samples at `sample_rate`
    /// samples a second.
    pub fn format_duration(total_samples: u64, sample_rate: u32) -> (text: String)
        requires
            sample_rate > 0,
        ensures
            text@ == duration_text(rounded_centis(total_samples as nat, sample_rate as nat)),
    {
        let rate: u64 = sample_rate as u64;
        let whole: u64 = total_samples / rate;
        let rest: u64 = total_samples % rate;
        let rounded: u64 = (200 * rest + rate) / (2 * rate);
        let hundredths: u64 = if rounded > 99 {
            99
        } else {
            rounded
        };
        let hours: u64 = whole / 3_600;
        let within: u64 = (whole % 3_600) * 100 + hundredths;
        assert(hours as nat * 360_000 + within as nat == rounded_centis(
            total_samples as nat,
            sample_rate as nat,
        ));
        render_duration(hours as u128, within as u32)
    }

    /// Formats the sum of the durations of the files, each read back from its
    /// text.
    pub fn add_durations(audio_files: &Vec<AudioFile>) -> (text: String)
        ensures
            text@ == duration_text(total_centis(file_views(audio_files@))),
    {
        let mut hours: u128 = 0;
        let mut rest: u128 = 0;
        let mut i: usize = 0;
        while i < audio_files.len()
            invariant
                i <= audio_files.len(),
                hours * 360_000 + rest == total_centis(file_views(audio_files@).take(i as int)),
                hours <= i * 0x400_0000_0000_0000,
                rest <= i * 360_000,
            decreases audio_files.len() - i,
        {
            let centis: u128 = AudioInfo::parse_duration(audio_files[i].duration.as_str());
            proof {
                let views = file_views(audio_files@);
                assert(views.take(i + 1).drop_last() =~= views.take(i as int));
                assert(views.take(i + 1).last().duration == audio_files@[i as int].duration@);
            }
            hours = hours + centis / 360_000;
            rest = rest + centis % 360_000;
            i = i + 1;
        }
        proof {
            let views = file_views(audio_files@);
            assert(views.take(i as int) =~= views);
        }
        render_duration(hours + rest / 360_000, (rest % 360_000) as u32)
    }

    /// Formats a duration given in hundredths of a second.
    pub fn format_centiseconds(centis: u128) -> (text: String)
        ensures
            text@ == duration_text(centis as nat),
    {
        render_duration(centis / 360_000, (centis % 360_000) as u32)
    }
}

} // verus!

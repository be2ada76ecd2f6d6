//! Peak and RMS levels of a decoded stream.
//!
//! Everything here is exact integer arithmetic. The one step that has no
//! exact integer form, the logarithm that turns a mean square into decibels,
//! is left to the caller: [`MeanSquare`] carries what it needs.

use vstd::prelude::*;
use crate::model::{AudioInfo, Decibels, PeakLevel, RmsLevel};

verus! {

/// The largest amplitude of a bit depth: `2^23 - 1` for 24 bits, `32767` for
/// 16 bits and for every other depth.
pub open spec fn max_amplitude(bit_depth: int) -> int {
    if bit_depth == 24 {
        8_388_607
    } else {
        32_767
    }
}

/// The absolute value of a sample.
pub open spec fn magnitude(v: int) -> nat {
    if v < 0 {
        (-v) as nat
    } else {
        v as nat
    }
}

/// The samples of a 16-bit stream as mathematical integers.
pub open spec fn ints16(samples: Seq<i16>) -> Seq<int> {
    samples.map_values(|s: i16| s as int)
}

/// The samples of a stream in 32-bit containers as mathematical integers.
pub open spec fn ints32(samples: Seq<i32>) -> Seq<int> {
    samples.map_values(|s: i32| s as int)
}

/// The largest absolute value among the samples, zero for no samples.
pub open spec fn peak_amplitude(samples: Seq<int>) -> nat
    decreases samples.len(),
{
    if samples.len() == 0 {
        0
    } else {
        let before = peak_amplitude(samples.drop_last());
        let last = magnitude(samples.last());
        if last > before {
            last
        } else {
            before
        }
    }
}

/// The sum of the squares of the samples.
pub open spec fn sum_squares(samples: Seq<int>) -> nat
    decreases samples.len(),
{
    if samples.len() == 0 {
        0
    } else {
        sum_squares(samples.drop_last()) + (samples.last() * samples.last()) as nat
    }
}

/// The ratio `peak / full` in millionths, rounded to the nearest millionth.
pub open spec fn ratio_millionths_rounded(peak: nat, full: nat) -> nat {
    (2_000_000 * peak + full) / (2 * full)
}

/// The ratio `peak / full` in millionths, truncated to whole millionths.
pub open spec fn ratio_millionths_truncated(peak: nat, full: nat) -> nat {
    (1_000_000 * peak) / full
}

/// The peak level of a 16-bit stream: the peak amplitude over `32767`, to the
/// nearest millionth.
pub open spec fn peak_level_16bit(samples: Seq<i16>) -> nat {
    ratio_millionths_rounded(peak_amplitude(ints16(samples)), 32_767)
}

/// The peak level of a 24-bit stream: the peak amplitude over `2^23 - 1`,
/// truncated to whole millionths.
pub open spec fn peak_level_24bit(samples: Seq<i32>) -> nat {
    ratio_millionths_truncated(peak_amplitude(ints32(samples)), 8_388_607)
}

/// The mean of the squared normalised samples of a stream, as the exact
/// fraction `sum_squares / (count * max_amplitude^2)`.
#[derive(Clone, Copy, Debug, PartialEq, Eq)]
pub struct MeanSquare {
    pub sum_squares: u128,
    pub count: u64,
    pub max_amplitude: u32,
}

/// The RMS level of a stream with the given mean square: negative infinity
/// where the stream is empty or has no energy, else the finite level that
/// the caller computed from the mean square.
pub open spec fn rms_level(mean_square: MeanSquare, finite: Decibels) -> RmsLevel {
    if mean_square.count == 0 || mean_square.sum_squares == 0 {
        RmsLevel::NegInfinity
    } else {
        RmsLevel::Finite(finite)
    }
}

/// The peak amplitude bounds every sample, and one of the samples reaches
/// it.
pub proof fn lemma_peak_amplitude_is_max(samples: Seq<int>)
    ensures
        forall|i: int| 0 <= i < samples.len() ==> magnitude(#[trigger] samples[i]) <= peak_amplitude(
            samples,
        ),
        samples.len() > 0 ==> exists|i: int|
            0 <= i < samples.len() && magnitude(#[trigger] samples[i]) == peak_amplitude(samples),
        samples.len() == 0 ==> peak_amplitude(samples) == 0,
    decreases samples.len(),
{
    if samples.len() > 0 {
        let before = samples.drop_last();
        lemma_peak_amplitude_is_max(before);
        assert forall|i: int| 0 <= i < samples.len() implies magnitude(#[trigger] samples[i])
            <= peak_amplitude(samples) by {
            if i < before.len() {
                assert(samples[i] == before[i]);
            }
        }
        if magnitude(samples.last()) > peak_amplitude(before) || before.len() == 0 {
            assert(magnitude(samples[samples.len() - 1]) == peak_amplitude(samples));
        } else {
            let i = choose|i: int|
                0 <= i < before.len() && magnitude(#[trigger] before[i]) == peak_amplitude(before);
            assert(samples[i] == before[i]);
            assert(magnitude(samples[i]) == peak_amplitude(samples));
        }
    }
}

/// A 16-bit stream whose samples all stand at full scale, `32767`, has the
/// peak level one.
pub proof fn lemma_full_scale_peak(samples: Seq<i16>)
    requires
        samples.len() > 0,
        forall|i: int| 0 <= i < samples.len() ==> samples[i] == 32_767,
    ensures
        peak_level_16bit(samples) == 1_000_000,
{
    let values = ints16(samples);
    lemma_peak_amplitude_is_max(values);
    let i = choose|i: int|
        0 <= i < values.len() && magnitude(#[trigger] values[i]) == peak_amplitude(values);
    assert(values[i] == samples[i] as int);
    assert(peak_amplitude(values) == 32_767);
    assert(ratio_millionths_rounded(32_767, 32_767) == (2_000_000 * 32_767 + 32_767) / 65_534);
}

/// Where no sample of a 16-bit stream goes beyond full scale, the peak level
/// is at most one.
pub proof fn lemma_peak_level_16bit_at_most_one(samples: Seq<i16>)
    requires
        forall|i: int| 0 <= i < samples.len() ==> -32_767 <= #[trigger] samples[i],
    ensures
        peak_level_16bit(samples) <= 1_000_000,
{
    let values = ints16(samples);
    lemma_peak_amplitude_is_max(values);
    if values.len() > 0 {
        let i = choose|i: int|
            0 <= i < values.len() && magnitude(#[trigger] values[i]) == peak_amplitude(values);
        assert(values[i] == samples[i] as int);
    }
    let peak = peak_amplitude(values);
    assert(peak <= 32_767);
    assert(ratio_millionths_rounded(peak, 32_767) == (2_000_000 * peak + 32_767) / 65_534);
}

/// Where no sample of a 24-bit stream goes beyond full scale, the peak level
/// is at most one.
pub proof fn lemma_peak_level_24bit_at_most_one(samples: Seq<i32>)
    requires
        forall|i: int|
            0 <= i < samples.len() ==> -8_388_607 <= #[trigger] samples[i] <= 8_388_607,
    ensures
        peak_level_24bit(samples) <= 1_000_000,
{
    let values = ints32(samples);
    lemma_peak_amplitude_is_max(values);
    if values.len() > 0 {
        let i = choose|i: int|
            0 <= i < values.len() && magnitude(#[trigger] values[i]) == peak_amplitude(values);
        assert(values[i] == samples[i] as int);
    }
    assert(peak_amplitude(values) <= 8_388_607);
}

/// A stream has no energy exactly where it has no sample other than zero.
pub proof fn lemma_no_energy_is_silence(samples: Seq<int>)
    ensures
        sum_squares(samples) == 0 <==> forall|i: int|
            0 <= i < samples.len() ==> #[trigger] samples[i] == 0,
    decreases samples.len(),
{
    if samples.len() > 0 {
        let before = samples.drop_last();
        let last = samples.last();
        lemma_no_energy_is_silence(before);
        assert(last * last >= 0 && (last * last == 0 <==> last == 0)) by (nonlinear_arith);
        if sum_squares(samples) == 0 {
            assert forall|i: int| 0 <= i < samples.len() implies #[trigger] samples[i] == 0 by {
                if i < before.len() {
                    assert(samples[i] == before[i]);
                }
            }
        } else {
            if forall|i: int| 0 <= i < samples.len() ==> #[trigger] samples[i] == 0 {
                assert forall|i: int| 0 <= i < before.len() implies #[trigger] before[i] == 0 by {
                    assert(before[i] == samples[i]);
                }
                assert(samples[samples.len() - 1] == 0);
                assert(false);
            }
        }
    }
}

/// The RMS level of an empty stream, and of a stream of zeros alone, is
/// negative infinity, and that of every other stream is finite.
pub proof fn lemma_rms_level_of_silence(samples: Seq<int>, mean_square: MeanSquare, finite: Decibels)
    requires
        mean_square.sum_squares == sum_squares(samples),
        mean_square.count == samples.len(),
    ensures
        rms_level(mean_square, finite) is NegInfinity <==> forall|i: int|
            0 <= i < samples.len() ==> #[trigger] samples[i] == 0,
{
    lemma_no_energy_is_silence(samples);
}

proof fn lemma_square_bound(v: int)
    by (nonlinear_arith)
    requires
        -0x8000_0000 <= v <= 0x8000_0000,
    ensures
        0 <= v * v <= 0x4000_0000_0000_0000,
{
}

fn peak_amplitude_16bit(samples: &Vec<i16>) -> (peak: u32)
    ensures
        peak == peak_amplitude(ints16(samples@)),
        peak <= 32_768,
{
    let mut peak: u32 = 0;
    let mut i: usize = 0;
    while i < samples.len()
        invariant
            i <= samples.len(),
            peak == peak_amplitude(ints16(samples@.take(i as int))),
            peak <= 32_768,
        decreases samples.len() - i,
    {
        let v: i32 = samples[i] as i32;
        let m: u32 = if v < 0 {
            (-v) as u32
        } else {
            v as u32
        };
        proof {
            let next = ints16(samples@.take(i + 1));
            assert(next.drop_last() =~= ints16(samples@.take(i as int)));
            assert(next.last() == samples@[i as int] as int);
        }
        if m > peak {
            peak = m;
        }
        i = i + 1;
    }
    assert(samples@.take(i as int) =~= samples@);
    peak
}

fn peak_amplitude_24bit(samples: &Vec<i32>) -> (peak: u32)
    ensures
        peak == peak_amplitude(ints32(samples@)),
        peak <= 0x8000_0000,
{
    let mut peak: u32 = 0;
    let mut i: usize = 0;
    while i < samples.len()
        invariant
            i <= samples.len(),
            peak == peak_amplitude(ints32(samples@.take(i as int))),
            peak <= 0x8000_0000,
        decreases samples.len() - i,
    {
        let v: i64 = samples[i] as i64;
        let m: u32 = if v < 0 {
            (-v) as u32
        } else {
            v as u32
        };
        proof {
            let next = ints32(samples@.take(i + 1));
            assert(next.drop_last() =~= ints32(samples@.take(i as int)));
            assert(next.last() == samples@[i as int] as int);
        }
        if m > peak {
            peak = m;
        }
        i = i + 1;
    }
    assert(samples@.take(i as int) =~= samples@);
    peak
}

impl AudioInfo {
    /// The largest amplitude of a bit depth.
    pub fn get_max_amplitude(bit_depth: i32) -> (amplitude: i32)
        ensures
            amplitude == max_amplitude(bit_depth as int),
    {
        if bit_depth == 24 {
            8_388_607
        } else {
            32_767
        }
    }

    /// The peak level of a 16-bit stream.
    pub fn calculate_peak_level_16bit(samples: &Vec<i16>) -> (level: PeakLevel)
        ensures
            level.millionths == peak_level_16bit(samples@),
    {
        let peak: u64 = peak_amplitude_16bit(samples) as u64;
        PeakLevel { millionths: ((2_000_000 * peak + 32_767) / 65_534) as u32 }
    }

    /// The peak level of a 24-bit stream.
    pub fn calculate_peak_level_24bit(samples: &Vec<i32>) -> (level: PeakLevel)
        ensures
            level.millionths == peak_level_24bit(samples@),
    {
        let peak: u64 = peak_amplitude_24bit(samples) as u64;
        PeakLevel { millionths: ((1_000_000 * peak) / 8_388_607) as u32 }
    }

    /// The mean square of a 16-bit stream.
    pub fn mean_square_16bit(samples: &Vec<i16>) -> (mean_square: MeanSquare)
        ensures
            mean_square.sum_squares == sum_squares(ints16(samples@)),
            mean_square.count == samples@.len(),
            mean_square.max_amplitude == 32_767,
    {
        let mut sum: u128 = 0;
        let mut i: usize = 0;
        while i < samples.len()
            invariant
                i <= samples.len(),
                sum == sum_squares(ints16(samples@.take(i as int))),
                sum <= i * 0x4000_0000_0000_0000,
            decreases samples.len() - i,
        {
            let v: i64 = samples[i] as i64;
            proof {
                lemma_square_bound(v as int);
                let next = ints16(samples@.take(i + 1));
                assert(next.drop_last() =~= ints16(samples@.take(i as int)));
                assert(next.last() == samples@[i as int] as int);
            }
            let square: u64 = (v * v) as u64;
            sum = sum + square as u128;
            i = i + 1;
        }
        assert(samples@.take(i as int) =~= samples@);
        MeanSquare { sum_squares: sum, count: samples.len() as u64, max_amplitude: 32_767 }
    }

    /// The mean square of a 24-bit stream.
    pub fn mean_square_24bit(samples: &Vec<i32>) -> (mean_square: MeanSquare)
        ensures
            mean_square.sum_squares == sum_squares(ints32(samples@)),
            mean_square.count == samples@.len(),
            mean_square.max_amplitude == 8_388_607,
    {
        let mut sum: u128 = 0;
        let mut i: usize = 0;
        while i < samples.len()
            invariant
                i <= samples.len(),
                sum == sum_squares(ints32(samples@.take(i as int))),
                sum <= i * 0x4000_0000_0000_0000,
            decreases samples.len() - i,
        {
            let v: i64 = samples[i] as i64;
            proof {
                lemma_square_bound(v as int);
                let next = ints32(samples@.take(i + 1));
                assert(next.drop_last() =~= ints32(samples@.take(i as int)));
                assert(next.last() == samples@[i as int] as int);
            }
            let square: u64 = (v * v) as u64;
            sum = sum + square as u128;
            i = i + 1;
        }
        assert(samples@.take(i as int) =~= samples@);
        MeanSquare { sum_squares: sum, count: samples.len() as u64, max_amplitude: 8_388_607 }
    }

    /// The RMS level of a stream. `finite` is the level in decibels that
    /// belongs to `mean_square`; it is used only where the stream has energy.
    pub fn calculate_rms_db_level(mean_square: &MeanSquare, finite: Decibels) -> (level: RmsLevel)
        ensures
            level == rms_level(*mean_square, finite),
    {
        if mean_square.count == 0 || mean_square.sum_squares == 0 {
            RmsLevel::NegInfinity
        } else {
            RmsLevel::Finite(finite)
        }
    }
}

} // verus!

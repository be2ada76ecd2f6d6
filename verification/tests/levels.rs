use audioinfo::{AudioInfo, Decibels, MeanSquare, PeakLevel, RmsLevel};

const SOME_LEVEL: Decibels = Decibels { negative: true, hundredths: 1_234 };

#[test]
fn the_largest_amplitude_of_each_bit_depth() {
    assert_eq!(AudioInfo::get_max_amplitude(16), 32_767);
    assert_eq!(AudioInfo::get_max_amplitude(24), 8_388_607);
    assert_eq!(AudioInfo::get_max_amplitude(8), 32_767);
    assert_eq!(AudioInfo::get_max_amplitude(-1), 32_767);
}

#[test]
fn a_full_scale_16_bit_stream_peaks_at_one() {
    let samples: Vec<i16> = vec![32_767; 100];
    assert_eq!(
        AudioInfo::calculate_peak_level_16bit(&samples),
        PeakLevel { millionths: 1_000_000 }
    );
}

#[test]
fn the_peak_of_a_16_bit_stream_is_rounded_to_the_millionth() {
    assert_eq!(
        AudioInfo::calculate_peak_level_16bit(&vec![0, -16_384, 100]),
        PeakLevel { millionths: 500_015 }
    );
    assert_eq!(AudioInfo::calculate_peak_level_16bit(&vec![1]), PeakLevel { millionths: 31 });
    assert_eq!(AudioInfo::calculate_peak_level_16bit(&Vec::new()), PeakLevel { millionths: 0 });
    assert_eq!(
        AudioInfo::calculate_peak_level_16bit(&vec![i16::MIN]),
        PeakLevel { millionths: 1_000_031 }
    );
}

#[test]
fn the_peak_of_a_24_bit_stream_is_cut_to_the_millionth() {
    assert_eq!(
        AudioInfo::calculate_peak_level_24bit(&vec![8_388_607, -5]),
        PeakLevel { millionths: 1_000_000 }
    );
    assert_eq!(
        AudioInfo::calculate_peak_level_24bit(&vec![3, -4_194_304]),
        PeakLevel { millionths: 500_000 }
    );
    assert_eq!(AudioInfo::calculate_peak_level_24bit(&vec![1]), PeakLevel { millionths: 0 });
    assert_eq!(
        AudioInfo::calculate_peak_level_24bit(&vec![i32::MIN]),
        PeakLevel { millionths: 256_000_030 }
    );
}

#[test]
fn the_mean_square_is_exact() {
    assert_eq!(
        AudioInfo::mean_square_16bit(&vec![3, -4, 0]),
        MeanSquare { sum_squares: 25, count: 3, max_amplitude: 32_767 }
    );
    assert_eq!(
        AudioInfo::mean_square_24bit(&vec![i32::MIN, i32::MAX]),
        MeanSquare {
            sum_squares: 4_611_686_018_427_387_904 + 4_611_686_014_132_420_609,
            count: 2,
            max_amplitude: 8_388_607,
        }
    );
}

#[test]
fn an_empty_stream_has_the_level_negative_infinity() {
    let mean_square = AudioInfo::mean_square_16bit(&Vec::new());
    assert_eq!(
        AudioInfo::calculate_rms_db_level(&mean_square, SOME_LEVEL),
        RmsLevel::NegInfinity
    );
    let mean_square = AudioInfo::mean_square_24bit(&Vec::new());
    assert_eq!(
        AudioInfo::calculate_rms_db_level(&mean_square, SOME_LEVEL),
        RmsLevel::NegInfinity
    );
}

#[test]
fn a_stream_of_zeros_has_the_level_negative_infinity() {
    let mean_square = AudioInfo::mean_square_16bit(&vec![0; 64]);
    assert_eq!(
        AudioInfo::calculate_rms_db_level(&mean_square, SOME_LEVEL),
        RmsLevel::NegInfinity
    );
    let mean_square = AudioInfo::mean_square_24bit(&vec![0; 64]);
    assert_eq!(
        AudioInfo::calculate_rms_db_level(&mean_square, SOME_LEVEL),
        RmsLevel::NegInfinity
    );
}

#[test]
fn a_stream_with_energy_has_the_finite_level_given() {
    let mean_square = AudioInfo::mean_square_16bit(&vec![0, 0, 1]);
    assert_eq!(
        AudioInfo::calculate_rms_db_level(&mean_square, SOME_LEVEL),
        RmsLevel::Finite(SOME_LEVEL)
    );
}

#[test]
fn the_mean_square_gives_the_level_in_decibels() {
    // a square wave at half of full scale lies about six decibels below it
    let mean_square = AudioInfo::mean_square_24bit(&vec![4_194_304, -4_194_304]);
    let ratio: f64 = mean_square.sum_squares as f64
        / (mean_square.count as f64 * (mean_square.max_amplitude as f64).powi(2));
    let db: f64 = (20.0 * ratio.sqrt().log10() * 100.0).round() / 100.0;
    assert_eq!(db, -6.02);
}

use audioinfo::{
    AudioInfo, DecodedStream, Decibels, FlacLoadError, MeanSquare, PeakLevel, ProcessError,
    RmsLevel, StreamInfo, WalkEntry,
};

fn entry(file_name: &str) -> WalkEntry {
    WalkEntry {
        path_segments: vec!["music".to_string(), file_name.to_string()],
        file_name: file_name.to_string(),
        is_file: true,
    }
}

fn stream(bits_per_sample: u32, samples: Vec<i32>) -> DecodedStream {
    DecodedStream {
        info: StreamInfo {
            sample_rate: 44_100,
            bits_per_sample,
            channels: 2,
            samples: Some(66_150),
            md5sum: vec![
                0xD4, 0x1D, 0x8C, 0xD9, 0x8F, 0x00, 0xB2, 0x04, 0xE9, 0x80, 0x09, 0x98, 0xEC,
                0xF8, 0x42, 0x7E,
            ],
        },
        samples,
    }
}

#[test]
fn a_16_bit_stream_is_analysed() {
    let decoded = stream(16, vec![1, -1, 32_767, -32_768]);
    let analysis = AudioInfo::process_audio_file(&entry("a.flac"), Ok(decoded)).unwrap();
    assert_eq!(analysis.file_name, "a.flac");
    assert_eq!(analysis.duration, "00:00:01.50");
    assert_eq!(analysis.total_samples, 66_150);
    assert_eq!(analysis.sample_rate, 44_100);
    assert_eq!(analysis.bit_depth, 16);
    assert_eq!(analysis.channels, 2);
    assert_eq!(analysis.peak_level, PeakLevel { millionths: 1_000_031 });
    assert_eq!(
        analysis.mean_square,
        MeanSquare {
            sum_squares: 1 + 1 + 32_767 * 32_767 + 32_768 * 32_768,
            count: 4,
            max_amplitude: 32_767,
        }
    );
    assert_eq!(analysis.crc32, "EB38190B");
    assert_eq!(analysis.md5, "d41d8cd98f00b204e9800998ecf8427e");
}

#[test]
fn a_24_bit_stream_is_analysed() {
    let decoded = stream(24, vec![-1, 8_388_607, -8_388_608]);
    let analysis = AudioInfo::process_audio_file(&entry("b.flac"), Ok(decoded)).unwrap();
    assert_eq!(analysis.file_name, "b.flac");
    assert_eq!(analysis.bit_depth, 24);
    assert_eq!(analysis.peak_level, PeakLevel { millionths: 1_000_000 });
    assert_eq!(
        analysis.mean_square,
        MeanSquare {
            sum_squares: 1 + 8_388_607 * 8_388_607 + 8_388_608 * 8_388_608,
            count: 3,
            max_amplitude: 8_388_607,
        }
    );
    assert_eq!(analysis.crc32, "EB7F0B99");
}

#[test]
fn samples_of_a_16_bit_stream_are_cut_to_16_bits() {
    let wide = stream(16, vec![0x1_1234, -65_537]);
    let narrow = stream(16, vec![0x1234, -1]);
    let wide = AudioInfo::process_audio_file(&entry("a.flac"), Ok(wide)).unwrap();
    let narrow = AudioInfo::process_audio_file(&entry("a.flac"), Ok(narrow)).unwrap();
    assert_eq!(wide, narrow);
}

#[test]
fn an_8_bit_stream_is_an_unsupported_bit_depth() {
    let decoded = stream(8, vec![1, 2, 3]);
    assert_eq!(
        AudioInfo::process_audio_file(&entry("c.flac"), Ok(decoded)),
        Err(ProcessError::UnsupportedBitDepth)
    );
    let decoded = stream(32, vec![1, 2, 3]);
    assert_eq!(
        AudioInfo::process_audio_file(&entry("c.flac"), Ok(decoded)),
        Err(ProcessError::UnsupportedBitDepth)
    );
}

#[test]
fn a_stream_without_its_number_of_samples_is_an_error() {
    let mut decoded = stream(16, vec![1, 2, 3]);
    decoded.info.samples = None;
    assert_eq!(
        AudioInfo::process_audio_file(&entry("c.flac"), Ok(decoded)),
        Err(ProcessError::NoSamplesFound)
    );
    // the missing number is found before the bit depth is looked at
    let mut decoded = stream(8, vec![1, 2, 3]);
    decoded.info.samples = None;
    assert_eq!(
        AudioInfo::process_audio_file(&entry("c.flac"), Ok(decoded)),
        Err(ProcessError::NoSamplesFound)
    );
}

#[test]
fn a_stream_that_did_not_open_is_an_error() {
    let cause = FlacLoadError::FlacReaderError("invalid stream header".to_string());
    assert_eq!(
        AudioInfo::process_audio_file(&entry("c.flac"), Err(cause.clone())),
        Err(ProcessError::FlacLoadError(cause))
    );
    let cause = FlacLoadError::FileOpenError("permission denied".to_string());
    assert_eq!(
        AudioInfo::process_audio_file(&entry("c.flac"), Err(cause.clone())),
        Err(ProcessError::FlacLoadError(cause))
    );
}

#[test]
fn a_file_of_another_kind_is_not_processed() {
    let names = ["c.mp3", "c.FLAC", "flac", ".flac", "c.flac.txt", "cflac", ""];
    for name in names {
        assert!(!AudioInfo::is_flac_file(&entry(name)), "{}", name);
        assert_eq!(
            AudioInfo::process_audio_file(&entry(name), Ok(stream(16, vec![1]))),
            Err(ProcessError::NonFlacError)
        );
    }
    let cause = FlacLoadError::FileOpenError("gone".to_string());
    assert_eq!(
        AudioInfo::process_audio_file(&entry("c.mp3"), Err(cause)),
        Err(ProcessError::NonFlacError)
    );
}

#[test]
fn a_directory_is_not_processed() {
    let mut directory = entry("album.flac");
    directory.is_file = false;
    assert!(!AudioInfo::is_flac_file(&directory));
    assert_eq!(
        AudioInfo::process_audio_file(&directory, Ok(stream(16, vec![1]))),
        Err(ProcessError::NonFlacError)
    );
}

#[test]
fn names_with_the_extension_flac() {
    let names = ["a.flac", "..flac", "a.b.flac", "ä.flac", "a .flac"];
    for name in names {
        assert!(AudioInfo::is_flac_file(&entry(name)), "{}", name);
    }
}

#[test]
fn the_record_takes_the_level_that_belongs_to_the_mean_square() {
    let level = Decibels { negative: true, hundredths: 301 };
    let decoded = stream(16, vec![23_170, -23_170]);
    let analysis = AudioInfo::process_audio_file(&entry("a.flac"), Ok(decoded)).unwrap();
    let file = analysis.clone().into_audio_file(level);
    assert_eq!(file.rms_db_level, RmsLevel::Finite(level));
    assert_eq!(file.file_name, analysis.file_name);
    assert_eq!(file.duration, analysis.duration);
    assert_eq!(file.total_samples, analysis.total_samples);
    assert_eq!(file.sample_rate, analysis.sample_rate);
    assert_eq!(file.bit_depth, analysis.bit_depth);
    assert_eq!(file.channels, analysis.channels);
    assert_eq!(file.peak_level, analysis.peak_level);
    assert_eq!(file.crc32, analysis.crc32);
    assert_eq!(file.md5, analysis.md5);
}

#[test]
fn the_record_of_a_silent_stream_has_the_level_negative_infinity() {
    let level = Decibels { negative: true, hundredths: 301 };
    let silent = AudioInfo::process_audio_file(&entry("a.flac"), Ok(stream(16, vec![0, 0])));
    assert_eq!(silent.unwrap().into_audio_file(level).rms_db_level, RmsLevel::NegInfinity);
    let empty = AudioInfo::process_audio_file(&entry("a.flac"), Ok(stream(24, Vec::new())));
    assert_eq!(empty.unwrap().into_audio_file(level).rms_db_level, RmsLevel::NegInfinity);
}

use audioinfo::{AudioFile, Decibels, FlacLoadError, PeakLevel, ProcessError, RmsLevel};

#[test]
fn the_messages_of_the_errors() {
    assert_eq!(ProcessError::NonFlacError.message(), "Non flac file found");
    assert_eq!(ProcessError::NoSamplesFound.message(), "Total samples not found");
    assert_eq!(ProcessError::UnsupportedBitDepth.message(), "Unsupported bit depth");
    let open = FlacLoadError::FileOpenError("No such file or directory".to_string());
    assert_eq!(open.message(), "Error opening file: No such file or directory");
    assert_eq!(
        ProcessError::FlacLoadError(open).message(),
        "Flac load error: Error opening file: No such file or directory"
    );
    let reader = FlacLoadError::FlacReaderError("invalid stream header".to_string());
    assert_eq!(reader.message(), "Error creating claxon FLAC reader: invalid stream header");
    assert_eq!(
        ProcessError::FlacLoadError(reader).message(),
        "Flac load error: Error creating claxon FLAC reader: invalid stream header"
    );
}

#[test]
fn a_load_error_becomes_a_process_error() {
    let cause = FlacLoadError::FlacReaderError("bad".to_string());
    assert_eq!(ProcessError::from(cause.clone()), ProcessError::FlacLoadError(cause));
}

#[test]
fn the_default_record_is_empty() {
    let file = AudioFile::default();
    assert_eq!(file.file_name, "");
    assert_eq!(file.duration, "");
    assert_eq!(file.total_samples, 0);
    assert_eq!(file.sample_rate, 0);
    assert_eq!(file.bit_depth, 0);
    assert_eq!(file.channels, 0);
    assert_eq!(file.peak_level, PeakLevel { millionths: 0 });
    assert_eq!(
        file.rms_db_level,
        RmsLevel::Finite(Decibels { negative: false, hundredths: 0 })
    );
    assert_eq!(file.crc32, "");
    assert_eq!(file.md5, "");
}

use audioinfo::{
    AudioFile, AudioInfo, DecodedStream, Decibels, ErrorPolicy, FlacLoadError, ProcessError,
    StreamInfo, Walk, WalkEntry,
};

const LEVEL: Decibels = Decibels { negative: true, hundredths: 600 };

fn entry(segments: &[&str]) -> WalkEntry {
    WalkEntry {
        path_segments: segments.iter().map(|s| s.to_string()).collect(),
        file_name: segments.last().unwrap().to_string(),
        is_file: true,
    }
}

fn stream(bits_per_sample: u32) -> DecodedStream {
    DecodedStream {
        info: StreamInfo {
            sample_rate: 44_100,
            bits_per_sample,
            channels: 2,
            samples: Some(44_100),
            md5sum: vec![0; 16],
        },
        samples: vec![100, -100, 50, -50],
    }
}

/// Walks the entries as a caller does, decoding only what the walk wants.
fn walk(policy: ErrorPolicy, entries: &[(WalkEntry, u32)]) -> (Vec<AudioFile>, usize) {
    let mut walk = Walk::new(policy);
    let mut decoded: usize = 0;
    for (entry, bits_per_sample) in entries {
        if walk.is_halted() {
            break;
        }
        if !walk.wants(entry) {
            continue;
        }
        decoded += 1;
        let outcome = AudioInfo::process_audio_file(entry, Ok(stream(*bits_per_sample)))
            .map(|analysis| analysis.into_audio_file(LEVEL));
        walk.accept(outcome);
    }
    (walk.into_files(), decoded)
}

fn record(name: &str) -> AudioFile {
    AudioInfo::process_audio_file(&entry(&["music", name]), Ok(stream(16)))
        .unwrap()
        .into_audio_file(LEVEL)
}

#[test]
fn a_walk_collects_the_valid_file_before_the_unsupported_one() {
    let entries = [
        (entry(&["music", "valid.flac"]), 16),
        (entry(&["music", ".hidden.flac"]), 16),
        (entry(&["music", "eight.flac"]), 8),
    ];
    let (files, decoded) = walk(ErrorPolicy::AbortOnError, &entries);
    assert_eq!(files, vec![record("valid.flac")]);
    assert_eq!(decoded, 2);
}

#[test]
fn a_walk_that_meets_the_unsupported_file_first_collects_nothing() {
    let entries = [
        (entry(&["music", "eight.flac"]), 8),
        (entry(&["music", ".hidden.flac"]), 16),
        (entry(&["music", "valid.flac"]), 16),
    ];
    let (files, decoded) = walk(ErrorPolicy::AbortOnError, &entries);
    assert_eq!(files, Vec::new());
    assert_eq!(decoded, 1);
}

#[test]
fn a_walk_that_skips_errors_goes_on() {
    let entries = [
        (entry(&["music", "eight.flac"]), 8),
        (entry(&["music", "one.flac"]), 16),
        (entry(&["music", "thirty-two.flac"]), 32),
        (entry(&["music", "two.flac"]), 24),
    ];
    let (files, decoded) = walk(ErrorPolicy::SkipAndContinue, &entries);
    assert_eq!(files.len(), 2);
    assert_eq!(files[0].file_name, "one.flac");
    assert_eq!(files[1].file_name, "two.flac");
    assert_eq!(decoded, 4);
}

#[test]
fn a_walk_keeps_the_order_of_the_entries() {
    let entries = [
        (entry(&["music", "z.flac"]), 16),
        (entry(&["music", "a.flac"]), 24),
        (entry(&["music", "m.flac"]), 16),
    ];
    let (files, _) = walk(ErrorPolicy::AbortOnError, &entries);
    let names: Vec<&str> = files.iter().map(|f| f.file_name.as_str()).collect();
    assert_eq!(names, vec!["z.flac", "a.flac", "m.flac"]);
}

#[test]
fn a_hidden_name_anywhere_on_the_path_hides_the_entry() {
    let walk = Walk::new(ErrorPolicy::AbortOnError);
    assert!(walk.wants(&entry(&["music", "album", "a.flac"])));
    assert!(!walk.wants(&entry(&["music", ".album", "a.flac"])));
    assert!(!walk.wants(&entry(&[".", "music", "a.flac"])));
    assert!(!walk.wants(&entry(&["music", "album", ".a.flac"])));
    assert!(walk.wants(&entry(&["music", "al.bum", "a.flac"])));
    assert!(walk.wants(&entry(&["", "music", "a.flac"])));
}

#[test]
fn hidden_paths() {
    let path = |segments: &[&str]| -> Vec<String> {
        segments.iter().map(|s| s.to_string()).collect()
    };
    assert!(!AudioInfo::is_hidden(&path(&[])));
    assert!(!AudioInfo::is_hidden(&path(&["a", "b.c"])));
    assert!(AudioInfo::is_hidden(&path(&["a", ".b"])));
    assert!(AudioInfo::is_hidden(&path(&["..", "a"])));
}

#[test]
fn a_walk_wants_only_regular_flac_files() {
    let walk = Walk::new(ErrorPolicy::AbortOnError);
    assert!(!walk.wants(&entry(&["music", "a.mp3"])));
    assert!(!walk.wants(&entry(&["music", "a.FLAC"])));
    let mut directory = entry(&["music", "album.flac"]);
    directory.is_file = false;
    assert!(!walk.wants(&directory));
}

#[test]
fn a_walk_that_has_ended_wants_and_takes_nothing() {
    let mut walk = Walk::new(ErrorPolicy::AbortOnError);
    walk.accept(Ok(record("a.flac")));
    assert!(!walk.is_halted());
    walk.accept(Err(ProcessError::NoSamplesFound));
    assert!(walk.is_halted());
    assert!(!walk.wants(&entry(&["music", "b.flac"])));
    walk.accept(Ok(record("b.flac")));
    assert_eq!(walk.into_files(), vec![record("a.flac")]);
}

#[test]
fn a_file_that_is_no_flac_file_does_not_end_a_walk() {
    let mut walk = Walk::new(ErrorPolicy::AbortOnError);
    walk.accept(Err(ProcessError::NonFlacError));
    assert!(!walk.is_halted());
    walk.accept(Ok(record("a.flac")));
    assert_eq!(walk.into_files(), vec![record("a.flac")]);
}

#[test]
fn every_other_error_ends_a_walk() {
    let errors = [
        ProcessError::NoSamplesFound,
        ProcessError::UnsupportedBitDepth,
        ProcessError::FlacLoadError(FlacLoadError::FileOpenError("gone".to_string())),
        ProcessError::FlacLoadError(FlacLoadError::FlacReaderError("bad".to_string())),
    ];
    for error in errors {
        let mut walk = Walk::new(ErrorPolicy::AbortOnError);
        walk.accept(Err(error.clone()));
        assert!(walk.is_halted());
        let mut walk = Walk::new(ErrorPolicy::SkipAndContinue);
        walk.accept(Err(error));
        assert!(!walk.is_halted());
    }
}

#[test]
fn outcomes_are_collected_up_to_the_first_error() {
    let outcomes = vec![
        Ok(record("a.flac")),
        Err(ProcessError::NonFlacError),
        Ok(record("b.flac")),
        Err(ProcessError::UnsupportedBitDepth),
        Ok(record("c.flac")),
    ];
    assert_eq!(AudioInfo::walk_dir(outcomes), vec![record("a.flac"), record("b.flac")]);
    assert_eq!(AudioInfo::walk_dir(Vec::new()), Vec::new());
}

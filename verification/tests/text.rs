use std::collections::HashSet;
use std::time::{SystemTime, UNIX_EPOCH};

use histlog::error::{Error, IoError, IoErrorKind, TrySendError};
use histlog::filename::{filename_for, get_filename, to_hex};
use histlog::hist::RecordError;
use histlog::nanos;
use histlog::path::{ensure_parent_dir_exists, join_path, parent_dir, DirStep};
use histlog::scribe::{log_header, step, Step};
use histlog::time::{Duration, Instant, SystemTimestamp, Timestamp};

#[test]
fn generated_hlog_filenames_are_unique() {
    let save_dir = "a/b/c";
    let series = "d-e-f";
    let filenames: Vec<String> = (0..1000).map(|_| get_filename(save_dir, series)).collect();
    let unique = filenames.iter().cloned().collect::<HashSet<_>>();
    assert_eq!(filenames.len(), unique.len());
}

#[test]
fn filenames_tell_series_time_and_number() {
    assert_eq!(
        filename_for("a/b/c", "d-e-f", "2018-12-12-161453Z", 0xbeef),
        "a/b/c/d-e-f.2018-12-12-161453Z.beef.hdrhistogram-interval-log.v2.gz"
    );
    assert_ne!(filename_for("d", "s", "0Z", 0x10), filename_for("d", "s", "0Z", 0x100));
    assert_ne!(filename_for("d", "s", "0Z", 1), filename_for("d", "s", "1Z", 1));
    let path = get_filename("/var/log", "latency");
    let name = path.strip_prefix("/var/log/latency.").unwrap();
    let name = name.strip_suffix(".hdrhistogram-interval-log.v2.gz").unwrap();
    let (time, id) = name.split_once('.').unwrap();
    assert_eq!(time.len(), "2018-12-12-161453Z".len());
    assert!(chrono::NaiveDateTime::parse_from_str(time, "%Y-%m-%d-%H%M%SZ").is_ok());
    assert!(u32::from_str_radix(id, 16).is_ok());
    assert_eq!(parent_dir(&path).as_deref(), Some("/var/log"));
}

#[test]
fn filenames_are_dated_now() {
    let before = chrono::Utc::now().format("%Y-%m-%d-%H%M%SZ").to_string();
    let path = get_filename("", "s");
    let after = chrono::Utc::now().format("%Y-%m-%d-%H%M%SZ").to_string();
    let time = path.split('.').nth(1).unwrap().to_string();
    assert!(before <= time && time <= after);
}

#[test]
fn numbers_in_hexadecimal() {
    assert_eq!(to_hex(0), "0");
    assert_eq!(to_hex(9), "9");
    assert_eq!(to_hex(10), "a");
    assert_eq!(to_hex(16), "10");
    assert_eq!(to_hex(u32::MAX), "ffffffff");
    for n in [1u32, 15, 17, 255, 256, 4096, 0x1234_5678, 0x9abc_def0] {
        assert_eq!(to_hex(n), format!("{n:x}"));
    }
}

/// Every text of up to `len` of the characters of paths.
fn paths(len: usize) -> Vec<String> {
    let mut all = vec![String::new()];
    let mut from = 0;
    for _ in 0..len {
        let to = all.len();
        for i in from..to {
            for c in ['a', '/', '.'] {
                let longer = format!("{}{}", all[i], c);
                all.push(longer);
            }
        }
        from = to;
    }
    all
}

#[test]
fn joined_paths_are_those_of_the_standard_library() {
    for dir in paths(4) {
        for name in paths(4) {
            assert_eq!(
                join_path(&dir, &name),
                std::path::Path::new(&dir).join(&name).to_str().unwrap()
            );
        }
    }
}

#[test]
fn directories_are_those_of_the_standard_library() {
    for path in paths(7) {
        assert_eq!(
            parent_dir(&path),
            std::path::Path::new(&path).parent().map(|dir| dir.to_str().unwrap().to_string()),
            "{}",
            path
        );
    }
    assert_eq!(parent_dir("a/b/n.gz").as_deref(), Some("a/b"));
    assert_eq!(parent_dir("/"), None);
    assert_eq!(parent_dir(""), None);
}

#[test]
fn the_directory_of_a_log_file_is_made_if_it_is_missing() {
    assert!(matches!(ensure_parent_dir_exists("a/b/n", true), Ok(DirStep::Ready)));
    match ensure_parent_dir_exists("a/b/n", false) {
        Ok(DirStep::Create(dir)) => assert_eq!(dir, "a/b"),
        other => panic!("unexpected step: {:?}", other),
    }
    for exists in [true, false] {
        match ensure_parent_dir_exists("/", exists) {
            Err(Error::Io(e)) => {
                assert_eq!(e.kind, IoErrorKind::InvalidInput);
                assert_eq!(e.message, "parent path (of /) is not a directory");
            }
            other => panic!("unexpected step: {:?}", other),
        }
    }
}

#[test]
fn errors_as_text() {
    let io = Error::Io(IoError { kind: IoErrorKind::Other, message: "broken".to_string() });
    assert_eq!(io.to_text(), "Io(broken)");
    assert_eq!(
        Error::HdrRecord(RecordError::ValueOutOfRangeResizeDisabled).to_text(),
        format!("HdrRecord({})", hdrhistogram::RecordError::ValueOutOfRangeResizeDisabled)
    );
    assert_eq!(
        Error::HdrRecord(RecordError::ValueOutOfRangeResizeDisabled).to_text(),
        "HdrRecord(The value to record is not representable in this histogram and resizing is disabled)"
    );
    assert_eq!(
        Error::HdrRecord(RecordError::ResizeFailedUsizeTypeTooSmall).to_text(),
        "HdrRecord(Auto resizing is enabled and must be used to represent the provided value, but the histogram cannot be resized because `usize` cannot represent sufficient length)"
    );
    assert_eq!(
        Error::TrySend(TrySendError::Full).to_text(),
        "TrySend(sending on a full channel)"
    );
    assert_eq!(
        Error::TrySend(TrySendError::Disconnected).to_text(),
        "TrySend(sending on a disconnected channel)"
    );
}

fn header_at(time: SystemTime) -> String {
    log_header(&SystemTimestamp::of(time))
}

#[test]
fn the_header_of_a_log() {
    let after = |secs: u64, millis: u32| {
        UNIX_EPOCH + std::time::Duration::new(secs, millis * 1_000_000)
    };
    assert_eq!(
        header_at(after(1_544_631_293, 283)),
        "#[StartTime: 1544631293.283 (seconds since epoch)]\n#[BaseTime: 0.000 (seconds since epoch)]\n"
    );
    assert_eq!(
        header_at(UNIX_EPOCH - std::time::Duration::from_millis(1_500)),
        "#[StartTime: -1.500 (seconds since epoch)]\n#[BaseTime: 0.000 (seconds since epoch)]\n"
    );
    assert!(header_at(UNIX_EPOCH).starts_with("#[StartTime: 0.000 (seconds"));
    assert!(header_at(after(1 << 50, 0)).starts_with("#[StartTime: 1125899906842624.000 "));
    assert!(header_at(UNIX_EPOCH - std::time::Duration::from_secs(1 << 50))
        .starts_with("#[StartTime: -1125899906842624.000 "));
}

#[test]
fn system_times_tell_how_far_they_are_from_the_epoch() {
    let span = std::time::Duration::new(3, 250_000_000);
    assert_eq!(SystemTimestamp::of(UNIX_EPOCH + span).timestamp().nanos, 3_250_000_000);
    assert_eq!(SystemTimestamp::of(UNIX_EPOCH - span).timestamp().nanos, -3_250_000_000);
    assert_eq!(SystemTimestamp::of(UNIX_EPOCH).timestamp().nanos, 0);
    let before = SystemTimestamp::now().timestamp();
    let now = Timestamp::now();
    assert!(now.duration_since(before).unwrap().as_secs() < 3600);
    assert!(before.nanos > 1_544_631_293_000_000_000);
}

#[test]
fn the_writer_ends_when_it_is_told_to() {
    match step(17, Some(None)) {
        (17, Step::Stop(17)) => {}
        other => panic!("unexpected step: {:?}", other),
    }
    match step(17, None) {
        (17, Step::Yield) => {}
        other => panic!("unexpected step: {:?}", other),
    }
}

#[test]
fn durations_in_nanoseconds() {
    assert_eq!(nanos(Duration::from_secs(1)), 1_000_000_000u64);
    assert_eq!(nanos(Duration::from_millis(1_234)), 1_234_000_000);
    assert_eq!(nanos(Duration::new(18_446_744_073, 709_551_615)), u64::MAX);
    let d = Duration::new(7, 999_999_999);
    assert_eq!((d.as_secs(), d.subsec_nanos(), d.as_nanos()), (7, 999_999_999, 7_999_999_999));
    assert_eq!(Duration::from_millis(5_250), Duration::new(5, 250_000_000));
}

#[test]
fn time_between_instants() {
    let early = Instant::at(Duration::new(1, 900_000_000));
    let late = Instant::at(Duration::new(3, 100_000_000));
    assert_eq!(late.saturating_duration_since(early), Duration::new(1, 200_000_000));
    assert_eq!(early.saturating_duration_since(late), Duration::from_secs(0));
}

#[test]
fn time_between_timestamps() {
    let t = Timestamp { nanos: 5 };
    assert_eq!(t.minus(Duration::from_secs(1)).nanos, -999_999_995);
    assert_eq!(t.duration_since(Timestamp { nanos: -5 }), Some(Duration::new(0, 10)));
    assert_eq!(t.duration_since(Timestamp { nanos: 6 }), None);
    let far = Timestamp { nanos: i128::MIN };
    assert_eq!(t.duration_since(far), None);
    let longest = Timestamp { nanos: 18_446_744_073_709_551_615_999_999_999 };
    let d = longest.duration_since(Timestamp { nanos: 0 }).unwrap();
    assert_eq!((d.as_secs(), d.subsec_nanos()), (u64::MAX, 999_999_999));
    assert_eq!(longest.duration_since(Timestamp { nanos: -1 }), None);
}

#[test]
fn times_before_and_after_the_epoch() {
    assert_eq!(Timestamp::from_epoch(Ok((0, 0))).nanos, 0);
    assert_eq!(Timestamp::from_epoch(Ok((2, 500_000_000))).nanos, 2_500_000_000);
    assert_eq!(Timestamp::from_epoch(Err((2, 500_000_000))).nanos, -2_500_000_000);
    assert_eq!(
        Timestamp::from_epoch(Err((u64::MAX, 999_999_999))).nanos,
        -18_446_744_073_709_551_615_999_999_999
    );
}

#[test]
fn the_present_time() {
    let before = std::time::SystemTime::now()
        .duration_since(std::time::UNIX_EPOCH)
        .unwrap()
        .as_nanos() as i128;
    let now = Timestamp::now().nanos;
    let after = std::time::SystemTime::now()
        .duration_since(std::time::UNIX_EPOCH)
        .unwrap()
        .as_nanos() as i128;
    assert!(before <= now && now <= after);
}

#[test]
fn a_clock_counts_from_its_origin() {
    let origin = std::time::Instant::now();
    let clock = histlog::time::Clock::with_origin(origin);
    let before = origin.elapsed().as_nanos();
    let now = clock.now().saturating_duration_since(Instant::at(Duration::from_secs(0)));
    let after = origin.elapsed().as_nanos();
    assert!(before <= now.as_nanos() && now.as_nanos() <= after);
}

use hdrhistogram::serialization::interval_log::{IntervalLogIterator, LogEntry};
use hdrhistogram::serialization::Deserializer;
use hdrhistogram::Histogram;

use histlog::error::{Error, TrySendError};
use histlog::log::{Closing, Flushed, Termination};
use histlog::scribe::Step;
use histlog::time::{Clock, Duration, Instant, Timestamp};
use histlog::{HistLog, Scribe};

fn at(millis: u64) -> Instant {
    Instant::at(Duration::from_millis(millis))
}

fn civil(millis: i128) -> Timestamp {
    Timestamp { nanos: 1_544_631_293_000_000_000 + millis * 1_000_000 }
}

/// A log whose writer is its own handle, with an interval of `freq` milliseconds.
fn open(tag: &'static str, freq: u64) -> HistLog<Scribe> {
    let mut log = HistLog::new(
        "/tmp/histlog",
        "test",
        tag,
        Duration::from_millis(freq),
        Clock::start(),
        |scribe| Ok::<Scribe, ()>(scribe),
    )
    .unwrap();
    log.reset_at(at(100));
    log
}

/// Everything that the writer writes until it is told to end, and its report.
fn run(scribe: &mut Scribe) -> (String, usize) {
    let mut text = String::new();
    loop {
        match scribe.next_step() {
            Step::Write(line) => text.push_str(&line),
            Step::Yield => {}
            Step::Stop(n) => return (text, n),
            Step::BadTime => panic!("bad time"),
        }
    }
}

const AT_ONCE: u64 = 0;

fn waited(millis: u64) -> Duration {
    Duration::from_millis(millis)
}

/// Closes a log; if it is the last one, runs its writer.
fn close(mut log: HistLog<Scribe>) -> Option<(String, usize)> {
    let mut state = Closing::Flushing;
    loop {
        state = match log.close(state, waited(AT_ONCE)) {
            Closing::Join(mut scribe) => return Some(run(&mut scribe)),
            Closing::Done => return None,
            Closing::NoTime => panic!("no time has gone by"),
            going => going,
        }
    }
}

/// A line of a log: tag, start, duration and histogram.
struct Line {
    tag: Option<String>,
    start: std::time::Duration,
    duration: std::time::Duration,
    max: f64,
    hist: Histogram<u64>,
}

fn lines(text: &str) -> Vec<Line> {
    IntervalLogIterator::new(text.as_bytes())
        .map(|entry| match entry.unwrap() {
            LogEntry::Interval(h) => Line {
                tag: h.tag().map(|t| t.as_str().to_string()),
                start: h.start_timestamp(),
                duration: h.duration(),
                max: h.max(),
                hist: decode(h.encoded_histogram()),
            },
            other => panic!("unexpected entry: {:?}", other),
        })
        .collect()
}

/// Decodes the base64 text of a histogram.
fn decode(text: &str) -> Histogram<u64> {
    let mut bytes: Vec<u8> = Vec::new();
    let mut bits: u32 = 0;
    let mut n: u32 = 0;
    for c in text.bytes() {
        let v = match c {
            b'A'..=b'Z' => c - b'A',
            b'a'..=b'z' => c - b'a' + 26,
            b'0'..=b'9' => c - b'0' + 52,
            b'+' => 62,
            b'/' => 63,
            _ => break,
        };
        bits = (bits << 6) | u32::from(v);
        n += 6;
        if n >= 8 {
            n -= 8;
            bytes.push((bits >> n) as u8);
            bits &= (1 << n) - 1;
        }
    }
    Deserializer::new().deserialize(&mut &bytes[..]).unwrap()
}

#[test]
fn create_histlog_record_one_and_drop() {
    let mut hist = HistLog::new(
        "/tmp/histlog",
        "test",
        "red",
        Duration::from_millis(1),
        Clock::start(),
        |scribe| Ok::<Scribe, ()>(scribe),
    )
    .unwrap();
    let path = hist.path().to_string();
    hist.reset_at(at(1000));
    for i in 0..1000u64 {
        hist.record(i).unwrap();
    }
    assert_eq!(hist.check_send(at(1000)), false);
    assert!(hist.check_try_send(at(1000)).is_ok());
    assert_eq!(hist.check_try_send(at(1000)).unwrap(), false);
    assert_eq!(hist.check_send(at(1003)), true);
    let mut scribe = hist.release().unwrap();
    assert_eq!(scribe.path(), path);
    assert_eq!(hist.terminate(Duration::from_secs(0)), Termination::Accepted);
    drop(hist);
    let (text, n) = run(&mut scribe);
    assert_eq!(n, 1);
    let lines = lines(&text);
    assert_eq!(lines[0].tag.as_deref(), Some("red"));
    assert_eq!(lines[0].duration, std::time::Duration::from_millis(3));
    assert_eq!(lines[0].hist.len(), 1000);
    assert_eq!(lines[0].hist.max(), 999);
}

#[test]
fn clone_it() {
    let mut hist = HistLog::new(
        "/tmp/histlog",
        "test",
        "red",
        Duration::from_millis(1),
        Clock::start(),
        |scribe| Ok::<Scribe, ()>(scribe),
    )
    .unwrap();
    let mut tx = hist.clone();
    assert!(tx.release().is_none());
    let mut a = hist.clone_with_tag("blue");
    for i in 0..1000u64 {
        hist.record(i).unwrap();
        a.record(i * 2).unwrap();
    }
    assert!(close(hist).is_none());
    let (text, n) = close(a).unwrap();
    assert_eq!(n, 2);
    let lines = lines(&text);
    assert_eq!(lines[0].tag.as_deref(), Some("red"));
    assert_eq!(lines[0].hist.len(), 1000);
    assert_eq!(lines[1].tag.as_deref(), Some("blue"));
    assert_eq!(lines[1].hist.max(), 1998);
    match tx.terminate(Duration::from_secs(0)) {
        Termination::GiveUp => {}
        other => panic!("unexpected variant: {:?}", other),
    }
    tx.reset_at(at(0));
    match tx.check_try_send(at(2)) {
        Err(Error::TrySend(TrySendError::Disconnected)) => {}
        other => panic!("unexpected variant: {:?}", other),
    }
}

#[test]
fn a_log_is_sent_when_more_than_an_interval_has_gone_by() {
    let mut log = open("t", 10);
    assert!(!log.expired(at(99)));
    assert!(!log.check_send(at(99)));
    assert!(!log.check_send(at(100)));
    assert!(!log.check_send(at(110)));
    assert!(!log.check_try_send(at(110)).unwrap());
    let just_after = Instant::at(Duration::new(0, 110_000_001));
    assert!(log.expired(just_after));
    assert!(log.check_try_send(just_after).unwrap());
    assert!(!log.check_send(just_after));
    assert!(log.check_send(at(121)));
    let (text, n) = close(log).unwrap();
    assert_eq!(n, 2);
    assert_eq!(lines(&text)[1].duration, std::time::Duration::from_millis(11));
    let mut log = open("t", 10);
    let path = log.path().to_string();
    for later in 111..200 {
        assert!(log.expired(at(later)));
    }
    assert!(log.check_send(at(200)));
    assert!(log.check_try_send(at(300)).unwrap());
    log.reset();
    assert_eq!(log.path(), path);
}

#[test]
fn an_interval_of_no_length_needs_some_time() {
    let mut log = open("t", 0);
    assert!(!log.check_send(at(100)));
    assert!(!log.check_try_send(at(100)).unwrap());
    assert!(log.check_send(Instant::at(Duration::new(0, 100_000_001))));
}

#[test]
fn a_line_tells_tag_times_and_values() {
    let mut log = open("xeon-e7-8891-v2", 1);
    for i in 0..1000u64 {
        log.record(i).unwrap();
    }
    assert!(log.send_at(at(103), civil(283)));
    let (text, n) = close(log).unwrap();
    assert_eq!(n, 1);
    assert!(text.starts_with("Tag=xeon-e7-8891-v2,1544631293.280,0.003,999.000,HISTFAAAA"));
    assert!(text.ends_with('\n'));
    assert_eq!(text.matches('\n').count(), 1);
    let line = &lines(&text)[0];
    assert_eq!(line.start, std::time::Duration::from_millis(1_544_631_293_280));
    assert_eq!(line.hist.len(), 1000);
    assert_eq!(line.hist.sigfig(), 3);
    for i in 0..1000u64 {
        assert_eq!(line.hist.count_at(i), 1);
    }
}

#[test]
fn a_tag_that_cannot_stand_in_a_log_is_left_out() {
    for tag in ["a b", "a,b", "a\nb", "a\rb"] {
        let mut log = open(tag, 1);
        log.record(5).unwrap();
        assert!(log.send_at(at(103), civil(0)));
        let (text, _) = close(log).unwrap();
        assert!(text.starts_with("1544631292.997,0.003,5.000,"));
        assert_eq!(lines(&text)[0].tag, None);
    }
    let mut log = open("", 1);
    assert!(log.send_at(at(103), civil(0)));
    assert!(close(log).unwrap().0.starts_with("Tag=,1544631292.997,"));
}

#[test]
fn every_value_is_recorded_whatever_the_precision() {
    for sig_fig in 0..=5u8 {
        let mut log = HistLog::new_with_sig_fig(
            sig_fig,
            "d",
            "s",
            "t",
            Duration::from_secs(1),
            Clock::start(),
            |scribe| Ok::<Scribe, ()>(scribe),
        )
        .unwrap();
        log.reset_at(at(100));
        let values = [0, 1, 2, 3, 2047, 2048, 1 << 40, i64::MAX as u64, u64::MAX - 1, u64::MAX];
        for v in values {
            log.record(v).unwrap();
        }
        assert!(log.send_at(at(101), civil(0)));
        log.record(u64::MAX).unwrap();
        assert!(log.send_at(at(102), civil(1)));
        let (text, n) = close(log).unwrap();
        assert_eq!(n, 2);
        let lines = lines(&text);
        assert_eq!(lines[0].hist.sigfig(), sig_fig);
        assert_eq!(lines[0].hist.len(), 10);
        assert_eq!(lines[1].hist.len(), 1);
    }
}

/// The highest value that a histogram is set up for after each of `values` in turn.
fn ranges(sig_fig: u8, values: &[u64]) -> Vec<u64> {
    let mut log = HistLog::new_with_sig_fig(
        sig_fig,
        "d",
        "s",
        "t",
        Duration::from_secs(1),
        Clock::start(),
        |scribe| Ok::<Scribe, ()>(scribe),
    )
    .unwrap();
    log.reset_at(at(100));
    for (i, v) in values.iter().enumerate() {
        log.record(*v).unwrap();
        assert!(log.send_at(at(101 + i as u64), civil(0)));
    }
    let (text, _) = close(log).unwrap();
    lines(&text).iter().map(|l| l.hist.high()).collect()
}

#[test]
fn the_range_grows_to_powers_of_two() {
    assert_eq!(ranges(3, &[0, 2047, 2048, 4095, 4096, 3]), [2, 2, 4095, 4095, 8191, 8191]);
    assert_eq!(ranges(3, &[1 << 40, (1 << 41) - 1]), [(1 << 41) - 1, (1 << 41) - 1]);
    assert_eq!(
        ranges(3, &[(1 << 63) - 1, 1 << 63, u64::MAX, 1]),
        [(1 << 63) - 1, u64::MAX - 1, u64::MAX - 1, u64::MAX - 1]
    );
    assert_eq!(ranges(0, &[1, 3, 4, 7, 8]), [2, 2, 7, 7, 15]);
    assert_eq!(ranges(0, &[u64::MAX]), [u64::MAX - 1]);
    assert_eq!(ranges(1, &[31, 32]), [2, 63]);
    assert_eq!(ranges(2, &[255, 256]), [2, 511]);
    assert_eq!(ranges(4, &[32_767, 32_768]), [2, 65_535]);
    assert_eq!(ranges(5, &[262_143, 262_144, u64::MAX]), [2, 524_287, u64::MAX - 1]);
}

#[test]
fn sending_reads_the_civil_clock() {
    let mut log = open("t", 1);
    log.record(1).unwrap();
    log.send(at(101));
    for i in 0..7 {
        log.record(2).unwrap();
        assert!(log.try_send(at(102 + i)).is_ok());
    }
    log.record(3).unwrap();
    assert!(matches!(log.try_send(at(110)), Err(Error::TrySend(TrySendError::Full))));
    log.record(4).unwrap();
    let mut scribe = log.release().unwrap();
    assert!(matches!(scribe.next_step(), Step::Write(_)));
    assert!(log.try_send(at(113)).is_ok());
    assert!(matches!(log.try_send(at(114)), Err(Error::TrySend(TrySendError::Full))));
    assert!(matches!(scribe.next_step(), Step::Write(_)));
    assert_eq!(log.terminate(waited(AT_ONCE)), Termination::Accepted);
    let (text, n) = run(&mut scribe);
    assert_eq!(n, 9);
    let lines = lines(&text);
    let last = &lines[6];
    assert_eq!((last.hist.count_at(3), last.hist.count_at(4), last.hist.len()), (1, 1, 2));
    assert_eq!(last.duration, std::time::Duration::from_millis(5));
    assert!(last.start > std::time::Duration::from_secs(1_544_631_293));
    drop(scribe);
    assert!(matches!(log.try_send(at(120)), Err(Error::TrySend(TrySendError::Disconnected))));
    log.send(at(121));
    assert!(!log.expired(at(122)));
}

#[test]
fn a_full_channel_loses_nothing() {
    let mut log = open("t", 1);
    let mut now = 100;
    for i in 0..8u64 {
        log.record(i).unwrap();
        now += 2;
        assert!(log.check_try_send(at(now)).unwrap());
    }
    log.record(100).unwrap();
    log.record(100).unwrap();
    for _ in 0..3 {
        now += 2;
        match log.check_try_send(at(now)) {
            Err(Error::TrySend(TrySendError::Full)) => {}
            other => panic!("unexpected variant: {:?}", other),
        }
    }
    assert_eq!(log.terminate(Duration::from_secs(0)), Termination::Retry);
    log.record(101).unwrap();
    let mut scribe = log.release().unwrap();
    let mut text = String::new();
    for _ in 0..8 {
        match scribe.next_step() {
            Step::Write(line) => text.push_str(&line),
            other => panic!("unexpected step: {:?}", other),
        }
    }
    now += 2;
    assert!(log.check_try_send(at(now)).unwrap());
    assert_eq!(log.terminate(Duration::from_secs(0)), Termination::Accepted);
    let (rest, n) = run(&mut scribe);
    assert_eq!(n, 9);
    assert_eq!(scribe.received(), 9);
    text.push_str(&rest);
    let lines = lines(&text);
    assert_eq!(lines.len(), 9);
    assert_eq!(lines.iter().map(|l| l.hist.len()).sum::<u64>(), 11);
    assert_eq!(lines[8].hist.count_at(100), 2);
    assert_eq!(lines[8].hist.count_at(101), 1);
    assert_eq!(lines[8].duration, std::time::Duration::from_millis(8));
    let spanned: std::time::Duration = lines.iter().map(|l| l.duration).sum();
    assert_eq!(spanned, std::time::Duration::from_millis(now - 100));
}

#[test]
fn the_two_ways_to_send_agree() {
    let mut waiting = open("t", 1);
    let mut trying = open("t", 1);
    for i in 0..3u64 {
        waiting.record(i * 1_000_003).unwrap();
        trying.record(i * 1_000_003).unwrap();
        let (loop_time, now) = (at(110 + i), civil(i as i128));
        assert!(waiting.send_at(loop_time, now));
        assert_eq!(trying.try_send_at(loop_time, now), Ok(()));
    }
    let written = close(waiting).unwrap();
    assert_eq!(written.1, 3);
    assert_eq!(written, close(trying).unwrap());
}

#[test]
fn without_a_writer_sending_fails() {
    let mut log = open("t", 1);
    drop(log.release().unwrap());
    log.record(5).unwrap();
    match log.check_try_send(at(102)) {
        Err(Error::TrySend(TrySendError::Disconnected)) => {}
        other => panic!("unexpected variant: {:?}", other),
    }
    assert_eq!(log.flush_at(at(102), civil(0), waited(AT_ONCE)), Flushed::Nothing);
    assert!(log.expired(at(102)));
    log.record(5).unwrap();
    assert!(log.check_send(at(102)));
    assert!(!log.expired(at(102)));
    assert_eq!(log.flush_at(at(103), civil(0), waited(AT_ONCE)), Flushed::Nothing);
    assert!(!log.send_at(at(104), civil(0)));
    log.record(5).unwrap();
    assert_eq!(log.flush_at(at(105), civil(0), waited(AT_ONCE)), Flushed::Gone);
    assert_eq!(log.terminate(Duration::from_secs(0)), Termination::GiveUp);
}

#[test]
fn a_reset_forgets_what_was_recorded() {
    let mut log = open("t", 1);
    log.record(700).unwrap();
    log.reset_at(at(200));
    log.record(5).unwrap();
    assert!(!log.check_send(at(201)));
    assert!(log.send_at(at(203), civil(0)));
    log.record(6).unwrap();
    log.reset();
    assert_eq!(log.flush_at(at(300), civil(0), waited(AT_ONCE)), Flushed::Nothing);
    let (text, _) = close(log).unwrap();
    let lines = lines(&text);
    assert_eq!(lines.len(), 1);
    assert_eq!(lines[0].hist.len(), 1);
    assert_eq!(lines[0].hist.count_at(5), 1);
    assert_eq!(lines[0].duration, std::time::Duration::from_millis(3));
    assert_eq!(lines[0].max, 700.0);
}

#[test]
fn a_copy_starts_with_what_is_recorded() {
    let mut log = open("red", 1);
    log.record(1).unwrap();
    let mut copy = log.clone_with_tag_and_freq("blue", Duration::from_millis(50));
    assert_eq!(copy.path(), log.path());
    copy.reset_at(at(100));
    copy.record(2).unwrap();
    assert!(!copy.check_send(at(150)));
    assert!(copy.check_send(at(151)));
    assert!(log.check_send(at(102)));
    let mut same = log.clone();
    same.reset_at(at(100));
    assert!(!same.check_send(at(101)));
    assert!(same.check_send(at(102)));
    assert!(close(copy).is_none());
    assert!(close(same).is_none());
    let (text, n) = close(log).unwrap();
    assert_eq!(n, 3);
    let lines = lines(&text);
    let tags: Vec<&str> = lines.iter().map(|l| l.tag.as_deref().unwrap()).collect();
    assert_eq!(tags, ["blue", "red", "red"]);
    assert_eq!(lines[0].hist.len(), 1);
    assert_eq!(lines[1].hist.len(), 1);
    assert_eq!(lines[2].hist.len(), 0);
}

#[test]
fn a_copy_is_independent_of_its_origin() {
    let mut log = open("red", 1);
    log.record(1).unwrap();
    let mut copy = log.clone_with_tag("blue");
    assert!(copy.send_at(Instant::at(Duration::from_secs(3600)), civil(0)));
    assert!(log.send_at(at(102), civil(0)));
    assert!(close(copy).is_none());
    let (text, _) = close(log).unwrap();
    let lines = lines(&text);
    assert_eq!(lines[0].hist.len(), 1);
    assert_eq!(lines[1].hist.len(), 1);
}

#[test]
fn opening_fails_as_starting_the_writer_does() {
    let r = HistLog::<()>::new(
        "dir",
        "series",
        "tag",
        Duration::from_secs(1),
        Clock::start(),
        |scribe| {
            assert_eq!(scribe.thread_name(), "histlog:series");
            assert!(scribe.path().starts_with("dir/series."));
            assert!(scribe.header().starts_with("#[StartTime: "));
            assert_eq!(scribe.received(), 0);
            Err("no disk")
        },
    );
    assert_eq!(r.err(), Some("no disk"));
}

#[derive(Debug)]
struct Failure(String);

impl From<Error> for Failure {
    fn from(e: Error) -> Failure {
        Failure(e.to_text())
    }
}

#[test]
fn a_log_can_be_opened_beside_another() {
    let log = open("red", 7);
    let mut other = log.new_with_tag("blue", |scribe| Ok::<Scribe, Failure>(scribe)).unwrap();
    assert_ne!(other.path(), log.path());
    assert!(other.path().starts_with("/tmp/histlog/test."));
    assert!(other.path().ends_with(".hdrhistogram-interval-log.v2.gz"));
    other.reset_at(at(100));
    assert!(!other.check_send(at(107)));
    assert!(other.check_send(at(108)));
    let (text, n) = close(other).unwrap();
    assert_eq!(n, 1);
    assert!(text.starts_with("Tag=blue,"));
    let (text, n) = close(log).unwrap();
    assert_eq!((text.as_str(), n), ("", 0));
    let failed = open("red", 7)
        .new_with_tag("blue", |_| Err::<Scribe, Failure>(Failure("no".to_string())));
    assert_eq!(failed.err().unwrap().0, "no");
}

#[test]
fn a_log_that_goes_sends_what_it_holds() {
    let mut log = open("t", 1_000_000);
    assert_eq!(log.flush_at(at(100), civil(0), waited(AT_ONCE)), Flushed::Nothing);
    log.record(7).unwrap();
    assert_eq!(log.flush_at(at(100), civil(0), waited(AT_ONCE)), Flushed::NoTime);
    assert_eq!(log.flush_at(at(99), civil(0), waited(AT_ONCE)), Flushed::NoTime);
    assert_eq!(log.flush_at(at(101), civil(0), waited(5)), Flushed::Late);
    assert_eq!(log.flush_at(at(101), civil(0), waited(4)), Flushed::Taken);
    assert_eq!(log.flush_at(at(102), civil(0), waited(4)), Flushed::Nothing);
    let (text, n) = close(log).unwrap();
    assert_eq!(n, 1);
    let lines = lines(&text);
    assert_eq!(lines[0].hist.count_at(7), 1);
    assert_eq!(lines[0].duration, std::time::Duration::from_millis(1));
}

#[test]
fn a_log_with_values_and_no_time_cannot_be_closed() {
    let mut log = open("t", 1);
    log.record(5).unwrap();
    log.reset_at(Instant::at(Duration::from_secs(1 << 40)));
    log.record(6).unwrap();
    assert!(matches!(log.close(Closing::Flushing, waited(AT_ONCE)), Closing::NoTime));
    assert!(matches!(log.close(Closing::NoTime, waited(AT_ONCE)), Closing::NoTime));
    assert!(matches!(log.close(Closing::Done, waited(AT_ONCE)), Closing::Done));
}

#[test]
fn closing_gives_up_on_a_channel_that_stays_full() {
    let mut log = open("t", 1);
    for i in 0..8 {
        assert_eq!(log.try_send_at(at(102 + i), civil(0)), Ok(()));
    }
    log.record(5).unwrap();
    let mut state = Closing::Flushing;
    for _ in 0..3 {
        state = log.close_at(state, at(120), civil(0), waited(4));
        assert!(matches!(state, Closing::Flushing));
    }
    state = log.close_at(state, at(121), civil(0), waited(5));
    assert!(matches!(state, Closing::Ending(_)));
    state = log.close_at(state, at(121), civil(0), waited(4));
    assert!(matches!(state, Closing::Ending(_)));
    state = log.close_at(state, at(121), civil(0), waited(5));
    assert!(matches!(state, Closing::Done));
}

#[test]
fn closing_goes_on_once_there_is_room() {
    let mut log = open("t", 1);
    let mut other = log.clone();
    for i in 0..7 {
        assert_eq!(log.try_send_at(at(102 + i), civil(0)), Ok(()));
    }
    other.reset_at(at(100));
    other.record(1).unwrap();
    let state = other.close_at(Closing::Flushing, at(101), civil(0), waited(AT_ONCE));
    assert!(matches!(state, Closing::Done));
    log.record(2).unwrap();
    let state = log.close_at(Closing::Flushing, at(120), civil(0), waited(AT_ONCE));
    assert!(matches!(state, Closing::Flushing));
    let mut scribe = log.release().unwrap();
    assert!(matches!(scribe.next_step(), Step::Write(_)));
    let state = log.close_at(Closing::Flushing, at(121), civil(0), waited(AT_ONCE));
    assert!(matches!(state, Closing::Done));
    assert!(matches!(scribe.next_step(), Step::Write(_)));
    match log.close_at(Closing::Ending(scribe), at(122), civil(0), waited(AT_ONCE)) {
        Closing::Join(mut scribe) => {
            let (text, n) = run(&mut scribe);
            assert_eq!(n, 9);
            let lines = lines(&text);
            assert_eq!(lines[5].hist.count_at(1), 1);
            assert_eq!(lines[6].hist.count_at(2), 1);
            assert_eq!(lines[6].duration, std::time::Duration::from_millis(13));
        }
        other => panic!("unexpected state: {:?}", other),
    }
}

#[test]
fn the_last_of_several_logs_ends_the_writer_once() {
    let mut first = open("a", 1);
    let mut second = first.clone_with_tag("b");
    let mut third = second.clone_with_tag("c");
    second.reset_at(at(0));
    third.reset_at(at(0));
    first.reset_at(at(0));
    first.record(1).unwrap();
    third.record(3).unwrap();
    third.record(3).unwrap();
    assert!(third.send_at(at(102), civil(0)));
    second.record(2).unwrap();
    third.reset_at(at(0));
    third.record(4).unwrap();
    assert!(close(third).is_none());
    assert!(close(first).is_none());
    let (text, n) = close(second).unwrap();
    assert_eq!(n, 4);
    let lines = lines(&text);
    let counts: Vec<(&str, u64)> =
        lines.iter().map(|l| (l.tag.as_deref().unwrap(), l.hist.len())).collect();
    assert_eq!(counts, [("c", 2), ("c", 1), ("a", 1), ("b", 1)]);
}

#[test]
fn telling_the_writer_to_end_has_a_deadline() {
    let mut log = open("t", 1);
    assert_eq!(log.terminate(Duration::from_millis(5)), Termination::GiveUp);
    assert_eq!(log.terminate(Duration::new(0, 4_999_999)), Termination::Accepted);
    let mut scribe = log.release().unwrap();
    assert_eq!(run(&mut scribe), (String::new(), 0));
}

#[test]
fn times_before_the_epoch_cannot_be_written() {
    let mut log = open("t", 1);
    log.send_at(at(103), Timestamp { nanos: 2_999_999 });
    log.send_at(at(106), Timestamp { nanos: 3_000_000 });
    let mut scribe = log.release().unwrap();
    assert!(matches!(scribe.next_step(), Step::BadTime));
    assert_eq!(scribe.received(), 0);
    match scribe.next_step() {
        Step::Write(line) => assert!(line.starts_with("Tag=t,0.000,0.003,0.000,")),
        other => panic!("unexpected step: {:?}", other),
    }
    assert_eq!(scribe.received(), 1);
    drop(log);
    assert!(matches!(scribe.next_step(), Step::Yield));
    assert_eq!(scribe.received(), 1);
}

#[test]
fn the_readme_example() {
    let mut server1 = HistLog::new(
        "/tmp/path/to/logs",
        "server-latency",
        "xeon-e7-8891-v2",
        Duration::from_secs(1),
        Clock::start(),
        |scribe| Ok::<Scribe, ()>(scribe),
    )
    .unwrap();
    let mut server2 = server1.clone_with_tag("xeon-e5-2670");
    for i in 0..1000u64 {
        server1.record(i).unwrap();
        server2.record(i * 2).unwrap();
    }
    assert_eq!(server1.path(), server2.path());
    assert!(server1.path().starts_with("/tmp/path/to/logs/server-latency."));
    assert!(close(server1).is_none());
    let (text, n) = close(server2).unwrap();
    assert_eq!(n, 2);
    assert!(text.starts_with("Tag=xeon-e7-8891-v2,"));
    assert_eq!(lines(&text)[1].tag.as_deref(), Some("xeon-e5-2670"));
}

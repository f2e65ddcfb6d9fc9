//! The writer's side: what is written to the log file, message by message.

use crossbeam_channel::Receiver;
use hdrhistogram::serialization::interval_log;
use hdrhistogram::serialization::V2DeflateSerializer;
use vstd::prelude::*;

use crate::channel::{
    delivery_view, receiver_view, recv, Delivery, EntryView, Message, ReceiverView,
};
use crate::hist::{interval_line, is_line, loggable_tag, tag_field};
use crate::time::{max_nanos, SystemTimestamp, Timestamp, NANOS_PER_SEC};
use crate::SeriesName;

verus! {

/// What the writer does next.
#[derive(Debug)]
pub enum Step {
    /// Append this text to the log file; a failure to do so is ignored.
    Write(String),
    /// Give way to other threads and go on.
    Yield,
    /// End; this many entries were received.
    Stop(usize),
    /// Give up: the times of an entry cannot stand in a log.
    BadTime,
}

/// What a [`Step`] holds.
pub enum StepView {
    Write(Seq<char>),
    Yield,
    Stop(nat),
    BadTime,
}

impl View for Step {
    type V = StepView;

    open spec fn view(&self) -> StepView {
        match self {
            Step::Write(text) => StepView::Write(text@),
            Step::Yield => StepView::Yield,
            Step::Stop(n) => StepView::Stop(*n as nat),
            Step::BadTime => StepView::BadTime,
        }
    }
}

/// Whether the times of an entry can stand in a log: it does not start before the Unix epoch and
/// does not end before it starts.
pub open spec fn writable(e: EntryView) -> bool {
    &&& 0 <= e.start <= max_nanos()
    &&& 0 <= e.end - e.start <= max_nanos()
}

/// The line of the log that an entry gets.
pub open spec fn line_of(e: EntryView) -> Seq<char> {
    interval_line(
        e.hist.lowest,
        e.hist.highest,
        e.hist.sig_fig,
        e.hist.peak,
        e.hist.recorded,
        e.start as nat,
        (e.end - e.start) as nat,
        e.tag,
    )
}

/// What the writer does on a delivery, after `n` entries.
pub open spec fn step_on(n: nat, d: Delivery) -> StepView {
    match d {
        Delivery::Entry(e) => if writable(e) {
            StepView::Write(line_of(e))
        } else {
            StepView::BadTime
        },
        Delivery::End => StepView::Stop(n),
        Delivery::Closed => StepView::Yield,
    }
}

/// How many entries were written after a delivery, if `n` were before it.
pub open spec fn count_after(n: nat, d: Delivery) -> nat {
    if step_on(n, d) is Write {
        n + 1
    } else {
        n
    }
}

/// How many entries are to be written for `deliveries`.
pub open spec fn count_of(deliveries: Seq<Delivery>) -> nat
    decreases deliveries.len(),
{
    if deliveries.len() == 0 {
        0
    } else {
        count_after(count_of(deliveries.drop_last()), deliveries.last())
    }
}

/// The text that a step appends to the log file.
pub open spec fn written(step: StepView) -> Seq<char> {
    match step {
        StepView::Write(text) => text,
        _ => Seq::empty(),
    }
}

/// The text that is to follow the header of the log file after `deliveries`.
pub open spec fn body_of(deliveries: Seq<Delivery>) -> Seq<char>
    decreases deliveries.len(),
{
    if deliveries.len() == 0 {
        Seq::empty()
    } else {
        body_of(deliveries.drop_last()) + written(step_on(0, deliveries.last()))
    }
}

/// The seconds, to three decimals, that `IntervalLogWriterBuilder` prints for a time that
/// `SystemTime::duration_since` tells is `nanos` nanoseconds from the Unix epoch.
pub uninterp spec fn seconds_text(nanos: int) -> Seq<char>;

/// Whether `text` is a number with three decimals.
pub open spec fn is_seconds_text(text: Seq<char>) -> bool {
    &&& text.len() >= 5
    &&& text[text.len() - 4] == '.'
    &&& forall|i: int|
        0 <= i < text.len() && i != text.len() - 4 ==> '0' <= #[trigger] text[i] <= '9' || (i == 0
            && text[i] == '-')
}

/// The time from which the entries of a log tell their times, in seconds after the Unix epoch.
pub const BASE_TIME_SECS: u64 = 0;

/// How [`BASE_TIME_SECS`] is printed.
pub const BASE_TIME_TEXT: &'static str = "0.000";

/// The two lines that open a log file which was started at the time that `start` tells, and whose
/// entries tell their times from the time on that `base` tells.
pub open spec fn header_lines(start: Seq<char>, base: Seq<char>) -> Seq<char> {
    "#[StartTime: "@ + start + " (seconds since epoch)]\n#[BaseTime: "@ + base
        + " (seconds since epoch)]\n"@
}

/// Whether `text` is the header of a log file with a base time that `base` tells.
pub open spec fn is_header(text: Seq<char>, base: Seq<char>) -> bool {
    exists|start: Seq<char>|
        is_seconds_text(start) && text == #[trigger] header_lines(start, base)
}

/// The header of an interval log, written into memory with `hdrhistogram`'s
/// `IntervalLogWriterBuilder::begin_log_with`, the base time being `base` seconds after the Unix
/// epoch.
///
/// Claimed of it: the text is the two lines of a header; the start time in it is a number with
/// three decimals, and both times depend on nothing but how far they are from the epoch. The epoch
/// itself is printed as a zero with three decimals. The bound on `base` keeps it among the times
/// that every system can hold.
#[verifier::external_body]
fn begin_log(start: &SystemTimestamp, base: u64) -> (text: String)
    requires
        base <= u32::MAX,
    ensures
        text@ == header_lines(seconds_text(start@), seconds_text(base * NANOS_PER_SEC)),
        is_header(text@, seconds_text(base * NANOS_PER_SEC)),
        base == 0 ==> text@ == header_lines(seconds_text(start@), "0.000"@),
{
    let mut text: Vec<u8> = Vec::new();
    interval_log::IntervalLogWriterBuilder::new()
        .with_base_time(std::time::UNIX_EPOCH + std::time::Duration::from_secs(base))
        .with_start_time(start.time)
        .begin_log_with(&mut text, &mut V2DeflateSerializer::new())
        .expect("writing to memory");
    String::from_utf8(text).expect("log headers are text")
}

/// The header of a log that was started at `start_time`.
pub fn log_header(start_time: &SystemTimestamp) -> (text: String)
    ensures
        text@ == header_lines(seconds_text(start_time@), BASE_TIME_TEXT@),
        is_seconds_text(seconds_text(start_time@)),
{
    let text = begin_log(start_time, BASE_TIME_SECS);
    proof {
        let base = seconds_text(BASE_TIME_SECS * NANOS_PER_SEC);
        let start = choose|start: Seq<char>|
            is_seconds_text(start) && text@ == #[trigger] header_lines(start, base);
        lemma_header_tells_start(start, seconds_text(start_time@), base);
    }
    text
}

proof fn lemma_header_tells_start(a: Seq<char>, b: Seq<char>, base: Seq<char>)
    requires
        header_lines(a, base) == header_lines(b, base),
    ensures
        a == b,
{
    let head: int = "#[StartTime: "@.len() as int;
    let tail = " (seconds since epoch)]\n#[BaseTime: "@.len() + base.len()
        + " (seconds since epoch)]\n"@.len();
    assert(header_lines(a, base).len() == head + a.len() + tail);
    assert(header_lines(b, base).len() == head + b.len() + tail);
    assert(a =~= header_lines(a, base).subrange(head, head + a.len()));
    assert(b =~= header_lines(b, base).subrange(head, head + b.len()));
}

/// What the writer does on a received message, and how many entries it has then written, if it had
/// written `n_rcvd`.
pub fn step(n_rcvd: usize, received: Option<Message>) -> (r: (usize, Step))
    requires
        n_rcvd < usize::MAX,
    ensures
        r.0 == count_after(n_rcvd as nat, delivery_view(received)),
        r.1@ == step_on(n_rcvd as nat, delivery_view(received)),
        r.1 matches Step::Write(line) ==> {
            let e = delivery_view(received)->Entry_0;
            &&& tag_field(e.tag).is_prefix_of(line@) <==> loggable_tag(e.tag)
            &&& e.hist.recorded.len() <= i64::MAX ==> is_line(line@)
        },
{
    match received {
        Some(Some(entry)) => {
            let epoch = Timestamp { nanos: 0 };
            match (entry.start.duration_since(epoch), entry.end.duration_since(entry.start)) {
                (Some(start), Some(duration)) => {
                    let line = entry.hist.interval_line(
                        (start.as_secs(), start.subsec_nanos()),
                        (duration.as_secs(), duration.subsec_nanos()),
                        entry.tag,
                    );
                    (n_rcvd + 1, Step::Write(line))
                },
                _ => (n_rcvd, Step::BadTime),
            }
        },
        Some(None) => (n_rcvd, Step::Stop(n_rcvd)),
        None => (n_rcvd, Step::Yield),
    }
}

/// The writer's state.
#[derive(Debug)]
pub struct Scribe {
    series: SeriesName,
    filename: String,
    start_time: SystemTimestamp,
    rx: Receiver<Message>,
    n_rcvd: usize,
}

/// What a [`Scribe`] holds.
#[verifier::ext_equal]
pub struct ScribeView {
    pub series: Seq<char>,
    pub filename: Seq<char>,
    /// Nanoseconds from the Unix epoch.
    pub start_time: int,
    pub receiver: ReceiverView,
    /// How many entries were received.
    pub received: nat,
}

impl View for Scribe {
    type V = ScribeView;

    closed spec fn view(&self) -> ScribeView {
        ScribeView {
            series: self.series@,
            filename: self.filename@,
            start_time: self.start_time@,
            receiver: receiver_view(self.rx),
            received: self.n_rcvd as nat,
        }
    }
}

impl Scribe {
    /// The writer of a log file of `series` that was started at `start_time`.
    pub(crate) fn new(
        series: SeriesName,
        rx: Receiver<Message>,
        filename: String,
        start_time: SystemTimestamp,
    ) -> (scribe: Scribe)
        ensures
            scribe@ == (ScribeView {
                series: series@,
                filename: filename@,
                start_time: start_time@,
                receiver: receiver_view(rx),
                received: 0,
            }),
    {
        Scribe { series, filename, start_time, rx, n_rcvd: 0 }
    }

    /// The path of the log file.
    pub fn path(&self) -> (path: &str)
        ensures
            path@ == self@.filename,
    {
        self.filename.as_str()
    }

    /// The name for the thread that the writer runs in.
    pub fn thread_name(&self) -> (name: String)
        ensures
            name@ == "histlog:"@ + self@.series,
    {
        let mut name = "histlog:".to_owned();
        name.append(self.series);
        name
    }

    /// The text that the log file starts with; see [`log_header`].
    pub fn header(&self) -> (text: String)
        ensures
            text@ == header_lines(seconds_text(self@.start_time), BASE_TIME_TEXT@),
            is_seconds_text(seconds_text(self@.start_time)),
    {
        log_header(&self.start_time)
    }

    /// How many entries were received.
    pub fn received(&self) -> (n: usize)
        ensures
            n == self@.received,
    {
        self.n_rcvd
    }

    /// Waits for a message and says what to do on it.
    pub fn next_step(&mut self) -> (r: Step)
        requires
            old(self)@.received < usize::MAX,
        ensures
            exists|d: Delivery|
                {
                    &&& final(self)@ == (ScribeView {
                        receiver: ReceiverView {
                            deliveries: #[trigger] old(self)@.receiver.deliveries.push(d),
                            ..old(self)@.receiver
                        },
                        received: count_after(old(self)@.received, d),
                        ..old(self)@
                    })
                    &&& r@ == step_on(old(self)@.received, d)
                    &&& r matches Step::Write(line) ==> {
                        &&& tag_field(d->Entry_0.tag).is_prefix_of(line@) <==> loggable_tag(
                            d->Entry_0.tag,
                        )
                        &&& d->Entry_0.hist.recorded.len() <= i64::MAX ==> is_line(line@)
                    }
                },
            body_of(final(self)@.receiver.deliveries) == body_of(old(self)@.receiver.deliveries)
                + written(r@),
            old(self)@.received == count_of(old(self)@.receiver.deliveries)
                ==> final(self)@.received == count_of(final(self)@.receiver.deliveries),
    {
        let received = recv(&mut self.rx);
        let ghost d = delivery_view(received);
        let (n_rcvd, r): (usize, Step) = step(self.n_rcvd, received);
        self.n_rcvd = n_rcvd;
        assert(self@.receiver.deliveries == old(self)@.receiver.deliveries.push(d));
        assert(self@.receiver.deliveries.drop_last() =~= old(self)@.receiver.deliveries);
        r
    }
}

} // verus!

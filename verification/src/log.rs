//! The measuring side: recording values and handing them to the writer.
//!
//! What a log does is told of its own end of the channel and of its own handle. That it does
//! nothing else, through an end or a handle made on the side, is told by the clause
//! `opens_invariants none`: a function that bears it calls only functions that bear it too.
//! [`share`] and [`another_sender`](crate::channel::another_sender), which make another handle and
//! another end, do not, and so cannot be reached from it, nor can the copying of a log or of a
//! histogram. So the messages that a log puts into the channel are those in its own history, and
//! the handle that it lets go of is the only one that it holds.

use crossbeam_channel::Sender;
use std::sync::Arc;
use vstd::prelude::*;
use vstd::std_specs::convert::FromSpec;

use crate::channel::{
    another_sender, bounded, outcome_of, send_message, sender_view, sent_outcome, try_send_message,
    Delivery, Entry, EntryView, Message, Outcome, Rejected, SenderView,
};
use crate::error::{Error, IoError, IoErrorKind, TrySendError};
use crate::filename::{get_filename, is_filename};
use crate::hist::{fresh, Hist, HistView, MAX_SIG_FIG};
use crate::path::{parent_dir, parent_of};
use crate::scribe::{Scribe, ScribeView};
use crate::time::{
    civil_clock_may_show, elapsed, lemma_instants_are_in_range, max_nanos, Clock, Duration, Instant,
    SystemTimestamp, Timestamp,
};
use crate::{SeriesName, Tag, C, CHANNEL_SIZE, DEFAULT_SIG_FIG, DROP_DEADLINE_MILLIS};

verus! {

/// What the error says when the path of a log names no file.
pub const NO_FILE_NAME: &'static str =
    "`filename.pop()` returned `false`! expected it to have a file name, return `true`.";

/// A log of measurements that hands its histograms to a writer.
///
/// `H` is the handle of the thread that the writer runs in; all logs with one writer share it.
#[derive(Debug)]
pub struct HistLog<H> {
    filename: String,
    series: SeriesName,
    tag: Tag,
    freq: Duration,
    clock: Clock,
    last_sent: Instant,
    tx: Sender<Message>,
    hist: Hist,
    thread: Option<Arc<H>>,
}

/// What a [`HistLog`] holds.
#[verifier::ext_equal]
pub struct LogView<H> {
    pub filename: Seq<char>,
    pub series: Seq<char>,
    pub tag: Seq<char>,
    /// How long an interval is, in nanoseconds.
    pub freq: nat,
    pub clock: Clock,
    /// When the present interval began, in nanoseconds on the clock.
    pub last_sent: nat,
    pub sender: SenderView,
    pub hist: HistView,
    pub thread: Option<H>,
}

impl<H> View for HistLog<H> {
    type V = LogView<H>;

    closed spec fn view(&self) -> LogView<H> {
        LogView {
            filename: self.filename@,
            series: self.series@,
            tag: self.tag@,
            freq: self.freq@,
            clock: self.clock,
            last_sent: self.last_sent@,
            sender: sender_view(self.tx),
            hist: self.hist@,
            thread: match self.thread {
                Some(handle) => Some(*handle),
                None => None,
            },
        }
    }
}

impl<H> LogView<H> {
    /// Whether more than an interval has gone by at `loop_time`.
    pub open spec fn expired(self, loop_time: nat) -> bool {
        elapsed(loop_time, self.last_sent) > self.freq
    }

    /// The entry for the interval that ends at `loop_time`, when it is `now` by the civil clock.
    pub open spec fn entry(self, loop_time: nat, now: int) -> EntryView {
        EntryView {
            tag: self.tag,
            start: now - elapsed(loop_time, self.last_sent),
            end: now,
            hist: self.hist,
        }
    }

    /// The log after its entry was offered to the writer without waiting, before anything is made
    /// of the outcome: its histogram is a new one.
    pub open spec fn offered(self, loop_time: nat, now: int, outcome: Outcome) -> LogView<H> {
        LogView {
            sender: self.sender.offered(Some(self.entry(loop_time, now)), outcome),
            hist: self.hist.emptied(),
            ..self
        }
    }

    /// The log after its entry was sent, waiting while the channel was full: the next interval
    /// begins at `loop_time`.
    pub open spec fn sent(self, loop_time: nat, now: int, outcome: Outcome) -> LogView<H> {
        LogView {
            last_sent: loop_time,
            sender: self.sender.waited(Some(self.entry(loop_time, now)), outcome),
            ..self.offered(loop_time, now, outcome)
        }
    }

    /// The log after an attempt to send its entry without waiting.
    ///
    /// If the channel was full the interval goes on with all that was recorded; if the writer is
    /// gone the interval goes on without it.
    pub open spec fn try_sent(self, loop_time: nat, now: int, outcome: Outcome) -> LogView<H> {
        match outcome {
            Outcome::Taken => LogView {
                last_sent: loop_time,
                ..self.offered(loop_time, now, outcome)
            },
            Outcome::Full => LogView {
                hist: self.hist,
                ..self.offered(loop_time, now, outcome)
            },
            Outcome::Disconnected => self.offered(loop_time, now, outcome),
        }
    }

    /// The log with a tag and an interval of its own, sharing file, series and writer, that began
    /// its present interval at `last_sent`.
    pub open spec fn copy(self, tag: Seq<char>, freq: nat, last_sent: nat) -> LogView<H> {
        LogView {
            tag,
            freq,
            last_sent,
            sender: self.sender.another(),
            ..self
        }
    }
}

/// Shares a handle with `std::sync::Arc`'s `Clone`.
///
/// Claimed of it: the result points to the same value.
#[verifier::external_body]
fn share<H>(handle: &Arc<H>) -> (other: Arc<H>)
    ensures
        other == *handle,
    opens_invariants any
{
    Arc::clone(handle)
}

/// Takes a value out of a shared handle with `std::sync::Arc::try_unwrap`.
///
/// Claimed of it: it returns the value, or the handle as it was if others share the value. Which
/// of the two depends on the other handles.
#[verifier::external_body]
pub(crate) fn take_if_sole<H>(handle: Arc<H>) -> (r: Result<H, Arc<H>>)
    ensures
        r matches Ok(value) ==> value == *handle,
        r matches Err(back) ==> back == handle,
    opens_invariants none
{
    Arc::try_unwrap(handle)
}

/// Whether `sole` says of a handle to `value` whether [`take_if_sole`] gives the value out.
pub closed spec fn may_be_sole<H>(value: H, sole: bool) -> bool {
    exists|handle: Arc<H>, r: Result<H, Arc<H>>|
        *handle == value && #[trigger] call_ensures(take_if_sole::<H>, (handle,), r) && sole == (r
            is Ok)
}

/// Whether a log is found to be the last one is what [`take_if_sole`] says of the handle that it
/// held, and nothing else: the value is given out, or the handle comes back.
pub(crate) proof fn law_sole_is_what_the_handle_says<H>(value: H, sole: bool)
    ensures
        may_be_sole(value, sole) <==> exists|handle: Arc<H>, r: Result<H, Arc<H>>|
            {
                &&& *handle == value
                &&& #[trigger] call_ensures(take_if_sole::<H>, (handle,), r)
                &&& sole ==> r == Ok::<H, Arc<H>>(value)
                &&& !sole ==> r == Err::<H, Arc<H>>(handle)
            },
{
    if may_be_sole(value, sole) {
        let (handle, r) = choose|handle: Arc<H>, r: Result<H, Arc<H>>|
            *handle == value && #[trigger] call_ensures(take_if_sole::<H>, (handle,), r) && sole
                == (r is Ok);
        assert(call_ensures(take_if_sole::<H>, (handle,), r));
    }
}

/// What became of the values that a log held when it was about to go.
#[derive(Clone, Copy, Debug, PartialEq, Eq, Structural)]
pub enum Flushed {
    /// There were none.
    Nothing,
    /// The writer took them.
    Taken,
    /// The channel was full: try again.
    Retry,
    /// The writer is gone.
    Gone,
    /// This was tried for long enough.
    Late,
    /// No time has gone by in their interval, so that no entry can be made of them.
    NoTime,
}

/// What became of an attempt to make the writer end.
#[derive(Clone, Copy, Debug, PartialEq, Eq, Structural)]
pub enum Termination {
    /// The writer was told to end and can be waited for.
    Accepted,
    /// The channel was full: try again.
    Retry,
    /// There is no use in trying on.
    GiveUp,
}

/// How far a log that goes has come.
#[derive(Debug)]
pub enum Closing<H> {
    /// What it holds has to be sent.
    Flushing,
    /// It was the last one that shared the writer, which has to be told to end.
    Ending(H),
    /// The writer was told to end and has to be waited for.
    Join(H),
    /// There is nothing left to do.
    Done,
    /// It holds values, but no time has gone by in their interval.
    NoTime,
}

impl<H> Closing<H> {
    /// Whether there are steps left to take.
    pub open spec fn goes_on(self) -> bool {
        self is Flushing || self is Ending
    }
}

/// For how many nanoseconds a log that goes tries to send, while the channel is full.
pub open spec fn drop_deadline() -> nat {
    (DROP_DEADLINE_MILLIS * 1_000_000) as nat
}

impl<H> LogView<H> {
    /// The log after an attempt to send what it holds as the last thing that it does with it, and
    /// what became of it; the attempts began `waited` ago. The outcome is what the channel makes of
    /// the entry if one is offered.
    pub open spec fn flushed(
        self,
        loop_time: nat,
        now: int,
        waited: nat,
        outcome: Outcome,
    ) -> (LogView<H>, Flushed) {
        if self.hist.recorded.len() == 0 {
            (self, Flushed::Nothing)
        } else if elapsed(loop_time, self.last_sent) == 0 {
            (self, Flushed::NoTime)
        } else if waited >= drop_deadline() {
            (self, Flushed::Late)
        } else {
            (
                self.try_sent(loop_time, now, outcome),
                match outcome {
                    Outcome::Taken => Flushed::Taken,
                    Outcome::Full => Flushed::Retry,
                    Outcome::Disconnected => Flushed::Gone,
                },
            )
        }
    }

    /// The log without its handle, and the handle if no other log shares it.
    pub open spec fn released(self, sole: bool) -> (LogView<H>, Option<H>) {
        (
            LogView { thread: None, ..self },
            if sole {
                self.thread
            } else {
                None
            },
        )
    }

    /// The log after an attempt to tell the writer to end, and what became of it; the attempts
    /// began `waited` ago.
    pub open spec fn terminated(self, waited: nat, outcome: Outcome) -> (LogView<H>, Termination) {
        if waited >= drop_deadline() {
            (self, Termination::GiveUp)
        } else {
            (
                LogView { sender: self.sender.offered(None, outcome), ..self },
                match outcome {
                    Outcome::Taken => Termination::Accepted,
                    Outcome::Full => Termination::Retry,
                    Outcome::Disconnected => Termination::GiveUp,
                },
            )
        }
    }

    /// The log after a step of closing it, and how far it has come.
    ///
    /// It first sends what it holds, then lets go of the writer's handle, and if no other log
    /// shares that, tells the writer to end.
    pub open spec fn closed(
        self,
        state: Closing<H>,
        loop_time: nat,
        now: int,
        waited: nat,
        outcome: Outcome,
        sole: bool,
    ) -> (LogView<H>, Closing<H>) {
        match state {
            Closing::Flushing => {
                let (log, r) = self.flushed(loop_time, now, waited, outcome);
                match r {
                    Flushed::Retry => (log, Closing::Flushing),
                    Flushed::NoTime => (log, Closing::NoTime),
                    _ => {
                        let (log, handle) = log.released(sole);
                        (
                            log,
                            match handle {
                                Some(h) => Closing::Ending(h),
                                None => Closing::Done,
                            },
                        )
                    },
                }
            },
            Closing::Ending(h) => {
                let (log, r) = self.terminated(waited, outcome);
                (
                    log,
                    match r {
                        Termination::Accepted => Closing::Join(h),
                        Termination::Retry => Closing::Ending(h),
                        Termination::GiveUp => Closing::Done,
                    },
                )
            },
            _ => (self, state),
        }
    }
}

/// What an attempt to send at once has come to, from the error it gave.
pub open spec fn outcome_of_try(r: Result<(), TrySendError>) -> Outcome {
    match r {
        Ok(_) => Outcome::Taken,
        Err(TrySendError::Full) => Outcome::Full,
        Err(TrySendError::Disconnected) => Outcome::Disconnected,
    }
}

/// What an attempt to send without waiting returns.
pub open spec fn try_result(outcome: Outcome) -> Result<(), Error> {
    match outcome {
        Outcome::Taken => Ok(()),
        Outcome::Full => Err(Error::TrySend(TrySendError::Full)),
        Outcome::Disconnected => Err(Error::TrySend(TrySendError::Disconnected)),
    }
}

impl<H> HistLog<H> {
    /// Whether more than an interval has gone by at `loop_time`.
    pub fn expired(&self, loop_time: Instant) -> (r: bool)
        ensures
            r == self@.expired(loop_time@),
            r == (loop_time@ - self@.last_sent > self@.freq),
            elapsed(loop_time@, self@.last_sent) <= max_nanos(),
        opens_invariants none
    {
        loop_time.saturating_duration_since(self.last_sent).as_nanos() > self.freq.as_nanos()
    }

    /// Makes the entry for the interval that ends at `loop_time`, when it is `end` by the civil
    /// clock, and puts a new histogram in the place of the one that goes with it.
    fn take_entry(&mut self, loop_time: Instant, end: Timestamp) -> (entry: Entry)
        requires
            end.nanos - elapsed(loop_time@, old(self)@.last_sent) >= i128::MIN,
        ensures
            entry@ == old(self)@.entry(loop_time@, end.nanos as int),
            final(self)@ == (LogView { hist: old(self)@.hist.emptied(), ..old(self)@ }),
            final(self).tx == old(self).tx,
        opens_invariants none
    {
        let start = end.minus(loop_time.saturating_duration_since(self.last_sent));
        let mut next = self.hist.new_from();
        std::mem::swap(&mut self.hist, &mut next);
        Entry { tag: self.tag, start, end, hist: next }
    }

    /// Sends the entry for the interval that ends at `loop_time`, when it is `now` by the civil
    /// clock, and waits while the channel is full. Says whether the writer took it.
    pub fn send_at(&mut self, loop_time: Instant, now: Timestamp) -> (taken: bool)
        requires
            elapsed(loop_time@, old(self)@.last_sent) > 0,
            now.nanos - elapsed(loop_time@, old(self)@.last_sent) >= i128::MIN,
        ensures
            final(self)@ == old(self)@.sent(loop_time@, now.nanos as int, sent_outcome(taken)),
        opens_invariants none
    {
        let entry = self.take_entry(loop_time, now);
        let taken = send_message(&mut self.tx, Some(entry));
        self.last_sent = loop_time;
        taken
    }

    /// Completes an attempt to send without waiting that had `outcome`.
    ///
    /// If the entry was taken the next interval begins at `loop_time`. If the channel was full the
    /// histogram that comes back takes its place again. If the writer is gone nothing is done.
    pub fn settle(&mut self, loop_time: Instant, outcome: Result<(), Rejected>) -> (r: Result<
        (),
        TrySendError,
    >)
        ensures
            match outcome {
                Ok(_) => r is Ok && final(self)@ == (LogView {
                    last_sent: loop_time@,
                    ..old(self)@
                }),
                Err(Rejected::Full(Some(entry))) => r == Err::<(), TrySendError>(TrySendError::Full)
                    && final(self)@ == (LogView { hist: entry@.hist, ..old(self)@ }),
                Err(Rejected::Full(None)) => r == Err::<(), TrySendError>(TrySendError::Full)
                    && final(self)@ == old(self)@,
                Err(Rejected::Disconnected(_)) => r == Err::<(), TrySendError>(
                    TrySendError::Disconnected,
                ) && final(self)@ == old(self)@,
            },
        opens_invariants none
    {
        match outcome {
            Ok(()) => {
                self.last_sent = loop_time;
                Ok(())
            },
            Err(Rejected::Full(Some(entry))) => {
                let mut hist = entry.hist;
                std::mem::swap(&mut self.hist, &mut hist);
                Err(TrySendError::Full)
            },
            Err(Rejected::Disconnected(_)) => Err(TrySendError::Disconnected),
            Err(Rejected::Full(None)) => Err(TrySendError::Full),
        }
    }

    /// Sends the entry for the interval that ends at `loop_time`, when it is `now` by the civil
    /// clock, if the writer takes it at once.
    pub fn try_send_at(&mut self, loop_time: Instant, now: Timestamp) -> (r: Result<
        (),
        TrySendError,
    >)
        requires
            elapsed(loop_time@, old(self)@.last_sent) > 0,
            now.nanos - elapsed(loop_time@, old(self)@.last_sent) >= i128::MIN,
        ensures
            final(self)@ == old(self)@.try_sent(loop_time@, now.nanos as int, outcome_of_try(r)),
        opens_invariants none
    {
        let entry = self.take_entry(loop_time, now);
        let outcome = try_send_message(&mut self.tx, Some(entry));
        self.settle(loop_time, outcome)
    }

    /// Sends the entry for the interval that ends at `loop_time`, and waits while the channel is
    /// full.
    ///
    /// If the writer is gone, this fails silently.
    pub fn send(&mut self, loop_time: Instant)
        requires
            elapsed(loop_time@, old(self)@.last_sent) > 0,
        ensures
            exists|now: int, taken: bool|
                civil_clock_may_show(now) && final(self)@ == #[trigger] old(self)@.sent(
                    loop_time@,
                    now,
                    sent_outcome(taken),
                ),
        opens_invariants none
    {
        let now = Timestamp::now();
        proof {
            lemma_instants_are_in_range(loop_time);
        }
        let taken = self.send_at(loop_time, now);
        assert(self@ == old(self)@.sent(loop_time@, now.nanos as int, sent_outcome(taken)));
    }

    /// Sends the entry for the interval that ends at `loop_time`, if the writer takes it at once.
    ///
    /// If the channel is full, the log holds what it held and its interval goes on.
    pub fn try_send(&mut self, loop_time: Instant) -> (r: Result<(), Error>)
        requires
            elapsed(loop_time@, old(self)@.last_sent) > 0,
        ensures
            exists|now: int, outcome: Outcome|
                {
                    &&& civil_clock_may_show(now)
                    &&& final(self)@ == #[trigger] old(self)@.try_sent(loop_time@, now, outcome)
                    &&& r == try_result(outcome)
                },
        opens_invariants none
    {
        let now = Timestamp::now();
        proof {
            lemma_instants_are_in_range(loop_time);
        }
        let r = self.try_send_at(loop_time, now);
        assert(self@ == old(self)@.try_sent(loop_time@, now.nanos as int, outcome_of_try(r)));
        match r {
            Ok(()) => Ok(()),
            Err(e) => Err(Error::TrySend(e)),
        }
    }

    /// Sends the current histogram to the writer if the time elapsed since the last send is greater
    /// than the interval. Says whether it was.
    ///
    /// If the writer is gone, this fails silently.
    pub fn check_send(&mut self, loop_time: Instant) -> (expired: bool)
        ensures
            expired == old(self)@.expired(loop_time@),
            expired == (loop_time@ - old(self)@.last_sent > old(self)@.freq),
            !expired ==> final(self)@ == old(self)@,
            expired ==> exists|now: int, taken: bool|
                civil_clock_may_show(now) && final(self)@ == #[trigger] old(self)@.sent(
                    loop_time@,
                    now,
                    sent_outcome(taken),
                ),
        opens_invariants none
    {
        let expired = self.expired(loop_time);
        if expired {
            self.send(loop_time);
        }
        expired
    }

    /// Non-blocking variant of [`HistLog::check_send`], which also returns the error if the
    /// histogram could not be sent.
    pub fn check_try_send(&mut self, loop_time: Instant) -> (r: Result<bool, Error>)
        ensures
            !old(self)@.expired(loop_time@) ==> r == Ok::<bool, Error>(false) && final(self)@
                == old(self)@,
            r == Ok::<bool, Error>(false) <==> loop_time@ - old(self)@.last_sent <= old(
                self,
            )@.freq,
            old(self)@.expired(loop_time@) ==> exists|now: int, outcome: Outcome|
                {
                    &&& civil_clock_may_show(now)
                    &&& final(self)@ == #[trigger] old(self)@.try_sent(loop_time@, now, outcome)
                    &&& match try_result(outcome) {
                        Ok(_) => r == Ok::<bool, Error>(true),
                        Err(e) => r == Err::<bool, Error>(e),
                    }
                },
        opens_invariants none
    {
        let expired = self.expired(loop_time);
        if expired {
            match self.try_send(loop_time) {
                Ok(()) => {},
                Err(e) => {
                    return Err(e);
                },
            }
        }
        Ok(expired)
    }

    /// Records a single value to the histogram.
    ///
    /// The histogram grows as it needs to, so that every value is taken.
    pub fn record(&mut self, value: C) -> (r: Result<(), Error>)
        ensures
            r is Ok,
            final(self)@ == (LogView { hist: old(self)@.hist.with(value), ..old(self)@ }),
        opens_invariants none
    {
        match self.hist.record(value) {
            Ok(()) => Ok(()),
            Err(e) => Err(Error::HdrRecord(e)),
        }
    }

    /// Resets the state of the histogram and begins an interval at `now`.
    pub fn reset_at(&mut self, now: Instant)
        ensures
            final(self)@ == (LogView {
                hist: old(self)@.hist.cleared(),
                last_sent: now@,
                ..old(self)@
            }),
        opens_invariants none
    {
        self.hist.clear();
        self.last_sent = now;
    }

    /// Resets the state of the histogram and begins an interval now.
    ///
    /// One situation this might be used is if there was a pause in recording.
    pub fn reset(&mut self)
        ensures
            final(self)@ == (LogView {
                hist: old(self)@.hist.cleared(),
                last_sent: final(self)@.last_sent,
                ..old(self)@
            }),
            old(self)@.clock.may_show(final(self)@.last_sent),
        opens_invariants none
    {
        let now = self.clock.now();
        self.reset_at(now);
    }

    /// The path of the log file that the log is written to.
    pub fn path(&self) -> (path: &str)
        ensures
            path@ == self@.filename,
    {
        self.filename.as_str()
    }

    /// A log of the same file, series and writer with a tag and an interval of its own, that began
    /// its present interval at `last_sent`.
    fn copy_at(&self, tag: Tag, freq: Duration, last_sent: Instant) -> (log: HistLog<H>)
        ensures
            log@ == self@.copy(tag@, freq@, last_sent@),
    {
        let thread = match &self.thread {
            Some(handle) => Some(share(handle)),
            None => None,
        };
        HistLog {
            filename: self.filename.clone(),
            series: self.series,
            tag,
            freq,
            clock: self.clock,
            last_sent,
            tx: another_sender(&self.tx),
            hist: self.hist.clone(),
            thread,
        }
    }

    /// A log with a `tag` of its own that is written to the same file by the same writer. Its
    /// entries get their own lines in the file, identifiable by the tag.
    ///
    /// No effort is made to check whether `tag` is a duplicate of a previous tag, and using a
    /// duplicate may produce unexpected results.
    pub fn clone_with_tag(&self, tag: Tag) -> (log: HistLog<H>)
        requires
            self@.thread is Some,
        ensures
            log@ == self@.copy(tag@, self@.freq, log@.last_sent),
            self@.clock.may_show(log@.last_sent),
    {
        self.copy_at(tag, self.freq, self.clock.now())
    }

    /// A log as [`HistLog::clone_with_tag`] makes it, with an interval of its own too.
    pub fn clone_with_tag_and_freq(&self, tag: Tag, freq: Duration) -> (log: HistLog<H>)
        requires
            self@.thread is Some,
        ensures
            log@ == self@.copy(tag@, freq@, log@.last_sent),
            self@.clock.may_show(log@.last_sent),
    {
        let mut log = self.clone_with_tag(tag);
        log.freq = freq;
        log
    }

    /// Sends what is recorded, as the last thing that the log does with it, if the writer takes it
    /// at once, when it is `loop_time` on the clock and `now` by the civil clock. This is given up
    /// when it was tried for long enough: `waited` is the time since the first try.
    pub fn flush_at(&mut self, loop_time: Instant, now: Timestamp, waited: Duration) -> (r: Flushed)
        requires
            now.nanos - elapsed(loop_time@, old(self)@.last_sent) >= i128::MIN,
        ensures
            exists|outcome: Outcome|
                ((*final(self))@, r) == #[trigger] old(self)@.flushed(
                    loop_time@,
                    now.nanos as int,
                    waited@,
                    outcome,
                ),
        opens_invariants none
    {
        let ghost mut seen = Outcome::Full;
        let r = if self.hist.is_empty() {
            Flushed::Nothing
        } else if loop_time.saturating_duration_since(self.last_sent).as_nanos() == 0 {
            Flushed::NoTime
        } else if waited.as_nanos() >= Duration::from_millis(DROP_DEADLINE_MILLIS).as_nanos() {
            Flushed::Late
        } else {
            let outcome = self.try_send_at(loop_time, now);
            proof {
                seen = outcome_of_try(outcome);
            }
            match outcome {
                Ok(()) => Flushed::Taken,
                Err(TrySendError::Full) => Flushed::Retry,
                Err(TrySendError::Disconnected) => Flushed::Gone,
            }
        };
        assert((self@, r) == old(self)@.flushed(loop_time@, now.nanos as int, waited@, seen));
        r
    }

    /// Lets go of the writer's handle. Returns it if no other log shares it.
    pub fn release(&mut self) -> (handle: Option<H>)
        ensures
            ((*final(self))@, handle) == old(self)@.released(handle is Some),
            old(self)@.thread matches Some(h) ==> may_be_sole(h, handle is Some),
        opens_invariants none
    {
        let mut thread = None;
        std::mem::swap(&mut self.thread, &mut thread);
        match thread {
            Some(shared) => {
                let ghost given = shared;
                let taken = take_if_sole(shared);
                assert(call_ensures(take_if_sole::<H>, (given,), taken));
                match taken {
                    Ok(handle) => Some(handle),
                    Err(_) => None,
                }
            },
            None => None,
        }
    }

    /// Tells the writer to end, if the channel takes the message at once. This is given up when it
    /// was tried for long enough: `waited` is the time since the first try.
    pub fn terminate(&mut self, waited: Duration) -> (r: Termination)
        ensures
            exists|outcome: Outcome|
                ((*final(self))@, r) == #[trigger] old(self)@.terminated(waited@, outcome),
        opens_invariants none
    {
        if waited.as_nanos() >= Duration::from_millis(DROP_DEADLINE_MILLIS).as_nanos() {
            let r = Termination::GiveUp;
            assert((self@, r) == old(self)@.terminated(waited@, Outcome::Full));
            return r;
        }
        let outcome = try_send_message(&mut self.tx, None);
        let ghost seen = outcome_of(outcome);
        let r = match outcome {
            Ok(()) => Termination::Accepted,
            Err(Rejected::Full(_)) => Termination::Retry,
            Err(Rejected::Disconnected(_)) => Termination::GiveUp,
        };
        assert((self@, r) == old(self)@.terminated(waited@, seen));
        r
    }

    /// Takes a step of closing the log, when it is `loop_time` on the clock and `now` by the civil
    /// clock; closing began `waited` ago.
    pub fn close_at(
        &mut self,
        state: Closing<H>,
        loop_time: Instant,
        now: Timestamp,
        waited: Duration,
    ) -> (r: Closing<H>)
        requires
            now.nanos - elapsed(loop_time@, old(self)@.last_sent) >= i128::MIN,
        ensures
            exists|outcome: Outcome, sole: bool|
                {
                    &&& ((*final(self))@, r) == #[trigger] old(self)@.closed(
                        state,
                        loop_time@,
                        now.nanos as int,
                        waited@,
                        outcome,
                        sole,
                    )
                    &&& lets_go(old(self)@, (*final(self))@) ==> may_be_sole(
                        old(self)@.thread->0,
                        sole,
                    )
                },
        opens_invariants none
    {
        let ghost before = self@;
        let ghost given = state;
        match state {
            Closing::Flushing => {
                let flushed = self.flush_at(loop_time, now, waited);
                let ghost outcome = choose|outcome: Outcome|
                    (self@, flushed) == #[trigger] before.flushed(
                        loop_time@,
                        now.nanos as int,
                        waited@,
                        outcome,
                    );
                let r = match flushed {
                    Flushed::Retry => Closing::Flushing,
                    Flushed::NoTime => Closing::NoTime,
                    _ => match self.release() {
                        Some(handle) => Closing::Ending(handle),
                        None => Closing::Done,
                    },
                };
                assert((self@, r) == before.closed(
                    given,
                    loop_time@,
                    now.nanos as int,
                    waited@,
                    outcome,
                    r is Ending,
                ));
                r
            },
            Closing::Ending(handle) => {
                let ended = self.terminate(waited);
                let ghost outcome = choose|outcome: Outcome|
                    (self@, ended) == #[trigger] before.terminated(waited@, outcome);
                let r = match ended {
                    Termination::Accepted => Closing::Join(handle),
                    Termination::Retry => Closing::Ending(handle),
                    Termination::GiveUp => Closing::Done,
                };
                assert((self@, r) == before.closed(
                    given,
                    loop_time@,
                    now.nanos as int,
                    waited@,
                    outcome,
                    false,
                ));
                r
            },
            other => {
                assert((self@, other) == before.closed(
                    given,
                    loop_time@,
                    now.nanos as int,
                    waited@,
                    Outcome::Full,
                    false,
                ));
                other
            },
        }
    }

    /// Takes a step of closing the log; closing began `waited` ago.
    ///
    /// A log is closed by such steps from [`Closing::Flushing`] on. It is left to the caller to
    /// wait for the writer when the state is [`Closing::Join`].
    pub fn close(&mut self, state: Closing<H>, waited: Duration) -> (r: Closing<H>)
        ensures
            exists|loop_time: nat, now: int, outcome: Outcome, sole: bool|
                {
                    &&& ((*final(self))@, r) == #[trigger] old(self)@.closed(
                        state,
                        loop_time,
                        now,
                        waited@,
                        outcome,
                        sole,
                    )
                    &&& old(self)@.clock.may_show(loop_time)
                    &&& civil_clock_may_show(now)
                    &&& lets_go(old(self)@, (*final(self))@) ==> may_be_sole(
                        old(self)@.thread->0,
                        sole,
                    )
                },
        opens_invariants none
    {
        let loop_time = self.clock.now();
        let now = Timestamp::now();
        self.close_at(state, loop_time, now, waited)
    }
}

/// Whether a log let go of its writer's handle between `before` and `after`.
pub open spec fn lets_go<H>(before: LogView<H>, after: LogView<H>) -> bool {
    before.thread is Some && after.thread is None
}

/// Whether `e` says that the path of a log names no file.
pub open spec fn is_no_file_name(e: Error) -> bool {
    e matches Error::Io(e) && e.kind is Other && e.message@ == NO_FILE_NAME@
}

/// Whether `scribe` is the writer of a new log file of `series` below `save_dir`.
pub open spec fn begun(scribe: ScribeView, save_dir: Seq<char>, series: Seq<char>) -> bool {
    &&& is_filename(scribe.filename, save_dir, series)
    &&& scribe.series == series
    &&& civil_clock_may_show(scribe.start_time)
    &&& -max_nanos() <= scribe.start_time <= max_nanos()
    &&& scribe.receiver.deliveries == Seq::<Delivery>::empty()
    &&& scribe.received == 0
}

/// A new log whose writer is `scribe`, running under `handle`.
pub open spec fn opened<H>(
    scribe: ScribeView,
    handle: H,
    sig_fig: u8,
    tag: Seq<char>,
    freq: nat,
    clock: Clock,
    last_sent: nat,
) -> LogView<H> {
    LogView {
        filename: scribe.filename,
        series: scribe.series,
        tag,
        freq,
        clock,
        last_sent,
        sender: SenderView {
            channel: scribe.receiver.channel,
            capacity: CHANNEL_SIZE as nat,
            attempts: Seq::empty(),
            waits: 0,
        },
        hist: fresh(sig_fig),
        thread: Some(handle),
    }
}

/// Whether `r` is what opening a log may come to, `spawn` being asked to start its writer: a new
/// log if that gave a handle, and the error that it gave otherwise.
pub open spec fn is_opening<H, E, F: FnOnce(Scribe) -> Result<H, E>>(
    r: Result<HistLog<H>, E>,
    spawn: F,
    sig_fig: u8,
    save_dir: Seq<char>,
    series: Seq<char>,
    tag: Seq<char>,
    freq: nat,
    clock: Clock,
) -> bool {
    &&& r matches Ok(log) ==> exists|scribe: Scribe, handle: H|
        {
            &&& begun(scribe@, save_dir, series)
            &&& #[trigger] spawn.ensures((scribe,), Ok(handle))
            &&& log@ == opened(scribe@, handle, sig_fig, tag, freq, clock, log@.last_sent)
            &&& clock.may_show(log@.last_sent)
        }
    &&& r matches Err(e) ==> exists|scribe: Scribe|
        begun(scribe@, save_dir, series) && #[trigger] spawn.ensures((scribe,), Err(e))
}

impl<H> HistLog<H> {
    /// Creates a new log, specifying the number of significant digits.
    ///
    /// Time is measured by `clock`. `spawn` is given the writer of the log. It makes the log file
    /// and starts the writer, and returns a handle of it; if it fails, so does this.
    pub fn new_with_sig_fig<E, F: FnOnce(Scribe) -> Result<H, E>>(
        sig_fig: u8,
        save_dir: &str,
        series: SeriesName,
        tag: Tag,
        freq: Duration,
        clock: Clock,
        spawn: F,
    ) -> (r: Result<HistLog<H>, E>)
        requires
            sig_fig <= MAX_SIG_FIG,
            forall|scribe: Scribe| #[trigger] spawn.requires((scribe,)),
        ensures
            is_opening(r, spawn, sig_fig, save_dir@, series@, tag@, freq@, clock),
    {
        let filename = get_filename(save_dir, series);
        let (tx, rx) = bounded(CHANNEL_SIZE);
        let scribe = Scribe::new(series, rx, filename.clone(), SystemTimestamp::now());
        let ghost begun_scribe = scribe;
        let started = spawn(scribe);
        assert(spawn.ensures((begun_scribe,), started));
        let thread = match started {
            Ok(handle) => Some(Arc::new(handle)),
            Err(e) => {
                let r: Result<HistLog<H>, E> = Err(e);
                assert(spawn.ensures((begun_scribe,), Err(r->Err_0)));
                return r;
            },
        };
        let last_sent = clock.now();
        let hist = Hist::new(sig_fig).unwrap();
        Ok(HistLog { filename, series, tag, freq, clock, last_sent, tx, hist, thread })
    }

    /// Creates a new log that keeps [`DEFAULT_SIG_FIG`] significant figures; see
    /// [`HistLog::new_with_sig_fig`].
    pub fn new<E, F: FnOnce(Scribe) -> Result<H, E>>(
        save_dir: &str,
        series: SeriesName,
        tag: Tag,
        freq: Duration,
        clock: Clock,
        spawn: F,
    ) -> (r: Result<HistLog<H>, E>)
        requires
            forall|scribe: Scribe| #[trigger] spawn.requires((scribe,)),
        ensures
            is_opening(r, spawn, DEFAULT_SIG_FIG, save_dir@, series@, tag@, freq@, clock),
    {
        Self::new_with_sig_fig(DEFAULT_SIG_FIG, save_dir, series, tag, freq, clock, spawn)
    }

    /// Creates a new log with a file and a writer of its own, beside the file of this log and of
    /// the same series and interval.
    pub fn new_with_tag<E: From<Error>, F: FnOnce(Scribe) -> Result<H, E>>(
        &self,
        tag: Tag,
        spawn: F,
    ) -> (r: Result<HistLog<H>, E>)
        requires
            forall|scribe: Scribe| #[trigger] spawn.requires((scribe,)),
        ensures
            match parent_of(self@.filename) {
                Some(save_dir) => is_opening(
                    r,
                    spawn,
                    DEFAULT_SIG_FIG,
                    save_dir,
                    self@.series,
                    tag@,
                    self@.freq,
                    self@.clock,
                ),
                None => r is Err && exists|e: Error|
                    {
                        &&& #[trigger] is_no_file_name(e)
                        &&& E::obeys_from_spec() ==> r->Err_0 == E::from_spec(e)
                    },
            },
    {
        match parent_dir(self.filename.as_str()) {
            Some(save_dir) => Self::new(
                save_dir.as_str(),
                self.series,
                tag,
                self.freq,
                self.clock,
                spawn,
            ),
            None => {
                let e = Error::Io(
                    IoError { kind: IoErrorKind::Other, message: NO_FILE_NAME.to_owned() },
                );
                let ghost shown = e;
                let r: Result<HistLog<H>, E> = Err(E::from(e));
                assert(is_no_file_name(shown));
                r
            },
        }
    }
}

impl<H> Clone for HistLog<H> {
    fn clone(&self) -> (log: HistLog<H>)
        ensures
            log@ == self@.copy(self@.tag, self@.freq, log@.last_sent),
            self@.clock.may_show(log@.last_sent),
    {
        self.copy_at(self.tag, self.freq, self.clock.now())
    }
}

} // verus!

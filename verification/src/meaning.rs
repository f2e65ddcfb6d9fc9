//! What each operation means, told of its inputs and its results.
//!
//! The contracts of this library describe what is done by functions on what its types hold. Here
//! each of these functions is held to what it stands for: how the fields, lengths and characters of
//! a result follow from those of the inputs, and how the results of several calls are related.

use vstd::multiset::Multiset;
use vstd::prelude::*;

use crate::channel::{
    delivery_view, message_view, outcome_of, sent_outcome, Delivery, Entry, EntryView, Message,
    Outcome, Rejected, SenderView,
};
use crate::error::{
    error_text, record_error_text, try_send_error_text, Error, IoError, TrySendError,
};
use crate::filename::{
    file_name, hex, hex_digit, is_filename, is_time_text, may_be_drawn, utc_text, FILE_SUFFIX,
    LAST_SECOND, TIME_FORMAT,
};
use crate::hist::{
    doubled_past, fresh, highest_after, interval_line, range_end, HistView, RecordError,
    MAX_SIG_FIG,
};
use crate::laws::{after, Op};
use crate::log::{
    begun, drop_deadline, is_no_file_name, is_opening, lets_go, opened, outcome_of_try, try_result,
    Closing, HistLog, LogView,
};
use crate::path::{joined, last_slash, no_parent_text, parent_of, trimmed};
use crate::scribe::{
    body_of, count_after, count_of, header_lines, line_of, step_on, writable, written, Scribe,
    StepView, BASE_TIME_SECS, BASE_TIME_TEXT,
};
use crate::time::{
    civil_clock_may_show, elapsed, epoch_nanos, max_nanos, Clock, NANOS_PER_SEC,
};
use crate::{CHANNEL_SIZE, DEFAULT_SIG_FIG, DROP_DEADLINE_MILLIS};

verus! {

/// The time from one instant to another that is `span` later is `span`, and the time from a later
/// instant to an earlier one is none.
pub proof fn law_elapsed_time(earlier: nat, span: nat)
    ensures
        elapsed(earlier + span, earlier) == span,
        elapsed(earlier, earlier + span) == 0,
{
}

/// A second has a thousand million nanoseconds, and the longest span is all the seconds that a
/// `u64` can count and all but one of the nanoseconds of one more.
pub proof fn law_units_of_time()
    ensures
        NANOS_PER_SEC == 1_000_000_000,
        max_nanos() == 18_446_744_073_709_551_615_999_999_999,
{
}

/// A time this many seconds and nanoseconds after the Unix epoch is as far from it as one before it
/// is to the other side.
pub proof fn law_distance_from_the_epoch(secs: u64, nanos: u32)
    ensures
        epoch_nanos(Ok((secs, nanos))) == secs * 1_000_000_000 + nanos,
        epoch_nanos(Err((secs, nanos))) + epoch_nanos(Ok((secs, nanos))) == 0,
{
}

/// The interval of a log is over if and only if more time than its length has gone by since it
/// began. As long as it is not, checking the log changes nothing; once it is, checking it offers
/// one message.
pub proof fn law_interval_is_over_after_its_length<H>(
    log: LogView<H>,
    loop_time: nat,
    now: int,
    outcome: Outcome,
)
    ensures
        loop_time - log.last_sent > log.freq <==> log.expired(loop_time),
        loop_time <= log.last_sent ==> !log.expired(loop_time),
        log.expired(loop_time) ==> loop_time > log.last_sent,
        loop_time <= log.last_sent + log.freq ==> after(
            log,
            Op::CheckSend(loop_time, now, outcome),
        ) == log && after(log, Op::CheckTrySend(loop_time, now, outcome)) == log,
        loop_time > log.last_sent + log.freq ==> offered_one(
            log,
            after(log, Op::CheckSend(loop_time, now, outcome)),
            Some(log.entry(loop_time, now)),
            outcome,
        ) && offered_one(
            log,
            after(log, Op::CheckTrySend(loop_time, now, outcome)),
            Some(log.entry(loop_time, now)),
            outcome,
        ),
{
}

/// An entry has the tag of its log and what was recorded; it ends now, and lasted as long as the
/// time on the log's clock since the interval began, which is none if the clock shows an instant
/// before that.
pub proof fn law_entry_is_the_interval<H>(log: LogView<H>, loop_time: nat, now: int)
    ensures
        log.entry(loop_time, now).tag == log.tag,
        log.entry(loop_time, now).hist == log.hist,
        log.entry(loop_time, now).end == now,
        loop_time >= log.last_sent ==> now - log.entry(loop_time, now).start == loop_time
            - log.last_sent,
        loop_time < log.last_sent ==> log.entry(loop_time, now).start == now,
{
}

/// Whether two views of a log differ in nothing but when the interval began, what was recorded and
/// what was offered.
pub open spec fn same_log<H>(a: LogView<H>, b: LogView<H>) -> bool {
    &&& a.filename == b.filename
    &&& a.series == b.series
    &&& a.tag == b.tag
    &&& a.freq == b.freq
    &&& a.clock == b.clock
    &&& a.thread == b.thread
    &&& a.sender.channel == b.sender.channel
    &&& a.sender.capacity == b.sender.capacity
    &&& a.hist.lowest == b.hist.lowest
    &&& a.hist.highest == b.hist.highest
    &&& a.hist.sig_fig == b.hist.sig_fig
}

/// Whether a log that was `before` has offered one message since.
pub open spec fn offered_one<H>(
    before: LogView<H>,
    after: LogView<H>,
    message: Option<EntryView>,
    outcome: Outcome,
) -> bool {
    let n = before.sender.attempts.len() as int;
    &&& after.sender.attempts.len() == n + 1
    &&& forall|i: int|
        0 <= i < n ==> #[trigger] after.sender.attempts[i] == before.sender.attempts[i]
    &&& after.sender.attempts[n].message == message
    &&& after.sender.attempts[n].outcome == outcome
}

/// Sending offers one message, the entry of the interval, by a call that may wait. Whatever comes
/// of it, the log is then empty and its next interval begins where the last one ended.
pub proof fn law_sending_offers_the_entry<H>(
    log: LogView<H>,
    loop_time: nat,
    now: int,
    outcome: Outcome,
)
    ensures
        ({
            let after = log.sent(loop_time, now, outcome);
            &&& same_log(log, after)
            &&& offered_one(log, after, Some(log.entry(loop_time, now)), outcome)
            &&& after.sender.waits == log.sender.waits + 1
            &&& after.last_sent == loop_time
            &&& after.hist.recorded == Multiset::<u64>::empty()
            &&& after.hist.peak == 0
        }),
{
}

/// Sending without waiting offers one message, the entry of the interval. If it is taken, the log
/// is then empty and its next interval begins where the last one ended. If the channel is full, the
/// log keeps what it holds and its interval goes on. If the writer is gone, what it holds is lost
/// and its interval goes on.
pub proof fn law_trying_to_send_offers_the_entry<H>(
    log: LogView<H>,
    loop_time: nat,
    now: int,
    outcome: Outcome,
)
    ensures
        ({
            let after = log.try_sent(loop_time, now, outcome);
            &&& same_log(log, after)
            &&& offered_one(log, after, Some(log.entry(loop_time, now)), outcome)
            &&& after.sender.waits == log.sender.waits
            &&& outcome is Taken ==> after.last_sent == loop_time
            &&& !(outcome is Taken) ==> after.last_sent == log.last_sent
            &&& outcome is Full ==> after.hist == log.hist
            &&& !(outcome is Full) ==> after.hist.recorded == Multiset::<u64>::empty()
                && after.hist.peak == 0
        }),
{
}

/// What an attempt to send without waiting returns tells what became of the message.
pub proof fn law_results_tell_the_outcome(outcome: Outcome, message: Message)
    ensures
        try_result(outcome) is Ok <==> outcome is Taken,
        outcome is Full ==> try_result(outcome)->Err_0 == Error::TrySend(TrySendError::Full),
        outcome is Disconnected ==> try_result(outcome)->Err_0 == Error::TrySend(
            TrySendError::Disconnected,
        ),
        outcome_of_try(Ok(())) is Taken,
        outcome_of_try(Err(TrySendError::Full)) is Full,
        outcome_of_try(Err(TrySendError::Disconnected)) is Disconnected,
        sent_outcome(true) is Taken,
        sent_outcome(false) is Disconnected,
        outcome_of(Ok(())) is Taken,
        outcome_of(Err(Rejected::Full(message))) is Full,
        outcome_of(Err(Rejected::Disconnected(message))) is Disconnected,
{
}

/// Each message that is offered through an end is one more attempt of that end, behind those made
/// before; only offering it by a call that may wait counts as waiting. Another end of the channel
/// starts with none.
pub proof fn law_attempts_are_counted(
    sender: SenderView,
    message: Option<EntryView>,
    outcome: Outcome,
)
    ensures
        ({
            let n = sender.attempts.len() as int;
            let tried = sender.offered(message, outcome);
            let waited = sender.waited(message, outcome);
            let other = sender.another();
            &&& tried.attempts.len() == n + 1 && tried.attempts.take(n) =~= sender.attempts
            &&& tried.attempts[n].message == message && tried.attempts[n].outcome == outcome
            &&& waited.attempts == tried.attempts
            &&& tried.waits == sender.waits && waited.waits == sender.waits + 1
            &&& other.attempts.len() == 0 && other.waits == 0
            &&& tried.channel == sender.channel && tried.capacity == sender.capacity
            &&& waited.channel == sender.channel && waited.capacity == sender.capacity
            &&& other.channel == sender.channel && other.capacity == sender.capacity
        }),
{
}

/// A message holds its entry, or is the message to end, and is delivered as it was sent.
pub proof fn law_messages_are_delivered_as_sent(entry: Entry)
    ensures
        message_view(Some(entry)) == Some(entry@),
        message_view(None) is None,
        delivery_view(Some(Some(entry))) == Delivery::Entry(entry@),
        delivery_view(Some(None)) is End,
        delivery_view(None) is Closed,
        entry@.tag == entry.tag@,
        entry@.start == entry.start.nanos,
        entry@.end == entry.end.nanos,
        entry@.hist == entry.hist@,
{
}

/// Recording a value adds one to how often it was recorded and changes no other count. The peak is
/// the largest value so far. The settings stay, but that the range may grow.
pub proof fn law_recording_counts_the_value(hist: HistView, value: u64, other: u64)
    ensures
        ({
            let after = hist.with(value);
            &&& after.recorded.count(value) == hist.recorded.count(value) + 1
            &&& other != value ==> after.recorded.count(other) == hist.recorded.count(other)
            &&& after.recorded.len() == hist.recorded.len() + 1
            &&& after.peak >= value && after.peak >= hist.peak
            &&& after.peak == value || after.peak == hist.peak
            &&& after.lowest == hist.lowest && after.sig_fig == hist.sig_fig
            &&& after.highest == highest_after(hist.highest, hist.sig_fig, value)
        }),
{
}

proof fn lemma_doubled_past(n: nat, value: int)
    requires
        n > 0,
    ensures
        doubled_past(n, value) > value,
        doubled_past(n, value) >= n,
    decreases
            (if n > value {
                0
            } else {
                value + 1 - n
            }),
{
    if n <= value {
        lemma_doubled_past(2 * n, value);
    }
}

/// The range of a histogram never shrinks. A value within it leaves it as it is, and when it grows
/// it grows to hold the value, or as far as a `u64` lets it.
pub proof fn law_range_grows_to_hold_values(highest: u64, sig_fig: u8, value: u64)
    ensures
        highest_after(highest, sig_fig, value) >= highest || highest == u64::MAX,
        value <= highest ==> highest_after(highest, sig_fig, value) == highest,
        highest_after(highest, sig_fig, value) != highest ==> value > highest && (highest_after(
            highest,
            sig_fig,
            value,
        ) >= value || value == u64::MAX),
        range_end(highest, sig_fig) > highest,
{
    let units = 2 * vstd::arithmetic::power::pow(10, sig_fig as nat) - 1;
    lemma_doubled_past(2, units);
    lemma_doubled_past(doubled_past(2, units), highest as int);
    lemma_doubled_past(doubled_past(2, units), value as int);
}

/// A histogram that is emptied or cleared has no values and keeps its settings; the peak is gone
/// after the first and stays after the second. A new one has no values either, and the figures
/// asked for.
pub proof fn law_emptying_forgets_the_values(hist: HistView, sig_fig: u8)
    ensures
        hist.emptied().recorded.len() == 0,
        hist.cleared().recorded.len() == 0,
        hist.emptied().recorded =~= hist.cleared().recorded,
        hist.emptied().peak == 0,
        hist.cleared().peak == hist.peak,
        hist.emptied().lowest == hist.lowest && hist.cleared().lowest == hist.lowest,
        hist.emptied().highest == hist.highest && hist.cleared().highest == hist.highest,
        hist.emptied().sig_fig == hist.sig_fig && hist.cleared().sig_fig == hist.sig_fig,
        fresh(sig_fig).recorded.len() == 0,
        fresh(sig_fig).peak == 0,
        fresh(sig_fig).sig_fig == sig_fig,
        fresh(sig_fig).lowest == 1,
        fresh(sig_fig).highest == 2,
{
}

/// A log made from another one has the tag, the interval and the beginning asked for. All else is
/// as in the other log, but that it has offered nothing.
pub proof fn law_copy_is_the_log_under_another_tag<H>(
    log: LogView<H>,
    tag: Seq<char>,
    freq: nat,
    last_sent: nat,
)
    ensures
        ({
            let copy = log.copy(tag, freq, last_sent);
            &&& copy.tag == tag && copy.freq == freq && copy.last_sent == last_sent
            &&& copy.filename == log.filename && copy.series == log.series
            &&& copy.clock == log.clock && copy.thread == log.thread && copy.hist == log.hist
            &&& copy.sender.channel == log.sender.channel
            &&& copy.sender.capacity == log.sender.capacity
            &&& copy.sender.attempts.len() == 0 && copy.sender.waits == 0
        }),
{
}

/// A log that goes tries for five milliseconds.
pub proof fn law_deadline_is_five_milliseconds()
    ensures
        drop_deadline() == 5_000_000,
{
}

/// Flushing a log leaves it as it is if nothing is recorded, if no time has gone by in its
/// interval, or if it was tried for long enough; otherwise it tries to send the entry of the
/// interval.
pub proof fn law_flushing_sends_what_is_left<H>(
    log: LogView<H>,
    loop_time: nat,
    now: int,
    waited: nat,
    outcome: Outcome,
)
    ensures
        ({
            let (after, r) = log.flushed(loop_time, now, waited, outcome);
            let empty = log.hist.recorded.len() == 0;
            let no_time = loop_time <= log.last_sent;
            let late = waited >= 5_000_000;
            &&& r is Nothing <==> empty
            &&& r is NoTime <==> !empty && no_time
            &&& r is Late <==> !empty && !no_time && late
            &&& r is Taken <==> !empty && !no_time && !late && outcome is Taken
            &&& r is Retry <==> !empty && !no_time && !late && outcome is Full
            &&& r is Gone <==> !empty && !no_time && !late && outcome is Disconnected
            &&& empty || no_time || late ==> after == log
            &&& !(empty || no_time || late) ==> after == log.try_sent(loop_time, now, outcome)
        }),
{
}

/// Letting go of the handle gives it out if and only if no other log shares it, and changes nothing
/// else.
pub proof fn law_last_handle_is_given_out<H>(log: LogView<H>, sole: bool)
    ensures
        ({
            let (after, handle) = log.released(sole);
            &&& after.thread is None
            &&& sole ==> handle == log.thread
            &&& !sole ==> handle is None
            &&& after.sender == log.sender && after.hist == log.hist
            &&& after.last_sent == log.last_sent && after.filename == log.filename
            &&& after.series == log.series && after.tag == log.tag && after.freq == log.freq
            &&& after.clock == log.clock
        }),
{
}

/// Telling the writer to end offers one message, the one to end, unless it was tried for long
/// enough. It is tried again only while the channel is full.
pub proof fn law_ending_offers_the_end<H>(log: LogView<H>, waited: nat, outcome: Outcome)
    ensures
        ({
            let (after, r) = log.terminated(waited, outcome);
            &&& waited >= 5_000_000 ==> after == log && r is GiveUp
            &&& waited < 5_000_000 ==> offered_one(log, after, None, outcome)
            &&& waited < 5_000_000 && outcome is Taken ==> r is Accepted
            &&& waited < 5_000_000 && outcome is Full ==> r is Retry
            &&& waited < 5_000_000 && outcome is Disconnected ==> r is GiveUp
            &&& same_log(log, after) && after.hist == log.hist
            &&& after.last_sent == log.last_sent && after.sender.waits == log.sender.waits
        }),
{
}

/// Closing a log is flushing it, letting go of the handle and telling the writer to end, in this
/// order. The handle is let go of once there is nothing left to try about what the log holds. Only
/// a log that got the handle out tells the writer to end, and only one whose message was taken
/// waits for it.
pub proof fn law_closing_goes_through_its_steps<H>(
    log: LogView<H>,
    state: Closing<H>,
    handle: H,
    loop_time: nat,
    now: int,
    waited: nat,
    outcome: Outcome,
    sole: bool,
)
    ensures
        ({
            let (flushed, f) = log.flushed(loop_time, now, waited, outcome);
            let (after, r) = log.closed(Closing::Flushing, loop_time, now, waited, outcome, sole);
            &&& f is Retry ==> after == flushed && r is Flushing
            &&& f is NoTime ==> after == flushed && r is NoTime
            &&& !(f is Retry) && !(f is NoTime) ==> {
                &&& after == flushed.released(sole).0
                &&& after.thread is None
                &&& sole && log.thread == Some(handle) ==> r == Closing::Ending(handle)
                &&& !sole || log.thread is None ==> r is Done
            }
        }),
        ({
            let (ended, t) = log.terminated(waited, outcome);
            let (after, r) = log.closed(
                Closing::Ending(handle),
                loop_time,
                now,
                waited,
                outcome,
                sole,
            );
            &&& after == ended
            &&& t is Accepted ==> r == Closing::Join(handle)
            &&& t is Retry ==> r == Closing::Ending(handle)
            &&& t is GiveUp ==> r is Done
        }),
        !(state is Flushing) && !(state is Ending) ==> log.closed(
            state,
            loop_time,
            now,
            waited,
            outcome,
            sole,
        ) == (log, state),
{
}

/// A log lets go of the handle where it had one before and has none after.
pub proof fn law_letting_go<H>(before: LogView<H>, after: LogView<H>)
    ensures
        lets_go(before, after) <==> before.thread is Some && after.thread is None,
{
}

/// A new log has the file, the series and the channel of the writer that `spawn` was given, the
/// handle that `spawn` gave back, and the figures, the tag, the interval and the clock asked for.
/// Nothing is recorded in it, and nothing was offered to its channel, which takes eight messages.
/// Opening fails with what `spawn` failed with.
pub proof fn law_new_log_is_what_was_asked_for<H, E, F: FnOnce(Scribe) -> Result<H, E>>(
    r: Result<HistLog<H>, E>,
    spawn: F,
    sig_fig: u8,
    save_dir: Seq<char>,
    series: Seq<char>,
    tag: Seq<char>,
    freq: nat,
    clock: Clock,
)
    requires
        is_opening(r, spawn, sig_fig, save_dir, series, tag, freq, clock),
    ensures
        r matches Ok(log) ==> {
            &&& log@.series == series && log@.tag == tag && log@.freq == freq
            &&& log@.clock == clock && clock.may_show(log@.last_sent)
            &&& log@.hist.sig_fig == sig_fig && log@.hist.recorded.len() == 0
            &&& log@.hist.peak == 0 && log@.hist.lowest == 1 && log@.hist.highest == 2
            &&& log@.sender.capacity == 8
            &&& log@.sender.attempts.len() == 0 && log@.sender.waits == 0
            &&& is_filename(log@.filename, save_dir, series)
            &&& exists|scribe: Scribe, handle: H|
                {
                    &&& #[trigger] spawn.ensures((scribe,), Ok(handle))
                    &&& log@.thread == Some(handle)
                    &&& scribe@.filename == log@.filename && scribe@.series == series
                    &&& scribe@.receiver.channel == log@.sender.channel
                    &&& scribe@.receiver.deliveries.len() == 0 && scribe@.received == 0
                    &&& civil_clock_may_show(scribe@.start_time)
                }
        },
        r matches Err(e) ==> exists|scribe: Scribe|
            {
                &&& #[trigger] spawn.ensures((scribe,), Err(e))
                &&& is_filename(scribe@.filename, save_dir, series) && scribe@.series == series
                &&& scribe@.receiver.deliveries.len() == 0 && scribe@.received == 0
                &&& civil_clock_may_show(scribe@.start_time)
            },
{
    if r is Ok {
        let log = r->Ok_0;
        let (scribe, handle) = choose|scribe: Scribe, handle: H|
            {
                &&& begun(scribe@, save_dir, series)
                &&& #[trigger] spawn.ensures((scribe,), Ok(handle))
                &&& log@ == opened(scribe@, handle, sig_fig, tag, freq, clock, log@.last_sent)
                &&& clock.may_show(log@.last_sent)
            };
        assert(spawn.ensures((scribe,), Ok(handle)));
    } else {
        let e = r->Err_0;
        let scribe = choose|scribe: Scribe|
            begun(scribe@, save_dir, series) && #[trigger] spawn.ensures((scribe,), Err(e));
        assert(spawn.ensures((scribe,), Err(e)));
    }
}

/// The error for a path that names no file is an i/o error of no special kind with a message of its
/// own.
pub proof fn law_no_file_name_is_told(e: Error)
    ensures
        is_no_file_name(e) <==> (e matches Error::Io(io) && io.kind is Other && io.message@
            == "`filename.pop()` returned `false`! expected it to have a file name, return `true`."@),
{
}

/// The writer writes a line for an entry that starts at the Unix epoch or later and does not end
/// before it starts, and counts it. It gives up on any other entry. On the message to end it
/// reports how many entries it has counted, and while nobody sends it gives way; neither is
/// counted.
pub proof fn law_writer_does_one_thing_for_each_delivery(n: nat, e: EntryView)
    ensures
        0 <= e.start <= e.end && e.start <= max_nanos() && e.end - e.start <= max_nanos() ==> {
            &&& step_on(n, Delivery::Entry(e)) == StepView::Write(line_of(e))
            &&& count_after(n, Delivery::Entry(e)) == n + 1
        },
        e.start < 0 || e.end < e.start || e.start > max_nanos() || e.end - e.start > max_nanos()
            ==> {
            &&& step_on(n, Delivery::Entry(e)) is BadTime
            &&& count_after(n, Delivery::Entry(e)) == n
        },
        step_on(n, Delivery::End) == StepView::Stop(n),
        count_after(n, Delivery::End) == n,
        step_on(n, Delivery::Closed) is Yield,
        count_after(n, Delivery::Closed) == n,
{
}

/// The line of an entry is the one for its histogram and its tag, for when it starts and for how
/// long it lasts.
pub proof fn law_line_is_of_the_entry(e: EntryView, start: nat, duration: nat)
    requires
        e.start == start,
        e.end == start + duration,
    ensures
        line_of(e) == interval_line(
            e.hist.lowest,
            e.hist.highest,
            e.hist.sig_fig,
            e.hist.peak,
            e.hist.recorded,
            start,
            duration,
            e.tag,
        ),
{
}

/// What is written for deliveries is what was written before, followed by what is written for the
/// last one; and so with how many entries were counted.
pub proof fn law_file_grows_by_what_is_written(deliveries: Seq<Delivery>, d: Delivery, e: EntryView)
    ensures
        body_of(Seq::empty()).len() == 0,
        count_of(Seq::empty()) == 0,
        writable(e) ==> body_of(deliveries.push(Delivery::Entry(e))) == body_of(deliveries)
            + line_of(e) && count_of(deliveries.push(Delivery::Entry(e))) == count_of(deliveries)
            + 1,
        !(d is Entry) ==> body_of(deliveries.push(d)) == body_of(deliveries) && count_of(
            deliveries.push(d),
        ) == count_of(deliveries),
        !writable(e) ==> body_of(deliveries.push(Delivery::Entry(e))) == body_of(deliveries)
            && count_of(deliveries.push(Delivery::Entry(e))) == count_of(deliveries),
{
    assert(deliveries.push(d).drop_last() =~= deliveries);
    assert(deliveries.push(Delivery::Entry(e)).drop_last() =~= deliveries);
    assert(body_of(deliveries) + Seq::<char>::empty() =~= body_of(deliveries));
}

/// A step writes the text that it holds, and one that holds none writes none.
pub proof fn law_steps_write_their_text(text: Seq<char>, n: nat)
    ensures
        written(StepView::Write(text)) == text,
        written(StepView::Yield).len() == 0,
        written(StepView::Stop(n)).len() == 0,
        written(StepView::BadTime).len() == 0,
{
}

/// A log file starts with a line for the time at which it was started, and one that says that the
/// times in it count from the Unix epoch.
pub proof fn law_header_is_two_lines(seconds: Seq<char>)
    ensures
        header_lines(seconds, BASE_TIME_TEXT@) == "#[StartTime: "@ + seconds
            + " (seconds since epoch)]\n#[BaseTime: 0.000 (seconds since epoch)]\n"@,
        BASE_TIME_SECS == 0,
{
    reveal_strlit(" (seconds since epoch)]\n#[BaseTime: 0.000 (seconds since epoch)]\n");
    reveal_strlit(" (seconds since epoch)]\n#[BaseTime: ");
    reveal_strlit("0.000");
    reveal_strlit(" (seconds since epoch)]\n");
    assert(" (seconds since epoch)]\n#[BaseTime: "@ + BASE_TIME_TEXT@ + " (seconds since epoch)]\n"@
        =~= " (seconds since epoch)]\n#[BaseTime: 0.000 (seconds since epoch)]\n"@);
    assert(header_lines(seconds, BASE_TIME_TEXT@) =~= "#[StartTime: "@ + seconds + (
    " (seconds since epoch)]\n#[BaseTime: "@ + BASE_TIME_TEXT@ + " (seconds since epoch)]\n"@));
}

/// Hexadecimal digits are `0` to `9` and `a` to `f`. A number has the digits of its sixteenth part,
/// rounded down, followed by the digit for the rest; one below sixteen has one digit.
pub proof fn law_hex_digits(n: nat, d: nat)
    requires
        d < 16,
    ensures
        d < 10 ==> hex_digit(d) as int == '0' as int + d,
        d >= 10 ==> hex_digit(d) as int == 'a' as int + d - 10,
        hex(d).len() == 1 && hex(d)[0] == hex_digit(d),
        n > 0 ==> hex(16 * n + d).len() == hex(n).len() + 1,
        n > 0 ==> hex(16 * n + d).last() == hex_digit(d),
        n > 0 ==> hex(16 * n + d).drop_last() == hex(n),
{
    reveal_strlit("0123456789abcdef");
    if n > 0 {
        assert((16 * n + d) / 16 == n && (16 * n + d) % 16 == d) by (nonlinear_arith)
            requires
                d < 16,
        ;
        assert(hex(16 * n + d) == hex(n).push(hex_digit(d)));
        assert(hex(16 * n + d).drop_last() =~= hex(n));
    }
}

/// The name of a log file is made of the name of the series, the time, the number and what all log
/// files' names end with, each in full, with a dot behind the first two.
pub proof fn law_file_name_has_all_parts(series: Seq<char>, time: Seq<char>, id: u32)
    ensures
        ({
            let name = file_name(series, time, id);
            let suffix = ".hdrhistogram-interval-log.v2.gz"@;
            let digits = hex(id as nat);
            let t: int = series.len() as int + 1;
            let d: int = t + time.len() + 1;
            &&& name.len() == d + digits.len() + suffix.len()
            &&& name.take(t - 1) =~= series
            &&& name[t - 1] == '.'
            &&& name.subrange(t, d - 1) =~= time
            &&& name[d - 1] == '.'
            &&& name.subrange(d, d + digits.len()) =~= digits
            &&& name.skip(d + digits.len()) =~= suffix
        }),
{
    reveal_strlit(".");
}

/// The path of a new log file is that of a name below the directory asked for; the name has the
/// series asked for, the time of a second that was read, and a number that was drawn.
pub proof fn law_new_path_is_below_its_directory(
    path: Seq<char>,
    save_dir: Seq<char>,
    series: Seq<char>,
)
    requires
        is_filename(path, save_dir, series),
    ensures
        exists|secs: i64, id: u32|
            {
                &&& #[trigger] may_be_drawn(secs, id)
                &&& path == joined(
                    save_dir,
                    file_name(series, utc_text(secs, "%Y-%m-%d-%H%M%SZ"@), id),
                )
                &&& forall|i: int|
                    0 <= i < utc_text(secs, "%Y-%m-%d-%H%M%SZ"@).len() ==> #[trigger] utc_text(
                        secs,
                        "%Y-%m-%d-%H%M%SZ"@,
                    )[i] != '/' && utc_text(secs, "%Y-%m-%d-%H%M%SZ"@)[i] != '.'
            },
{
    let (secs, id) = choose|secs: i64, id: u32|
        may_be_drawn(secs, id) && 0 <= secs <= LAST_SECOND && is_time_text(
            utc_text(secs, TIME_FORMAT@),
        ) && path == #[trigger] joined(
            save_dir,
            file_name(series, utc_text(secs, TIME_FORMAT@), id),
        );
    assert(may_be_drawn(secs, id));
}

/// A name is put behind its directory with one slash between them: one is added unless the
/// directory ends in one or is empty. A name that starts with a slash stands by itself.
pub proof fn law_names_are_joined_by_one_slash(dir: Seq<char>, name: Seq<char>)
    ensures
        name.len() > 0 && name[0] == '/' ==> joined(dir, name) == name,
        !(name.len() > 0 && name[0] == '/') ==> {
            let path = joined(dir, name);
            &&& path.take(dir.len() as int) =~= dir
            &&& path.skip(path.len() - name.len()) =~= name
            &&& dir.len() == 0 || dir[dir.len() - 1] == '/' ==> path.len() == dir.len()
                + name.len()
            &&& dir.len() > 0 && dir[dir.len() - 1] != '/' ==> path.len() == dir.len() + 1
                + name.len() && path[dir.len() as int] == '/'
        },
{
    reveal_strlit("/");
}

/// The last slash of a path is a slash, and there is none behind it.
pub proof fn law_no_slash_behind_the_last(path: Seq<char>)
    ensures
        -1 <= last_slash(path) < path.len(),
        last_slash(path) >= 0 ==> path[last_slash(path)] == '/',
        forall|i: int| last_slash(path) < i < path.len() ==> #[trigger] path[i] != '/',
    decreases path.len(),
{
    if path.len() > 0 && path.last() != '/' {
        law_no_slash_behind_the_last(path.drop_last());
        assert forall|i: int| last_slash(path) < i < path.len() implies #[trigger] path[i]
            != '/' by {
            if i < path.len() - 1 {
                assert(path.drop_last()[i] != '/');
            }
        }
    }
}

/// A path is trimmed of nothing but slashes at its end and dots that stand alone there: a slash
/// behind a path, or a dot behind a slash, makes no difference, and a path that ends in neither, or
/// is a single character, stays as it is.
pub proof fn law_only_empty_parts_are_trimmed(path: Seq<char>)
    ensures
        path.len() > 0 ==> trimmed(path.push('/')) == trimmed(path),
        path.len() > 0 && path[path.len() - 1] == '/' ==> trimmed(path.push('.')) == trimmed(path),
        path.len() <= 1 ==> trimmed(path) == path,
        path.len() > 1 && path[path.len() - 1] != '/' && !(path[path.len() - 1] == '.' && path[
        path.len() - 2] == '/') ==> trimmed(path) == path,
{
    assert(path.push('/').drop_last() =~= path);
    assert(path.push('.').drop_last() =~= path);
}

proof fn lemma_last_slash_is(path: Seq<char>, i: int)
    requires
        0 <= i < path.len(),
        path[i] == '/',
        forall|j: int| i < j < path.len() ==> #[trigger] path[j] != '/',
    ensures
        last_slash(path) == i,
{
    law_no_slash_behind_the_last(path);
    let slash = last_slash(path);
    if slash < i {
        assert(path[i] != '/');
    }
    if slash > i {
        assert(path[slash] != '/');
    }
}

/// A file is in the directory that its path was made from: if a name without a slash stands behind
/// a directory and a slash, the parent of the path is the directory itself, character for
/// character, as long as that does not end in a slash or in a dot that stands alone.
pub proof fn law_parent_is_the_directory(dir: Seq<char>, name: Seq<char>)
    requires
        dir.len() > 0,
        dir[dir.len() - 1] != '/',
        dir.len() > 1 ==> !(dir[dir.len() - 1] == '.' && dir[dir.len() - 2] == '/'),
        name.len() > 0,
        forall|i: int| 0 <= i < name.len() ==> #[trigger] name[i] != '/',
        !(name.len() == 1 && name[0] == '.'),
    ensures
        parent_of(dir.push('/') + name) == Some(dir),
        parent_of(seq!['/'] + name) == Some(seq!['/']),
{
    law_parent_is_the_trimmed_directory(dir, name);
    law_only_empty_parts_are_trimmed(dir);
    let top = seq!['/'] + name;
    let m = top.len();
    assert(top[m - 1] == name[name.len() - 1]);
    if name.len() > 1 {
        assert(top[m - 2] == name[name.len() - 2]);
    }
    law_only_empty_parts_are_trimmed(top);
    assert forall|j: int| 0 < j < m implies #[trigger] top[j] != '/' by {
        assert(top[j] == name[j - 1]);
    }
    lemma_last_slash_is(top, 0);
    assert(top.take(1) =~= seq!['/']);
    law_only_empty_parts_are_trimmed(seq!['/']);
}

/// Whatever the directory ends in, the parent of a path that was made from it is the directory
/// trimmed.
pub proof fn law_parent_is_the_trimmed_directory(dir: Seq<char>, name: Seq<char>)
    requires
        dir.len() > 0,
        name.len() > 0,
        forall|i: int| 0 <= i < name.len() ==> #[trigger] name[i] != '/',
        !(name.len() == 1 && name[0] == '.'),
    ensures
        parent_of(dir.push('/') + name) == Some(trimmed(dir)),
{
    let path = dir.push('/') + name;
    let n = path.len();
    assert(path[n - 1] == name[name.len() - 1]);
    if name.len() > 1 {
        assert(path[n - 2] == name[name.len() - 2]);
    }
    law_only_empty_parts_are_trimmed(path);
    assert forall|j: int| dir.len() < j < n implies #[trigger] path[j] != '/' by {
        assert(path[j] == name[j - dir.len() - 1]);
    }
    lemma_last_slash_is(path, dir.len() as int);
    assert(path.take(dir.len() as int + 1) =~= dir.push('/'));
    law_only_empty_parts_are_trimmed(dir);
}

/// A name by itself is in the working directory, and the empty path and the root are in none. A
/// slash behind a path makes no difference to where it is, and neither does a dot behind a slash.
pub proof fn law_parent_of_short_paths(name: Seq<char>, path: Seq<char>)
    requires
        name.len() > 0,
        forall|i: int| 0 <= i < name.len() ==> #[trigger] name[i] != '/',
    ensures
        parent_of(name) == Some(Seq::<char>::empty()),
        parent_of(Seq::<char>::empty()) is None,
        parent_of(seq!['/']) is None,
        path.len() > 0 ==> parent_of(path.push('/')) == parent_of(path),
        path.len() > 0 && path[path.len() - 1] == '/' ==> parent_of(path.push('.')) == parent_of(
            path,
        ),
{
    law_only_empty_parts_are_trimmed(name);
    assert(name[name.len() - 1] != '/');
    if name.len() > 1 {
        assert(name[name.len() - 2] != '/');
    }
    law_no_slash_behind_the_last(name);
    if last_slash(name) >= 0 {
        assert(name[last_slash(name)] != '/');
    }
    law_only_empty_parts_are_trimmed(path);
    law_only_empty_parts_are_trimmed(seq!['/']);
    law_no_slash_behind_the_last(seq!['/']);
    assert(last_slash(seq!['/']) == 0);
}

/// What is said of a path without a directory names the path in full.
pub proof fn law_path_without_directory_is_named(path: Seq<char>)
    ensures
        no_parent_text(path) == "parent path (of "@ + path + ") is not a directory"@,
{
}

/// The text of an error is the name of its kind and, in parentheses, the whole message.
pub proof fn law_errors_tell_their_message(io: IoError, hdr: RecordError, sending: TrySendError)
    ensures
        error_text(Error::Io(io)) == "Io("@ + io.message@ + ")"@,
        error_text(Error::HdrRecord(hdr)) == "HdrRecord("@ + record_error_text(hdr) + ")"@,
        error_text(Error::TrySend(sending)) == "TrySend("@ + try_send_error_text(sending) + ")"@,
        try_send_error_text(TrySendError::Full) == "sending on a full channel"@,
        try_send_error_text(TrySendError::Disconnected) == "sending on a disconnected channel"@,
{
}

/// The channel takes eight messages, logs keep three figures unless others are asked for and five
/// at most, and the log files end as interval logs do.
pub proof fn law_figures_of_the_library()
    ensures
        CHANNEL_SIZE == 8,
        DEFAULT_SIG_FIG == 3,
        MAX_SIG_FIG == 5,
        DROP_DEADLINE_MILLIS == 5,
        FILE_SUFFIX@ == ".hdrhistogram-interval-log.v2.gz"@,
        TIME_FORMAT@ == "%Y-%m-%d-%H%M%SZ"@,
{
}

} // verus!

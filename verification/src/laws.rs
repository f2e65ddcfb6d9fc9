//! What holds of the library as a whole.

use vstd::multiset::Multiset;
use vstd::prelude::*;

use crate::channel::{Attempt, Delivery, EntryView, Outcome, SenderView};
use crate::filename::{
    file_name, hex, hex_digit, is_filename, is_time_text, may_be_drawn, utc_text, FILE_SUFFIX,
    LAST_SECOND, TIME_FORMAT,
};
use crate::hist::{interval_line, is_line};
use crate::log::{drop_deadline, Closing, LogView};
use crate::path::{joined, last_slash, parent_of, trimmed};
use crate::scribe::{body_of, count_of, line_of, step_on, writable, StepView};
use crate::time::{elapsed, max_nanos};

verus! {

/// One use of a log.
pub enum Op {
    /// Record a value.
    Record(u64),
    /// Check and send at an instant, when it is a time by the civil clock; the outcome is what the
    /// channel makes of the entry if one is sent.
    CheckSend(nat, int, Outcome),
    /// The same without waiting.
    CheckTrySend(nat, int, Outcome),
    /// Reset at an instant.
    Reset(nat),
}

/// A log after one use.
pub open spec fn after<H>(log: LogView<H>, op: Op) -> LogView<H> {
    match op {
        Op::Record(value) => LogView { hist: log.hist.with(value), ..log },
        Op::CheckSend(loop_time, now, outcome) => if log.expired(loop_time) {
            log.sent(loop_time, now, outcome)
        } else {
            log
        },
        Op::CheckTrySend(loop_time, now, outcome) => if log.expired(loop_time) {
            log.try_sent(loop_time, now, outcome)
        } else {
            log
        },
        Op::Reset(now) => LogView { hist: log.hist.cleared(), last_sent: now, ..log },
    }
}

/// A log after a run of uses.
pub open spec fn after_all<H>(log: LogView<H>, ops: Seq<Op>) -> LogView<H>
    decreases ops.len(),
{
    if ops.len() == 0 {
        log
    } else {
        after(after_all(log, ops.drop_last()), ops.last())
    }
}

/// Whether a use discards nothing: it is no reset, and the writer is there, so that a message
/// waited for is taken, and one that is not waited for is taken or finds the channel full.
pub open spec fn undisturbed(op: Op) -> bool {
    match op {
        Op::Record(_) => true,
        Op::CheckSend(_, _, outcome) => outcome is Taken,
        Op::CheckTrySend(_, _, outcome) => !(outcome is Disconnected),
        Op::Reset(_) => false,
    }
}

/// The values recorded in a run of uses.
pub open spec fn values_in(ops: Seq<Op>) -> Multiset<u64>
    decreases ops.len(),
{
    if ops.len() == 0 {
        Multiset::empty()
    } else {
        match ops.last() {
            Op::Record(value) => values_in(ops.drop_last()).insert(value),
            _ => values_in(ops.drop_last()),
        }
    }
}

/// The values in the entries that the channel took.
pub open spec fn values_taken(attempts: Seq<Attempt>) -> Multiset<u64>
    decreases attempts.len(),
{
    if attempts.len() == 0 {
        Multiset::empty()
    } else {
        let before = values_taken(attempts.drop_last());
        match (attempts.last().message, attempts.last().outcome) {
            (Some(entry), Outcome::Taken) => before.add(entry.hist.recorded),
            _ => before,
        }
    }
}

/// The nanoseconds that the entries that the channel took span together.
pub open spec fn time_taken(attempts: Seq<Attempt>) -> int
    decreases attempts.len(),
{
    if attempts.len() == 0 {
        0
    } else {
        let before = time_taken(attempts.drop_last());
        match (attempts.last().message, attempts.last().outcome) {
            (Some(entry), Outcome::Taken) => before + (entry.end - entry.start),
            _ => before,
        }
    }
}

pub(crate) proof fn lemma_attempt_taken(attempts: Seq<Attempt>, a: Attempt)
    ensures
        values_taken(attempts.push(a)) == match (a.message, a.outcome) {
            (Some(entry), Outcome::Taken) => values_taken(attempts).add(entry.hist.recorded),
            _ => values_taken(attempts),
        },
        time_taken(attempts.push(a)) == match (a.message, a.outcome) {
            (Some(entry), Outcome::Taken) => time_taken(attempts) + (entry.end - entry.start),
            _ => time_taken(attempts),
        },
{
    assert(attempts.push(a).drop_last() =~= attempts);
}

proof fn lemma_undisturbed_uses<H>(log: LogView<H>, ops: Seq<Op>)
    requires
        forall|i: int| 0 <= i < ops.len() ==> undisturbed(#[trigger] ops[i]),
    ensures
        values_taken(after_all(log, ops).sender.attempts).add(after_all(log, ops).hist.recorded)
            == values_taken(log.sender.attempts).add(log.hist.recorded).add(values_in(ops)),
        time_taken(after_all(log, ops).sender.attempts) - time_taken(log.sender.attempts)
            == after_all(log, ops).last_sent - log.last_sent,
    decreases ops.len(),
{
    let end = after_all(log, ops);
    let base = values_taken(log.sender.attempts).add(log.hist.recorded);
    if ops.len() > 0 {
        let before = after_all(log, ops.drop_last());
        assert(undisturbed(ops[ops.len() - 1]));
        assert forall|i: int| 0 <= i < ops.drop_last().len() implies undisturbed(
            #[trigger] ops.drop_last()[i],
        ) by {
            assert(undisturbed(ops[i]));
        }
        lemma_undisturbed_uses(log, ops.drop_last());
        match ops.last() {
            Op::CheckSend(loop_time, now, outcome) | Op::CheckTrySend(loop_time, now, outcome) => {
                lemma_attempt_taken(
                    before.sender.attempts,
                    Attempt { message: Some(before.entry(loop_time, now)), outcome },
                );
            },
            _ => {},
        }
        assert forall|v: u64|
            values_taken(end.sender.attempts).add(end.hist.recorded).count(v) == base.add(
                values_in(ops),
            ).count(v) by {
            assert(values_taken(before.sender.attempts).add(before.hist.recorded).count(v)
                == base.add(values_in(ops.drop_last())).count(v));
        }
    }
    assert(values_taken(end.sender.attempts).add(end.hist.recorded) =~= base.add(values_in(ops)));
}

/// No value is lost and none is sent twice: in a run of uses that discard nothing, the values in
/// the entries that the channel took and those still in the log are together all that were there
/// before and all that were recorded since.
pub proof fn law_every_value_is_accounted_for<H>(log: LogView<H>, ops: Seq<Op>)
    requires
        forall|i: int| 0 <= i < ops.len() ==> undisturbed(#[trigger] ops[i]),
    ensures
        values_taken(after_all(log, ops).sender.attempts).add(after_all(log, ops).hist.recorded)
            == values_taken(log.sender.attempts).add(log.hist.recorded).add(values_in(ops)),
{
    lemma_undisturbed_uses(log, ops);
}

/// The intervals of the entries adjoin: in a run of uses that discard nothing, the entries that the
/// channel took span together exactly the time from one beginning of an interval to the other.
pub proof fn law_intervals_adjoin<H>(log: LogView<H>, ops: Seq<Op>)
    requires
        forall|i: int| 0 <= i < ops.len() ==> undisturbed(#[trigger] ops[i]),
    ensures
        time_taken(after_all(log, ops).sender.attempts) - time_taken(log.sender.attempts)
            == after_all(log, ops).last_sent - log.last_sent,
{
    lemma_undisturbed_uses(log, ops);
}

/// Using a log never changes where it is written, under which tag, how often and by whom.
pub proof fn law_identity_is_kept<H>(log: LogView<H>, ops: Seq<Op>)
    ensures
        ({
            let end = after_all(log, ops);
            &&& end.filename == log.filename && end.series == log.series && end.tag == log.tag
            &&& end.freq == log.freq && end.clock == log.clock && end.thread == log.thread
            &&& end.sender.channel == log.sender.channel
            &&& end.sender.capacity == log.sender.capacity
            &&& end.hist.sig_fig == log.hist.sig_fig && end.hist.lowest == log.hist.lowest
        }),
    decreases ops.len(),
{
    if ops.len() > 0 {
        law_identity_is_kept(log, ops.drop_last());
    }
}

/// The two ways to send agree: when the channel takes the entry, sending without waiting leaves the
/// log as waiting does, but for having waited.
pub proof fn law_ways_to_send_agree<H>(log: LogView<H>, loop_time: nat, now: int)
    ensures
        ({
            let sent = log.sent(loop_time, now, Outcome::Taken);
            log.try_sent(loop_time, now, Outcome::Taken) == (LogView {
                sender: SenderView { waits: log.sender.waits, ..sent.sender },
                ..sent
            })
        }),
        ({
            let sent = after(log, Op::CheckSend(loop_time, now, Outcome::Taken));
            after(log, Op::CheckTrySend(loop_time, now, Outcome::Taken)) == (LogView {
                sender: SenderView { waits: log.sender.waits, ..sent.sender },
                ..sent
            })
        }),
{
}

/// Only one use of a log may wait: sending when that is asked for. Whatever else is done with a log
/// waits for nothing.
pub proof fn law_only_sending_waits<H>(log: LogView<H>, op: Op)
    requires
        !(op is CheckSend),
    ensures
        after(log, op).sender.waits == log.sender.waits,
{
}

/// A full channel costs nothing: the log holds what it held, and the entry that it sends later is
/// the one that it would send then had there been no earlier attempt.
pub proof fn law_full_channel_is_recoverable<H>(
    log: LogView<H>,
    loop_time: nat,
    now: int,
    later: nat,
    then: int,
)
    ensures
        ({
            let tried = log.try_sent(loop_time, now, Outcome::Full);
            &&& tried == (LogView { sender: tried.sender, ..log })
            &&& tried.expired(later) == log.expired(later)
            &&& tried.entry(later, then) == log.entry(later, then)
        }),
{
}

proof fn lemma_records_add_up<H>(log: LogView<H>, ops: Seq<Op>)
    requires
        forall|i: int| 0 <= i < ops.len() ==> #[trigger] ops[i] is Record,
    ensures
        after_all(log, ops) == (LogView { hist: after_all(log, ops).hist, ..log }),
        after_all(log, ops).hist.recorded == log.hist.recorded.add(values_in(ops)),
    decreases ops.len(),
{
    if ops.len() > 0 {
        assert(ops[ops.len() - 1] is Record);
        assert forall|i: int|
            0 <= i < ops.drop_last().len() implies #[trigger] ops.drop_last()[i] is Record by {
            assert(ops[i] is Record);
        }
        lemma_records_add_up(log, ops.drop_last());
    }
    assert(after_all(log, ops).hist.recorded =~= log.hist.recorded.add(values_in(ops)));
}

/// A refused send loses no value and no time: if [`crate::HistLog::try_send`] found the channel
/// full, and more values were recorded before it succeeded, then the one entry that was taken holds
/// the values of both times and spans both times.
pub proof fn law_refused_values_are_sent_later<H>(
    log: LogView<H>,
    loop_time: nat,
    now: int,
    records: Seq<Op>,
    later: nat,
    then: int,
)
    requires
        log.last_sent <= later,
        forall|i: int| 0 <= i < records.len() ==> #[trigger] records[i] is Record,
    ensures
        ({
            let refused = log.try_sent(loop_time, now, Outcome::Full);
            let filled = after_all(refused, records);
            let entry = filled.entry(later, then);
            let sent = filled.try_sent(later, then, Outcome::Taken);
            &&& entry.hist.recorded == log.hist.recorded.add(values_in(records))
            &&& entry.end - entry.start == later - log.last_sent
            &&& sent.sender.attempts == log.sender.attempts.push(
                Attempt { message: Some(log.entry(loop_time, now)), outcome: Outcome::Full },
            ).push(Attempt { message: Some(entry), outcome: Outcome::Taken })
        }),
{
    lemma_records_add_up(log.try_sent(loop_time, now, Outcome::Full), records);
}

/// After its entry was sent, a log starts afresh: it holds nothing, and its next interval begins
/// where the last one ended.
pub proof fn law_sending_starts_afresh<H>(
    log: LogView<H>,
    loop_time: nat,
    now: int,
    outcome: Outcome,
    later: nat,
    then: int,
)
    requires
        loop_time <= later,
    ensures
        ({
            let next = log.sent(loop_time, now, outcome);
            let entry = next.entry(later, then);
            &&& next.hist == log.hist.emptied()
            &&& !next.expired(loop_time)
            &&& entry.end - entry.start == later - loop_time
        }),
{
}

/// Once an interval is over it stays so until the log is sent or reset.
pub proof fn law_expiry_lasts<H>(log: LogView<H>, loop_time: nat, later: nat)
    requires
        log.expired(loop_time),
        loop_time <= later,
    ensures
        log.expired(later),
{
}

/// Nothing that was recorded before a reset is in the entry after it, and its interval begins with
/// the reset. What stays is the peak, the largest value seen, which the entry's line still tells.
pub proof fn law_reset_forgets<H>(log: LogView<H>, reset_at: nat, loop_time: nat, now: int)
    ensures
        ({
            let entry = after(log, Op::Reset(reset_at)).entry(loop_time, now);
            &&& entry.hist.recorded == Multiset::<u64>::empty()
            &&& entry.hist.peak == log.hist.peak
            &&& entry.end - entry.start == elapsed(loop_time, reset_at)
        }),
{
}

/// A log that goes does not wait for the channel, and once it has tried for as long as it may it
/// offers nothing more and is done after two steps at most.
pub proof fn law_closing_ends_in_time<H>(
    log: LogView<H>,
    state: Closing<H>,
    loop_time: nat,
    now: int,
    waited: nat,
    outcome: Outcome,
    sole: bool,
    later: nat,
    then: int,
    waited_then: nat,
    outcome_then: Outcome,
    sole_then: bool,
)
    ensures
        log.closed(state, loop_time, now, waited, outcome, sole).0.sender.waits == log.sender.waits,
        drop_deadline() <= waited <= waited_then ==> {
            let (next, closing) = log.closed(state, loop_time, now, waited, outcome, sole);
            let (end, done) = next.closed(
                closing,
                later,
                then,
                waited_then,
                outcome_then,
                sole_then,
            );
            &&& next.sender == log.sender && end.sender == log.sender
            &&& !done.goes_on()
        },
{
}

/// A log whose writer is shared by others does not tell it to end: it goes once its values are
/// taken, and neither ends the writer nor waits for it.
pub proof fn law_shared_writer_is_not_ended<H>(
    log: LogView<H>,
    loop_time: nat,
    now: int,
    waited: nat,
    outcome: Outcome,
)
    ensures
        ({
            let (next, closing) = log.closed(
                Closing::Flushing,
                loop_time,
                now,
                waited,
                outcome,
                false,
            );
            &&& !(closing is Ending) && !(closing is Join)
            &&& next.sender.attempts == log.sender.attempts || next.sender.attempts
                == log.sender.attempts.push(
                Attempt { message: Some(log.entry(loop_time, now)), outcome },
            )
        }),
{
}

/// A log made from another one with a tag of its own is written to the same file through the same
/// channel by the same writer, has the tag and the interval asked for, starts with what the other
/// one holds and an interval of its own, and has sent nothing yet.
pub proof fn law_copies_share_file_and_writer<H>(
    log: LogView<H>,
    tag: Seq<char>,
    freq: nat,
    last_sent: nat,
    ops: Seq<Op>,
    copy_ops: Seq<Op>,
)
    ensures
        ({
            let end = after_all(log, ops);
            let copy = after_all(log.copy(tag, freq, last_sent), copy_ops);
            &&& copy.filename == end.filename && copy.series == end.series
            &&& copy.thread == end.thread
            &&& copy.sender.channel == end.sender.channel
            &&& copy.tag == tag && end.tag == log.tag
        }),
        log.copy(tag, freq, last_sent).hist == log.hist,
        log.copy(tag, freq, last_sent).freq == freq,
        log.copy(tag, freq, last_sent).last_sent == last_sent,
        log.copy(tag, freq, last_sent).sender.attempts.len() == 0,
{
    law_identity_is_kept(log, ops);
    law_identity_is_kept(log.copy(tag, freq, last_sent), copy_ops);
}

/// What a log sends is what the writer writes: the line for an entry tells the log's tag, its
/// histogram, when the interval began, and the time that went by on the log's own clock.
pub proof fn law_entries_are_written<H>(log: LogView<H>, loop_time: nat, now: int, n: nat)
    requires
        elapsed(loop_time, log.last_sent) <= now <= max_nanos(),
    ensures
        step_on(n, Delivery::Entry(log.entry(loop_time, now))) == StepView::Write(
            interval_line(
                log.hist.lowest,
                log.hist.highest,
                log.hist.sig_fig,
                log.hist.peak,
                log.hist.recorded,
                (now - elapsed(loop_time, log.last_sent)) as nat,
                elapsed(loop_time, log.last_sent),
                log.tag,
            ),
        ),
{
}

/// The lines for `entries`, one after the other.
pub open spec fn lines_of(entries: Seq<EntryView>) -> Seq<char>
    decreases entries.len(),
{
    if entries.len() == 0 {
        Seq::empty()
    } else {
        lines_of(entries.drop_last()) + line_of(entries.last())
    }
}

/// The deliveries of `entries`.
pub open spec fn deliveries_of(entries: Seq<EntryView>) -> Seq<Delivery> {
    entries.map_values(|e: EntryView| Delivery::Entry(e))
}

/// The writer writes every entry that it gets, in the order in which it gets them, and when it is
/// told to end it reports how many they were.
pub proof fn law_writer_writes_all_in_order(entries: Seq<EntryView>)
    requires
        forall|i: int| 0 <= i < entries.len() ==> writable(#[trigger] entries[i]),
    ensures
        body_of(deliveries_of(entries)) == lines_of(entries),
        count_of(deliveries_of(entries)) == entries.len(),
        step_on(count_of(deliveries_of(entries)), Delivery::End) == StepView::Stop(entries.len()),
    decreases entries.len(),
{
    let deliveries = deliveries_of(entries);
    if entries.len() > 0 {
        assert(writable(entries[entries.len() - 1]));
        assert forall|i: int| 0 <= i < entries.drop_last().len() implies writable(
            #[trigger] entries.drop_last()[i],
        ) by {
            assert(writable(entries[i]));
        }
        law_writer_writes_all_in_order(entries.drop_last());
        assert(deliveries.drop_last() =~= deliveries_of(entries.drop_last()));
        assert(deliveries.last() == Delivery::Entry(entries.last()));
    }
}

/// How many line feeds are in `text`.
pub open spec fn line_feeds(text: Seq<char>) -> nat
    decreases text.len(),
{
    if text.len() == 0 {
        0
    } else {
        line_feeds(text.drop_last()) + if text.last() == '\n' {
            1nat
        } else {
            0nat
        }
    }
}

proof fn lemma_line_feeds_concat(a: Seq<char>, b: Seq<char>)
    ensures
        line_feeds(a + b) == line_feeds(a) + line_feeds(b),
    decreases b.len(),
{
    if b.len() == 0 {
        assert(a + b =~= a);
    } else {
        assert((a + b).drop_last() =~= a + b.drop_last());
        lemma_line_feeds_concat(a, b.drop_last());
    }
}

proof fn lemma_no_line_feed(text: Seq<char>)
    requires
        forall|i: int| 0 <= i < text.len() ==> #[trigger] text[i] != '\n',
    ensures
        line_feeds(text) == 0,
    decreases text.len(),
{
    if text.len() > 0 {
        assert(text[text.len() - 1] != '\n');
        assert forall|i: int| 0 <= i < text.drop_last().len() implies #[trigger] text.drop_last()[i]
            != '\n' by {
            assert(text[i] != '\n');
        }
        lemma_no_line_feed(text.drop_last());
    }
}

/// Each entry has a line of its own: if every entry is written as one line, there are as many lines
/// as entries, and the last one is ended.
pub proof fn law_one_line_for_each_entry(entries: Seq<EntryView>)
    requires
        forall|i: int| 0 <= i < entries.len() ==> is_line(#[trigger] line_of(entries[i])),
    ensures
        line_feeds(lines_of(entries)) == entries.len(),
        entries.len() > 0 ==> lines_of(entries).last() == '\n',
    decreases entries.len(),
{
    if entries.len() > 0 {
        let line = line_of(entries[entries.len() - 1]);
        assert(is_line(line));
        assert forall|i: int| 0 <= i < entries.drop_last().len() implies is_line(
            #[trigger] line_of(entries.drop_last()[i]),
        ) by {
            assert(is_line(line_of(entries[i])));
        }
        law_one_line_for_each_entry(entries.drop_last());
        lemma_line_feeds_concat(lines_of(entries.drop_last()), line);
        assert forall|i: int| 0 <= i < line.drop_last().len() implies #[trigger] line.drop_last()[i]
            != '\n' by {
            assert(line[i] != '\n');
        }
        lemma_no_line_feed(line.drop_last());
    }
}

proof fn lemma_hex_is_never_empty(n: nat)
    ensures
        hex(n).len() > 0,
{
}

proof fn lemma_hex_digits_differ(a: nat, b: nat)
    requires
        a < 16,
        b < 16,
        hex_digit(a) == hex_digit(b),
    ensures
        a == b,
{
    reveal_strlit("0123456789abcdef");
}

proof fn lemma_hex_digit_is_no_separator(d: nat)
    requires
        d < 16,
    ensures
        hex_digit(d) != '/',
        hex_digit(d) != '.',
{
    reveal_strlit("0123456789abcdef");
}

proof fn lemma_hex_has_no_separator(n: nat)
    ensures
        forall|i: int| 0 <= i < hex(n).len() ==> #[trigger] hex(n)[i] != '/' && hex(n)[i] != '.',
    decreases n,
{
    lemma_hex_digit_is_no_separator(n % 16);
    if n >= 16 {
        lemma_hex_has_no_separator(n / 16);
        assert forall|i: int| 0 <= i < hex(n).len() implies #[trigger] hex(n)[i] != '/' && hex(n)[i]
            != '.' by {
            if i < hex(n / 16).len() {
                assert(hex(n)[i] == hex(n / 16)[i]);
            }
        }
    }
}

/// Numbers are told apart by their hexadecimal digits.
pub proof fn law_hex_tells_numbers_apart(a: nat, b: nat)
    requires
        hex(a) == hex(b),
    ensures
        a == b,
    decreases a,
{
    lemma_hex_is_never_empty(a / 16);
    lemma_hex_is_never_empty(b / 16);
    if a >= 16 {
        assert(hex(a).len() > 1);
        assert(hex(a).drop_last() =~= hex(a / 16));
        assert(hex(b).drop_last() =~= hex(b / 16));
        assert(hex(a).last() == hex_digit(a % 16));
        assert(hex(b).last() == hex_digit(b % 16));
        law_hex_tells_numbers_apart(a / 16, b / 16);
        lemma_hex_digits_differ(a % 16, b % 16);
    } else {
        assert(hex(a).len() == 1);
        assert(hex(a).last() == hex_digit(a));
        assert(hex(b).last() == hex_digit(b % 16));
        lemma_hex_digits_differ(a, b % 16);
    }
}

/// Log files of one series in one directory have different paths unless both their times and their
/// numbers are the same.
pub proof fn law_filenames_are_told_apart(
    save_dir: Seq<char>,
    series: Seq<char>,
    time: Seq<char>,
    id: u32,
    other_time: Seq<char>,
    other_id: u32,
)
    requires
        is_time_text(time),
        is_time_text(other_time),
        joined(save_dir, file_name(series, time, id)) == joined(
            save_dir,
            file_name(series, other_time, other_id),
        ),
    ensures
        time == other_time,
        id == other_id,
{
    reveal_strlit(".");
    reveal_strlit("/");
    let a = file_name(series, time, id);
    let b = file_name(series, other_time, other_id);
    let path = joined(save_dir, a);
    assert(a[0] == b[0]);
    assert(a == b) by {
        let skip = path.len() - a.len();
        assert(a =~= path.skip(skip));
        assert(b =~= path.skip(skip));
    }
    let head: int = series.len() as int + 1;
    assert forall|i: int| 0 <= i < time.len() implies #[trigger] time[i] != '.' by {}
    assert forall|i: int| 0 <= i < other_time.len() implies #[trigger] other_time[i] != '.' by {}
    assert(a[head + time.len()] == '.');
    assert(b[head + other_time.len()] == '.');
    if time.len() < other_time.len() {
        assert(b[head + time.len()] == other_time[time.len() as int]);
    }
    if other_time.len() < time.len() {
        assert(a[head + other_time.len()] == time[other_time.len() as int]);
    }
    assert(time =~= a.subrange(head, head + time.len()));
    assert(other_time =~= b.subrange(head, head + time.len()));
    let from = head + time.len() + 1;
    let to = a.len() - FILE_SUFFIX@.len();
    assert(hex(id as nat) =~= a.subrange(from, to));
    assert(hex(other_id as nat) =~= b.subrange(from, to));
    law_hex_tells_numbers_apart(id as nat, other_id as nat);
}

proof fn lemma_last_slash_before_name(dir: Seq<char>, name: Seq<char>)
    requires
        forall|i: int| 0 <= i < name.len() ==> #[trigger] name[i] != '/',
    ensures
        last_slash(dir.push('/') + name) == dir.len(),
    decreases name.len(),
{
    let path = dir.push('/') + name;
    if name.len() == 0 {
        assert(path =~= dir.push('/'));
    } else {
        assert(name[name.len() - 1] != '/');
        assert forall|i: int| 0 <= i < name.drop_last().len() implies #[trigger] name.drop_last()[i]
            != '/' by {
            assert(name[i] != '/');
        }
        lemma_last_slash_before_name(dir, name.drop_last());
        assert(path.drop_last() =~= dir.push('/') + name.drop_last());
        assert(path.last() == name.last());
    }
}

proof fn lemma_no_slash(name: Seq<char>)
    requires
        forall|i: int| 0 <= i < name.len() ==> #[trigger] name[i] != '/',
    ensures
        last_slash(name) == -1,
    decreases name.len(),
{
    if name.len() > 0 {
        assert(name[name.len() - 1] != '/');
        assert forall|i: int| 0 <= i < name.drop_last().len() implies #[trigger] name.drop_last()[i]
            != '/' by {
            assert(name[i] != '/');
        }
        lemma_no_slash(name.drop_last());
    }
}

/// A log file is made in the directory asked for, under a name that starts with the name of the
/// series and ends as all log files' names do.
pub proof fn law_files_are_in_their_directory(
    save_dir: Seq<char>,
    series: Seq<char>,
    time: Seq<char>,
    id: u32,
)
    requires
        forall|i: int| 0 <= i < series.len() ==> #[trigger] series[i] != '/',
        is_time_text(time),
    ensures
        parent_of(joined(save_dir, file_name(series, time, id))) == Some(trimmed(save_dir)),
        joined(save_dir, series + "."@).is_prefix_of(
            joined(save_dir, file_name(series, time, id)),
        ),
        FILE_SUFFIX@.is_suffix_of(joined(save_dir, file_name(series, time, id))),
{
    reveal_strlit(".");
    reveal_strlit("/");
    reveal_strlit(".hdrhistogram-interval-log.v2.gz");
    let name = file_name(series, time, id);
    let path = joined(save_dir, name);
    lemma_hex_has_no_separator(id as nat);
    let to_time = series.len() + 1;
    let to_hex = to_time + time.len() + 1;
    let to_suffix = to_hex + hex(id as nat).len();
    assert forall|i: int| 0 <= i < name.len() implies #[trigger] name[i] != '/' by {
        if i < series.len() {
            assert(name[i] == series[i]);
        } else if i == series.len() {
        } else if i < to_time + time.len() {
            assert(name[i] == time[i - to_time]);
        } else if i < to_hex {
        } else if i < to_suffix {
            assert(name[i] == hex(id as nat)[i - to_hex]);
        } else {
            assert(name[i] == FILE_SUFFIX@[i - to_suffix]);
        }
    }
    assert(name[0] != '/');
    assert((series + "."@)[0] == name[0]);
    assert(name.last() == FILE_SUFFIX@.last());
    assert(path.last() == name.last());
    assert(trimmed(path) == path);
    if save_dir.len() == 0 {
        assert(path =~= name);
        lemma_no_slash(name);
        assert(save_dir =~= Seq::empty());
    } else if save_dir.last() == '/' {
        assert(path =~= save_dir.drop_last().push('/') + name);
        lemma_last_slash_before_name(save_dir.drop_last(), name);
        assert(path.take(save_dir.len() as int) =~= save_dir);
    } else {
        assert(path =~= save_dir.push('/') + name);
        lemma_last_slash_before_name(save_dir, name);
        assert(path.take(save_dir.len() as int + 1) =~= save_dir.push('/'));
        assert(save_dir.push('/').drop_last() =~= save_dir);
    }
}

/// The path of a log always has a directory, so that a place for another log beside it is always
/// found.
pub proof fn law_paths_have_a_directory(path: Seq<char>, save_dir: Seq<char>, series: Seq<char>)
    requires
        is_filename(path, save_dir, series),
    ensures
        parent_of(path) is Some,
{
    reveal_strlit(".hdrhistogram-interval-log.v2.gz");
    let (secs, id) = choose|secs: i64, id: u32|
        may_be_drawn(secs, id) && 0 <= secs <= LAST_SECOND && is_time_text(
            utc_text(secs, TIME_FORMAT@),
        ) && path == #[trigger] joined(
            save_dir,
            file_name(series, utc_text(secs, TIME_FORMAT@), id),
        );
    let name = file_name(series, utc_text(secs, TIME_FORMAT@), id);
    assert(name.last() == FILE_SUFFIX@.last());
    assert(path.last() == name.last());
    assert(trimmed(path) == path);
}

} // verus!

//! Several logs that share a writer, and the channel between them.
//!
//! The channel is modelled as what it is to the logs and the writer together: a queue of bounded
//! length, which takes a message if there is room and gives them out in the order in which it took
//! them. The writer is there until it is told to end. Each log is used and closed as the functions
//! of this library do it. What holds of every such run is stated as laws.

use vstd::multiset::Multiset;
use vstd::prelude::*;

use crate::channel::{Attempt, Delivery, EntryView, Outcome};
use crate::laws::{
    after, after_all, deliveries_of, law_writer_writes_all_in_order, lemma_attempt_taken, lines_of,
    values_taken, Op,
};
use crate::log::{drop_deadline, Closing, LogView};
use crate::scribe::{body_of, count_of, step_on, writable, StepView};
use crate::time::elapsed;

verus! {

/// A message in the channel, and which log it is from.
pub struct Sent {
    pub by: int,
    pub message: Option<EntryView>,
}

/// One log of several.
pub struct Slot<H> {
    pub log: LogView<H>,
    /// How far it has come in being closed, `None` while it is in use.
    pub closing: Option<Closing<H>>,
    /// The values that the log answers for: those that it was made with and those recorded in it,
    /// less those that a reset discarded.
    pub values: Multiset<u64>,
}

/// Logs that share a writer, and their channel.
pub struct System<H> {
    pub slots: Seq<Slot<H>>,
    /// What is in the channel, the earliest first.
    pub queue: Seq<Sent>,
    /// What the writer has received, the earliest first.
    pub received: Seq<Sent>,
}

/// Something that happens to one of the logs or to the writer.
pub enum Event {
    /// A log is used.
    Use(int, Op),
    /// A log is made from another one, with a tag, an interval, and the instant at which it begins.
    Copy(int, Seq<char>, nat, nat),
    /// A log takes a step of being closed, at an instant, when it is a time by the civil clock and
    /// this was tried for a while.
    Close(int, nat, int, nat),
    /// The writer receives a message.
    Receive,
}

impl<H> Slot<H> {
    /// How far the log has come in being closed; a log in use begins with sending what it holds.
    pub open spec fn state(self) -> Closing<H> {
        match self.closing {
            Some(closing) => closing,
            None => Closing::Flushing,
        }
    }

    /// Whether the log ends the writer.
    pub open spec fn ends(self) -> bool {
        self.state() is Ending || self.state() is Join
    }

    /// Whether the log has come to the end of being closed.
    pub open spec fn is_closed(self) -> bool {
        self.state() is Join || self.state() is Done
    }

    /// The log after a use.
    pub open spec fn used(self, op: Op) -> Slot<H> {
        Slot {
            log: after(self.log, op),
            values: match op {
                Op::Record(value) => self.values.insert(value),
                Op::Reset(_) => self.values.sub(self.log.hist.recorded),
                _ => self.values,
            },
            ..self
        }
    }

    /// A log made from this one.
    pub open spec fn copied(self, tag: Seq<char>, freq: nat, last_sent: nat) -> Slot<H> {
        Slot {
            log: self.log.copy(tag, freq, last_sent),
            closing: None,
            values: self.log.hist.recorded,
        }
    }

    /// The log after a step of being closed. One that cannot be closed for want of time is dropped,
    /// and its handle with it.
    pub open spec fn stepped(
        self,
        loop_time: nat,
        now: int,
        waited: nat,
        outcome: Outcome,
        sole: bool,
    ) -> Slot<H> {
        let (log, closing) = self.log.closed(
            self.state(),
            loop_time,
            now,
            waited,
            outcome,
            sole,
        );
        Slot {
            log: if closing is NoTime {
                log.released(sole).0
            } else {
                log
            },
            closing: Some(closing),
            ..self
        }
    }
}

impl<H> System<H> {
    /// A log in use, alone with its writer.
    pub open spec fn new(log: LogView<H>) -> System<H> {
        System {
            slots: seq![Slot { log, closing: None, values: log.hist.recorded }],
            queue: Seq::empty(),
            received: Seq::empty(),
        }
    }

    /// All messages that the channel took, the earliest first.
    pub open spec fn passed(self) -> Seq<Sent> {
        self.received + self.queue
    }

    /// Whether there is a log of that number.
    pub open spec fn has(self, i: int) -> bool {
        0 <= i < self.slots.len()
    }

    /// Whether log `i` alone holds a handle of the writer.
    pub open spec fn is_sole(self, i: int) -> bool {
        forall|j: int|
            0 <= j < self.slots.len() && j != i ==> (#[trigger] self.slots[j]).log.thread is None
    }

    /// What becomes of a message that log `i` offers.
    pub open spec fn outcome(self, i: int) -> Outcome {
        if self.queue.len() < self.slots[i].log.sender.capacity {
            Outcome::Taken
        } else {
            Outcome::Full
        }
    }

    /// What is in the channel when log `i` has become `log`: if it offered a message that was
    /// taken, that is the last one.
    pub open spec fn queue_after(self, i: int, log: LogView<H>) -> Seq<Sent> {
        let attempts = log.sender.attempts;
        let before = self.slots[i].log.sender.attempts;
        if attempts.len() > before.len() && attempts.last().outcome is Taken {
            self.queue.push(Sent { by: i, message: attempts.last().message })
        } else {
            self.queue
        }
    }

    /// The same with `slot` in the place of log `i`, and what it offered.
    pub open spec fn with(self, i: int, slot: Slot<H>) -> System<H> {
        System {
            slots: self.slots.update(i, slot),
            queue: self.queue_after(i, slot.log),
            ..self
        }
    }

    /// Whether an event can happen.
    ///
    /// A log in use can be used and copied, one that is not closed can be closed. A message that is
    /// offered is taken if there is room, and one that is waited for is offered when there is. The
    /// writer receives what there is until it is told to end.
    pub open spec fn possible(self, e: Event) -> bool {
        match e {
            Event::Use(i, op) => {
                &&& self.has(i)
                &&& self.slots[i].closing is None
                &&& match op {
                    Op::CheckSend(_, _, outcome) => outcome is Taken && self.outcome(i) is Taken,
                    Op::CheckTrySend(_, _, outcome) => outcome == self.outcome(i),
                    _ => true,
                }
            },
            Event::Copy(i, _, _, _) => self.has(i) && self.slots[i].closing is None,
            Event::Close(i, _, _, _) => self.has(i) && self.slots[i].state().goes_on(),
            Event::Receive => self.queue.len() > 0 && (self.received.len() > 0 ==> !(
            self.received.last().message is None)),
        }
    }

    /// Whether an event leaves a log that is closed the time that this takes: it has not tried for
    /// too long, and if it holds values some time has gone by since its interval began.
    pub open spec fn in_time(self, e: Event) -> bool {
        match e {
            Event::Close(i, loop_time, _, waited) => {
                let log = self.slots[i].log;
                &&& waited < drop_deadline()
                &&& log.hist.recorded.len() > 0 ==> elapsed(loop_time, log.last_sent) > 0
            },
            _ => true,
        }
    }

    /// What comes of an event.
    ///
    /// A log lets go of the writer's handle in one step. Two that do so at the same moment may each
    /// find the other's handle, and the writer is then not told to end; such logs are not spoken of
    /// here.
    pub open spec fn next(self, e: Event) -> System<H> {
        match e {
            Event::Use(i, op) => self.with(i, self.slots[i].used(op)),
            Event::Copy(i, tag, freq, last_sent) => System {
                slots: self.slots.push(self.slots[i].copied(tag, freq, last_sent)),
                ..self
            },
            Event::Close(i, loop_time, now, waited) => self.with(
                i,
                self.slots[i].stepped(loop_time, now, waited, self.outcome(i), self.is_sole(i)),
            ),
            Event::Receive => System {
                queue: self.queue.drop_first(),
                received: self.received.push(self.queue.first()),
                ..self
            },
        }
    }

    /// What comes of a run of events.
    pub open spec fn run(self, events: Seq<Event>) -> System<H>
        decreases events.len(),
    {
        if events.len() == 0 {
            self
        } else {
            self.run(events.drop_last()).next(events.last())
        }
    }

    /// Whether each event of a run can happen when its turn comes.
    pub open spec fn can_run(self, events: Seq<Event>) -> bool
        decreases events.len(),
    {
        events.len() > 0 ==> {
            &&& self.can_run(events.drop_last())
            &&& self.run(events.drop_last()).possible(events.last())
        }
    }

    /// Whether each event of a run leaves the logs the time that they need.
    pub open spec fn runs_in_time(self, events: Seq<Event>) -> bool
        decreases events.len(),
    {
        events.len() > 0 ==> {
            &&& self.runs_in_time(events.drop_last())
            &&& self.run(events.drop_last()).in_time(events.last())
        }
    }

    /// Whether every log has come to the end of being closed.
    pub open spec fn all_closed(self) -> bool {
        forall|i: int| 0 <= i < self.slots.len() ==> (#[trigger] self.slots[i]).is_closed()
    }
}

/// The messages in `sent` that are from log `i`.
pub open spec fn sent_by(sent: Seq<Sent>, i: int) -> Seq<Option<EntryView>>
    decreases sent.len(),
{
    if sent.len() == 0 {
        Seq::empty()
    } else {
        let before = sent_by(sent.drop_last(), i);
        if sent.last().by == i {
            before.push(sent.last().message)
        } else {
            before
        }
    }
}

/// The messages that the channel took.
pub open spec fn taken(attempts: Seq<Attempt>) -> Seq<Option<EntryView>>
    decreases attempts.len(),
{
    if attempts.len() == 0 {
        Seq::empty()
    } else {
        let before = taken(attempts.drop_last());
        if attempts.last().outcome is Taken {
            before.push(attempts.last().message)
        } else {
            before
        }
    }
}

/// The values in the entries among `messages`.
pub open spec fn values_of(messages: Seq<Option<EntryView>>) -> Multiset<u64>
    decreases messages.len(),
{
    if messages.len() == 0 {
        Multiset::empty()
    } else {
        let before = values_of(messages.drop_last());
        match messages.last() {
            Some(entry) => before.add(entry.hist.recorded),
            None => before,
        }
    }
}

impl<H> System<H> {
    /// What holds of the order of the messages and of who sends them.
    spec fn orderly(self) -> bool {
        &&& forall|i: int|
            #![trigger self.slots[i]]
            self.has(i) ==> {
                let slot = self.slots[i];
                &&& sent_by(self.passed(), i) == taken(slot.log.sender.attempts)
                &&& slot.log.thread is Some <==> slot.state() is Flushing
                &&& slot.ends() ==> forall|j: int|
                    #![trigger self.slots[j]]
                    self.has(j) ==> self.slots[j].log.thread is None
                &&& slot.state() is Join ==> self.passed().len() > 0
                    && self.passed().last().message is None
            }
        &&& forall|i: int, j: int|
            #![trigger self.slots[i], self.slots[j]]
            self.has(i) && self.has(j) && self.slots[i].ends() && self.slots[j].ends() ==> i == j
        &&& forall|k: int|
            #![trigger self.passed()[k]]
            0 <= k < self.passed().len() ==> {
                let sent = self.passed()[k];
                &&& self.has(sent.by)
                &&& sent.message is None ==> k == self.passed().len() - 1
                    && self.slots[sent.by].state() is Join
                &&& sent.message matches Some(entry) ==> entry.tag == self.slots[sent.by].log.tag
            }
    }

    /// What holds of the values when the logs have the time that they need.
    spec fn accounted(self) -> bool {
        &&& forall|i: int|
            #![trigger self.slots[i]]
            self.has(i) ==> {
                let slot = self.slots[i];
                &&& values_taken(slot.log.sender.attempts).add(slot.log.hist.recorded)
                    == slot.values
                &&& slot.state() is Flushing || slot.log.hist.recorded.len() == 0
                &&& !(slot.state() is NoTime)
            }
        &&& (forall|i: int|
            #![trigger self.slots[i]]
            self.has(i) ==> self.slots[i].log.thread is None) ==> exists|i: int|
            #![trigger self.slots[i]]
            self.has(i) && self.slots[i].ends()
    }
}

proof fn lemma_sent_by_push(sent: Seq<Sent>, s: Sent, i: int)
    ensures
        sent_by(sent.push(s), i) == if s.by == i {
            sent_by(sent, i).push(s.message)
        } else {
            sent_by(sent, i)
        },
{
    assert(sent.push(s).drop_last() =~= sent);
}

proof fn lemma_taken_push(attempts: Seq<Attempt>, a: Attempt)
    ensures
        taken(attempts.push(a)) == if a.outcome is Taken {
            taken(attempts).push(a.message)
        } else {
            taken(attempts)
        },
{
    assert(attempts.push(a).drop_last() =~= attempts);
}

proof fn lemma_sent_by_nobody(sent: Seq<Sent>, i: int)
    requires
        forall|k: int| 0 <= k < sent.len() ==> (#[trigger] sent[k]).by != i,
    ensures
        sent_by(sent, i) == Seq::<Option<EntryView>>::empty(),
    decreases sent.len(),
{
    if sent.len() > 0 {
        assert(sent[sent.len() - 1].by != i);
        assert forall|k: int| 0 <= k < sent.drop_last().len() implies (
        #[trigger] sent.drop_last()[k]).by != i by {
            assert(sent[k].by != i);
        }
        lemma_sent_by_nobody(sent.drop_last(), i);
    }
}

proof fn lemma_values_of_taken(attempts: Seq<Attempt>)
    ensures
        values_of(taken(attempts)) == values_taken(attempts),
    decreases attempts.len(),
{
    if attempts.len() > 0 {
        lemma_values_of_taken(attempts.drop_last());
        let before = taken(attempts.drop_last());
        assert(before.push(attempts.last().message).drop_last() =~= before);
    }
}

/// Whether a log became another by offering `message`.
spec fn offers_one<H>(before: LogView<H>, after: LogView<H>, message: Option<EntryView>) -> bool {
    exists|outcome: Outcome|
        after.sender.attempts == #[trigger] before.sender.attempts.push(
            Attempt { message, outcome },
        )
}

proof fn lemma_orderly_with<H>(system: System<H>, i: int, slot: Slot<H>, message: Option<EntryView>)
    requires
        system.orderly(),
        system.has(i),
        system.slots[i].state().goes_on(),
        slot.log.sender.attempts == system.slots[i].log.sender.attempts || offers_one(
            system.slots[i].log,
            slot.log,
            message,
        ),
        system.slots[i].state() is Flushing ==> message is Some,
        system.slots[i].state() is Ending ==> message is None,
        slot.log.tag == system.slots[i].log.tag,
        message matches Some(entry) ==> entry.tag == slot.log.tag,
        slot.log.thread is Some <==> slot.state() is Flushing,
        slot.log.thread is Some ==> system.slots[i].log.thread is Some,
        slot.state() is Ending ==> system.is_sole(i),
        slot.state() is Join <==> system.slots[i].state() is Ending
            && system.queue_after(i, slot.log) != system.queue,
    ensures
        system.with(i, slot).orderly(),
{
    let next = system.with(i, slot);
    let before = system.slots[i];
    assert(next.slots.len() == system.slots.len());
    assert(next.slots[i] == slot);
    assert forall|j: int| next.has(j) && j != i implies next.slots[j] == system.slots[j] by {}
    let attempts = slot.log.sender.attempts;
    if attempts != before.log.sender.attempts {
        lemma_taken_push(before.log.sender.attempts, attempts.last());
    }
    if next.queue == system.queue {
        assert(next.passed() =~= system.passed());
    } else {
        let sent = Sent { by: i, message };
        assert(next.passed() =~= system.passed().push(sent));
        assert forall|j: int| true implies #[trigger] sent_by(next.passed(), j) == if j == i {
            sent_by(system.passed(), j).push(message)
        } else {
            sent_by(system.passed(), j)
        } by {
            lemma_sent_by_push(system.passed(), sent, j);
        }
        assert forall|k: int| 0 <= k < system.passed().len() implies (
        #[trigger] system.passed()[k]).message is Some by {
            let s = system.passed()[k];
            if s.message is None {
                assert(system.slots[s.by].ends());
            }
        }
    }
}

proof fn lemma_orderly_next<H>(system: System<H>, e: Event)
    requires
        system.orderly(),
        system.possible(e),
    ensures
        system.next(e).orderly(),
{
    let next = system.next(e);
    match e {
        Event::Use(i, op) => {
            let before = system.slots[i];
            let slot = before.used(op);
            match op {
                Op::CheckSend(loop_time, now, outcome) | Op::CheckTrySend(
                    loop_time,
                    now,
                    outcome,
                ) => {
                    let message = Some(before.log.entry(loop_time, now));
                    if before.log.expired(loop_time) {
                        assert(slot.log.sender.attempts == before.log.sender.attempts.push(
                            Attempt { message, outcome },
                        ));
                    }
                    lemma_orderly_with(system, i, slot, message);
                },
                _ => {
                    lemma_orderly_with(system, i, slot, Some(before.log.entry(0, 0)));
                },
            }
        },
        Event::Copy(i, tag, freq, last_sent) => {
            let n = system.slots.len() as int;
            assert(next.passed() =~= system.passed());
            assert forall|j: int| system.has(j) implies next.slots[j] == system.slots[j] by {}
            assert forall|k: int| 0 <= k < next.passed().len() implies (
            #[trigger] next.passed()[k]).by != n by {
                assert(system.has(system.passed()[k].by));
            }
            lemma_sent_by_nobody(next.passed(), n);
            assert(system.slots[i].log.thread is Some);
        },
        Event::Close(i, loop_time, now, waited) => {
            let before = system.slots[i];
            let outcome = system.outcome(i);
            let slot = before.stepped(loop_time, now, waited, outcome, system.is_sole(i));
            let message = if before.state() is Flushing {
                Some(before.log.entry(loop_time, now))
            } else {
                None
            };
            if slot.log.sender.attempts != before.log.sender.attempts {
                assert(slot.log.sender.attempts == before.log.sender.attempts.push(
                    Attempt { message, outcome },
                ));
            }
            assert(slot.log.thread is Some <==> slot.state() is Flushing);
            lemma_orderly_with(system, i, slot, message);
        },
        Event::Receive => {
            assert(next.passed() =~= system.passed());
        },
    }
}

proof fn lemma_accounted_with<H>(system: System<H>, i: int, slot: Slot<H>)
    requires
        system.orderly(),
        system.accounted(),
        system.has(i),
        values_taken(slot.log.sender.attempts).add(slot.log.hist.recorded) == slot.values,
        slot.state() is Flushing || slot.log.hist.recorded.len() == 0,
        !(slot.state() is NoTime),
        slot.log.thread is Some || slot.ends() || !system.is_sole(i),
    ensures
        system.with(i, slot).accounted(),
{
    let next = system.with(i, slot);
    assert(next.slots[i] == slot);
    assert forall|j: int| next.has(j) && j != i implies next.slots[j] == system.slots[j] by {}
    if (forall|j: int| #![trigger next.slots[j]] next.has(j) ==> next.slots[j].log.thread is None)
        && !slot.ends() {
        assert forall|j: int| 0 <= j < system.slots.len() && j != i implies (
        #[trigger] system.slots[j]).log.thread is None by {
            assert(next.slots[j].log.thread is None);
        }
        assert(system.is_sole(i));
    }
}

proof fn lemma_accounted_next<H>(system: System<H>, e: Event)
    requires
        system.orderly(),
        system.accounted(),
        system.possible(e),
        system.in_time(e),
    ensures
        system.next(e).accounted(),
{
    let next = system.next(e);
    match e {
        Event::Use(i, op) => {
            let before = system.slots[i];
            let slot = before.used(op);
            match op {
                Op::CheckSend(loop_time, now, outcome) | Op::CheckTrySend(
                    loop_time,
                    now,
                    outcome,
                ) => {
                    lemma_attempt_taken(
                        before.log.sender.attempts,
                        Attempt { message: Some(before.log.entry(loop_time, now)), outcome },
                    );
                },
                _ => {},
            }
            assert(values_taken(slot.log.sender.attempts).add(slot.log.hist.recorded)
                =~= slot.values);
            lemma_accounted_with(system, i, slot);
        },
        Event::Copy(i, tag, freq, last_sent) => {
            let copy = system.slots[i].copied(tag, freq, last_sent);
            assert(values_taken(copy.log.sender.attempts).add(copy.log.hist.recorded)
                =~= copy.values);
            assert forall|j: int| system.has(j) implies next.slots[j] == system.slots[j] by {}
            assert(next.slots[system.slots.len() as int].log.thread is Some);
        },
        Event::Close(i, loop_time, now, waited) => {
            let before = system.slots[i];
            let outcome = system.outcome(i);
            let slot = before.stepped(loop_time, now, waited, outcome, system.is_sole(i));
            lemma_attempt_taken(
                before.log.sender.attempts,
                Attempt { message: Some(before.log.entry(loop_time, now)), outcome },
            );
            lemma_attempt_taken(
                before.log.sender.attempts,
                Attempt { message: None, outcome },
            );
            assert(values_taken(slot.log.sender.attempts).add(slot.log.hist.recorded)
                =~= slot.values);
            lemma_accounted_with(system, i, slot);
        },
        Event::Receive => {
            assert(next.slots == system.slots);
        },
    }
}

proof fn lemma_runs<H>(log: LogView<H>, events: Seq<Event>)
    requires
        log.thread is Some,
        log.sender.attempts.len() == 0,
        System::new(log).can_run(events),
    ensures
        System::new(log).run(events).orderly(),
        System::new(log).runs_in_time(events) ==> System::new(log).run(events).accounted(),
    decreases events.len(),
{
    let start = System::new(log);
    if events.len() == 0 {
        assert(start.slots[0].log.thread is Some);
        assert(values_taken(log.sender.attempts).add(log.hist.recorded) =~= log.hist.recorded);
    } else {
        lemma_runs(log, events.drop_last());
        lemma_orderly_next(start.run(events.drop_last()), events.last());
        if start.runs_in_time(events) {
            lemma_accounted_next(start.run(events.drop_last()), events.last());
        }
    }
}

/// What the channel took from a log passes through it in the order in which the log sent it.
pub proof fn law_messages_keep_their_order<H>(log: LogView<H>, events: Seq<Event>, i: int)
    requires
        log.thread is Some,
        log.sender.attempts.len() == 0,
        System::new(log).can_run(events),
        System::new(log).run(events).has(i),
    ensures
        ({
            let end = System::new(log).run(events);
            sent_by(end.passed(), i) == taken(end.slots[i].log.sender.attempts)
        }),
{
    lemma_runs(log, events);
    assert(System::new(log).run(events).slots[i] == System::new(log).run(events).slots[i]);
}

/// Entries are identifiable by their tag: each one that passes through the channel has the tag of
/// the log that sent it.
pub proof fn law_entries_have_the_tag_of_their_log<H>(log: LogView<H>, events: Seq<Event>, k: int)
    requires
        log.thread is Some,
        log.sender.attempts.len() == 0,
        System::new(log).can_run(events),
        0 <= k < System::new(log).run(events).passed().len(),
        System::new(log).run(events).passed()[k].message is Some,
    ensures
        ({
            let end = System::new(log).run(events);
            let sent = end.passed()[k];
            end.has(sent.by) && sent.message->0.tag == end.slots[sent.by].log.tag
        }),
{
    lemma_runs(log, events);
}

/// The writer is told to end once at most, and after everything else: by a log that was the last to
/// let go of it, when no log has a hold of it any more.
pub proof fn law_writer_is_told_to_end_last<H>(log: LogView<H>, events: Seq<Event>, k: int)
    requires
        log.thread is Some,
        log.sender.attempts.len() == 0,
        System::new(log).can_run(events),
        0 <= k < System::new(log).run(events).passed().len(),
        System::new(log).run(events).passed()[k].message is None,
    ensures
        ({
            let end = System::new(log).run(events);
            &&& k == end.passed().len() - 1
            &&& end.slots[end.passed()[k].by].state() is Join
            &&& forall|i: int|
                0 <= i < end.slots.len() ==> (#[trigger] end.slots[i]).log.thread is None
            &&& forall|i: int|
                0 <= i < end.slots.len() && i != end.passed()[k].by ==> !(
                #[trigger] end.slots[i]).ends()
        }),
{
    lemma_runs(log, events);
    let end = System::new(log).run(events);
    let by = end.passed()[k].by;
    assert(end.has(by) && end.slots[by].ends());
}

/// Once all logs are closed, and had the time that this takes, the last of them has told the writer
/// to end and waits for it, and every value that a log answers for is in an entry that was sent
/// before.
pub proof fn law_closed_logs_have_sent_everything<H>(log: LogView<H>, events: Seq<Event>)
    requires
        log.thread is Some,
        log.sender.attempts.len() == 0,
        System::new(log).can_run(events),
        System::new(log).runs_in_time(events),
        System::new(log).run(events).all_closed(),
    ensures
        ({
            let end = System::new(log).run(events);
            let passed = end.passed();
            &&& passed.len() > 0
            &&& passed.last().message is None
            &&& end.has(passed.last().by) && end.slots[passed.last().by].state() is Join
            &&& forall|k: int|
                0 <= k < passed.len() - 1 ==> (#[trigger] passed[k]).message is Some
            &&& forall|i: int|
                0 <= i < end.slots.len() ==> values_of(sent_by(passed, i)) == (
                #[trigger] end.slots[i]).values
        }),
{
    lemma_runs(log, events);
    let end = System::new(log).run(events);
    let passed = end.passed();
    assert forall|i: int| end.has(i) implies (#[trigger] end.slots[i]).log.thread is None by {
        assert(end.slots[i].is_closed());
    }
    let last = choose|i: int| #![trigger end.slots[i]] end.has(i) && end.slots[i].ends();
    assert(end.slots[last].is_closed());
    assert(end.slots[last].state() is Join);
    assert(passed[passed.len() - 1].message is None);
    assert forall|i: int| 0 <= i < end.slots.len() implies values_of(sent_by(passed, i)) == (
    #[trigger] end.slots[i]).values by {
        let slot = end.slots[i];
        assert(slot.is_closed());
        lemma_values_of_taken(slot.log.sender.attempts);
        vstd::multiset::lemma_multiset_empty_len(slot.log.hist.recorded);
        assert(values_taken(slot.log.sender.attempts).add(slot.log.hist.recorded) =~= values_taken(
            slot.log.sender.attempts,
        ));
    }
}

/// What the writer gets of `sent`.
pub open spec fn delivered(sent: Seq<Sent>) -> Seq<Delivery> {
    sent.map_values(
        |s: Sent|
            match s.message {
                Some(entry) => Delivery::Entry(entry),
                None => Delivery::End,
            },
    )
}

/// The entries in `sent`, if there is nothing else in it.
pub open spec fn entries_of(sent: Seq<Sent>) -> Seq<EntryView> {
    sent.map_values(|s: Sent| s.message->0)
}

/// What is recorded gets into the file: once all logs are closed, and had the time that this takes,
/// and the writer has got the message to end, it has written a line for each entry that the logs
/// sent, in the order in which they were sent and with the tag of the log that sent it, and every
/// value that a log answers for is in one of that log's entries.
pub proof fn law_recorded_values_reach_the_file<H>(log: LogView<H>, events: Seq<Event>)
    requires
        log.thread is Some,
        log.sender.attempts.len() == 0,
        System::new(log).can_run(events),
        System::new(log).runs_in_time(events),
        System::new(log).run(events).all_closed(),
        System::new(log).run(events).queue.len() == 0,
        ({
            let received = System::new(log).run(events).received;
            forall|k: int|
                0 <= k < received.len() - 1 ==> writable((#[trigger] received[k]).message->0)
        }),
    ensures
        ({
            let end = System::new(log).run(events);
            let entries = entries_of(end.received.drop_last());
            &&& end.received.len() > 0
            &&& delivered(end.received) == deliveries_of(entries).push(Delivery::End)
            &&& body_of(delivered(end.received)) == lines_of(entries)
            &&& count_of(delivered(end.received)) == entries.len()
            &&& step_on(count_of(deliveries_of(entries)), delivered(end.received).last())
                == StepView::Stop(entries.len())
            &&& forall|k: int|
                0 <= k < end.received.len() - 1 ==> end.has((#[trigger] end.received[k]).by)
                    && end.received[k].message is Some && end.received[k].message->0.tag
                    == end.slots[end.received[k].by].log.tag
            &&& forall|i: int|
                0 <= i < end.slots.len() ==> values_of(sent_by(end.received.drop_last(), i)) == (
                #[trigger] end.slots[i]).values
        }),
{
    law_closed_logs_have_sent_everything(log, events);
    let end = System::new(log).run(events);
    let received = end.received;
    assert(end.passed() =~= received);
    let entries = entries_of(received.drop_last());
    assert forall|k: int| 0 <= k < entries.len() implies writable(#[trigger] entries[k]) by {
        assert(entries[k] == received[k].message->0);
    }
    law_writer_writes_all_in_order(entries);
    assert forall|k: int| 0 <= k < received.len() - 1 implies end.has((#[trigger] received[k]).by)
        && received[k].message is Some && received[k].message->0.tag
        == end.slots[received[k].by].log.tag by {
        assert(end.passed()[k].message is Some);
        law_entries_have_the_tag_of_their_log(log, events, k);
    }
    assert(delivered(received) =~= deliveries_of(entries).push(Delivery::End)) by {
        assert forall|k: int| 0 <= k < received.len() implies #[trigger] delivered(received)[k]
            == deliveries_of(entries).push(Delivery::End)[k] by {
            if k < received.len() - 1 {
                assert(received[k].message is Some);
            }
        }
    }
    assert(delivered(received).drop_last() =~= deliveries_of(entries));
    assert(delivered(received).last() == Delivery::End);
    assert(lines_of(entries) + Seq::<char>::empty() =~= lines_of(entries));
    assert forall|i: int| 0 <= i < end.slots.len() implies values_of(
        sent_by(received.drop_last(), i),
    ) == (#[trigger] end.slots[i]).values by {
        let before = sent_by(received.drop_last(), i);
        assert(received =~= received.drop_last().push(received.last()));
        lemma_sent_by_push(received.drop_last(), received.last(), i);
        assert(before.push(None).drop_last() =~= before);
    }
}

/// What a check of a log puts into the channel is the entry of its interval, once, and nothing
/// else: if more time than the interval has gone by and there is room, the messages that have
/// passed are those that had passed before and this one; and otherwise they are the same.
pub proof fn law_a_check_sends_one_message<H>(
    system: System<H>,
    i: int,
    loop_time: nat,
    now: int,
    waits: bool,
)
    requires
        system.has(i),
        system.slots[i].closing is None,
        waits ==> system.queue.len() < system.slots[i].log.sender.capacity,
    ensures
        ({
            let log = system.slots[i].log;
            let room = system.queue.len() < log.sender.capacity;
            let outcome = if room {
                Outcome::Taken
            } else {
                Outcome::Full
            };
            let op = if waits {
                Op::CheckSend(loop_time, now, outcome)
            } else {
                Op::CheckTrySend(loop_time, now, outcome)
            };
            let next = system.next(Event::Use(i, op));
            let n = system.passed().len() as int;
            &&& system.possible(Event::Use(i, op))
            &&& loop_time - log.last_sent > log.freq && room ==> {
                &&& next.passed().len() == n + 1
                &&& next.passed().take(n) =~= system.passed()
                &&& next.passed()[n].by == i
                &&& next.passed()[n].message matches Some(entry) && {
                    &&& entry.tag == log.tag
                    &&& entry.hist == log.hist
                    &&& entry.end == now
                    &&& entry.end - entry.start == loop_time - log.last_sent
                }
            }
            &&& loop_time - log.last_sent <= log.freq || !room ==> next.passed() =~= system.passed()
        }),
{
}

/// The last log ends the writer: if no other log holds a handle, and it has nothing to send or room
/// for it, a step of closing it gives the handle out, and if there is room the next step tells the
/// writer to end, as the one message that it puts into the channel, and leaves the handle to be
/// waited for.
pub proof fn law_last_log_ends_the_writer<H>(
    system: System<H>,
    i: int,
    handle: H,
    loop_time: nat,
    now: int,
    waited: nat,
    later: nat,
    then: int,
    waited_then: nat,
)
    requires
        system.has(i),
        system.slots[i].closing is None,
        system.slots[i].log.thread == Some(handle),
        forall|j: int|
            0 <= j < system.slots.len() && j != i ==> (
            #[trigger] system.slots[j]).log.thread is None,
        waited < 5_000_000,
        waited_then < 5_000_000,
        system.slots[i].log.hist.recorded.len() == 0 || loop_time > system.slots[i].log.last_sent,
        system.queue.len() + 1 < system.slots[i].log.sender.capacity,
    ensures
        ({
            let flushed = system.next(Event::Close(i, loop_time, now, waited));
            let ended = flushed.next(Event::Close(i, later, then, waited_then));
            let n = flushed.passed().len() as int;
            &&& flushed.slots[i].closing == Some(Closing::Ending(handle))
            &&& flushed.slots[i].log.thread is None
            &&& ended.slots[i].closing == Some(Closing::Join(handle))
            &&& ended.passed().len() == n + 1 && ended.passed().take(n) =~= flushed.passed()
            &&& ended.passed()[n].by == i && ended.passed()[n].message is None
            &&& system.slots[i].log.hist.recorded.len() == 0 ==> flushed.passed()
                =~= system.passed()
            &&& system.slots[i].log.hist.recorded.len() > 0 ==> {
                &&& n == system.passed().len() + 1
                &&& flushed.passed()[n - 1].message matches Some(entry)
                &&& entry.hist == system.slots[i].log.hist
                &&& entry.tag == system.slots[i].log.tag
            }
        }),
{
    assert(system.is_sole(i));
}

/// A log that is not the last one does not end the writer: as long as another one holds a handle,
/// closing it gives no handle out and puts no message to end into the channel.
pub proof fn law_other_logs_leave_the_writer<H>(
    system: System<H>,
    i: int,
    j: int,
    loop_time: nat,
    now: int,
    waited: nat,
)
    requires
        system.has(i),
        system.has(j),
        i != j,
        system.slots[i].closing is None,
        system.slots[j].log.thread is Some,
    ensures
        ({
            let next = system.next(Event::Close(i, loop_time, now, waited));
            let n = system.passed().len() as int;
            &&& !(next.slots[i].state() is Ending) && !(next.slots[i].state() is Join)
            &&& next.passed() =~= system.passed() || (next.passed().len() == n + 1
                && next.passed().take(n) =~= system.passed() && next.passed()[n].message is Some)
        }),
{
    assert(!system.is_sole(i)) by {
        assert(system.slots[j].log.thread is Some);
    }
}

/// Which log an event is about.
pub open spec fn subject(e: Event) -> int {
    match e {
        Event::Use(i, _) => i,
        Event::Copy(i, _, _, _) => i,
        Event::Close(i, _, _, _) => i,
        Event::Receive => -1,
    }
}

/// What happens to one log leaves the others as they are, those made from it and the one that it
/// was made from too; and making a log from another leaves that one as it is.
pub proof fn law_logs_are_independent<H>(system: System<H>, e: Event, i: int)
    requires
        system.possible(e),
        system.has(i),
        i != subject(e) || e is Copy,
    ensures
        system.next(e).slots[i] == system.slots[i],
{
}

/// A channel that nobody reads takes as many entries as it can hold and no more: of a new log's
/// attempts to send without waiting, each after an interval is over, the first ones are taken, as
/// many as the channel can hold, and all others find it full.
pub proof fn law_unread_channel_fills_up<H>(log: LogView<H>, ops: Seq<Op>)
    requires
        ops.len() > 0,
        System::new(log).can_run(uses(ops)),
        polls(log, ops),
    ensures
        ops.last()->CheckTrySend_2 == if ops.len() <= log.sender.capacity {
            Outcome::Taken
        } else {
            Outcome::Full
        },
        ops.len() <= log.sender.capacity ==> System::new(log).run(uses(ops)).queue.len()
            == ops.len(),
        ops.len() > log.sender.capacity ==> System::new(log).run(uses(ops)).queue.len()
            == log.sender.capacity,
{
    lemma_unread_channel(log, ops);
}

/// Uses of the only log.
pub open spec fn uses(ops: Seq<Op>) -> Seq<Event> {
    ops.map_values(|op: Op| Event::Use(0, op))
}

/// Whether each use is an attempt to send without waiting after an interval is over.
pub open spec fn polls<H>(log: LogView<H>, ops: Seq<Op>) -> bool
    decreases ops.len(),
{
    ops.len() > 0 ==> {
        &&& polls(log, ops.drop_last())
        &&& ops.last() matches Op::CheckTrySend(loop_time, _, _) && after_all(
            log,
            ops.drop_last(),
        ).expired(loop_time)
    }
}

proof fn lemma_unread_channel<H>(log: LogView<H>, ops: Seq<Op>)
    requires
        System::new(log).can_run(uses(ops)),
        polls(log, ops),
    ensures
        ({
            let end = System::new(log).run(uses(ops));
            &&& end.slots.len() == 1
            &&& end.slots[0].log == after_all(log, ops)
            &&& end.slots[0].log.sender.capacity == log.sender.capacity
            &&& end.queue.len() == if ops.len() <= log.sender.capacity {
                ops.len()
            } else {
                log.sender.capacity
            }
            &&& ops.len() > 0 ==> ops.last()->CheckTrySend_2 == if ops.len()
                <= log.sender.capacity {
                Outcome::Taken
            } else {
                Outcome::Full
            }
        }),
    decreases ops.len(),
{
    if ops.len() > 0 {
        assert(uses(ops).drop_last() =~= uses(ops.drop_last()));
        lemma_unread_channel(log, ops.drop_last());
    }
}

} // verus!

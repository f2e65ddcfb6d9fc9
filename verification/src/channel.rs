//! The channel between the logs and their writer.

use crossbeam_channel::{Receiver, Sender};
use vstd::prelude::*;

use crate::hist::{Hist, HistView};
use crate::time::Timestamp;
use crate::{Tag, CHANNEL_SIZE};

verus! {

/// One interval of one log.
#[derive(Debug)]
pub struct Entry {
    pub tag: Tag,
    pub start: Timestamp,
    pub end: Timestamp,
    pub hist: Hist,
}

/// What an [`Entry`] holds.
#[verifier::ext_equal]
pub struct EntryView {
    pub tag: Seq<char>,
    /// Nanoseconds from the Unix epoch.
    pub start: int,
    /// Nanoseconds from the Unix epoch.
    pub end: int,
    pub hist: HistView,
}

impl View for Entry {
    type V = EntryView;

    open spec fn view(&self) -> EntryView {
        EntryView {
            tag: self.tag@,
            start: self.start.nanos as int,
            end: self.end.nanos as int,
            hist: self.hist@,
        }
    }
}

/// A message to the writer: an entry to write, or `None` to end.
pub type Message = Option<Entry>;

/// What a message holds.
pub open spec fn message_view(m: Message) -> Option<EntryView> {
    match m {
        Some(entry) => Some(entry@),
        None => None,
    }
}

/// What became of a message that was offered to the channel.
#[derive(Clone, Copy, Debug, PartialEq, Eq, Structural)]
pub enum Outcome {
    /// The channel took it.
    Taken,
    /// The channel was full.
    Full,
    /// The receiving end was gone.
    Disconnected,
}

/// A message that was offered to the channel, and what became of it.
#[verifier::ext_equal]
pub struct Attempt {
    pub message: Option<EntryView>,
    pub outcome: Outcome,
}

/// What is known of the sending end of a channel.
#[verifier::ext_equal]
pub struct SenderView {
    /// Which channel it is an end of: equal for all ends of one channel.
    pub channel: nat,
    /// How many messages the channel can hold.
    pub capacity: nat,
    /// The messages offered through this end so far, the earliest first.
    pub attempts: Seq<Attempt>,
    /// How many of them were offered by a call that waits while the channel is full.
    pub waits: nat,
}

impl SenderView {
    /// This end after `message` was offered without waiting.
    pub open spec fn offered(self, message: Option<EntryView>, outcome: Outcome) -> SenderView {
        SenderView { attempts: self.attempts.push(Attempt { message, outcome }), ..self }
    }

    /// This end after `message` was offered by a call that waits while the channel is full.
    pub open spec fn waited(self, message: Option<EntryView>, outcome: Outcome) -> SenderView {
        SenderView { waits: self.waits + 1, ..self.offered(message, outcome) }
    }

    /// Another end of the same channel, through which nothing was offered.
    pub open spec fn another(self) -> SenderView {
        SenderView { attempts: Seq::empty(), waits: 0, ..self }
    }
}

/// What one call of [`recv`] gave.
pub enum Delivery {
    /// An entry to write.
    Entry(EntryView),
    /// The message to end.
    End,
    /// Nothing: every sending end is gone.
    Closed,
}

/// What a received message holds.
pub open spec fn delivery_view(received: Option<Message>) -> Delivery {
    match received {
        Some(Some(entry)) => Delivery::Entry(entry@),
        Some(None) => Delivery::End,
        None => Delivery::Closed,
    }
}

/// What is known of the receiving end of a channel.
#[verifier::ext_equal]
pub struct ReceiverView {
    /// Which channel it is an end of: equal for all ends of one channel.
    pub channel: nat,
    /// What came out of this end so far, the earliest first.
    pub deliveries: Seq<Delivery>,
}

/// A message that the channel did not take at once.
#[derive(Debug)]
pub enum Rejected {
    /// The channel was full.
    Full(Message),
    /// The receiving end was gone.
    Disconnected(Message),
}

/// What an attempt to send at once has come to.
pub open spec fn outcome_of(r: Result<(), Rejected>) -> Outcome {
    match r {
        Ok(_) => Outcome::Taken,
        Err(Rejected::Full(_)) => Outcome::Full,
        Err(Rejected::Disconnected(_)) => Outcome::Disconnected,
    }
}

/// What waiting for a message to be sent has come to.
pub open spec fn sent_outcome(taken: bool) -> Outcome {
    if taken {
        Outcome::Taken
    } else {
        Outcome::Disconnected
    }
}

/// The sending end of a channel, `crossbeam_channel::Sender`, declared as opaque.
#[verifier::external_type_specification]
#[verifier::external_body]
#[verifier::reject_recursive_types(T)]
pub struct ExSender<T>(crossbeam_channel::Sender<T>);

/// The receiving end of a channel, `crossbeam_channel::Receiver`, declared as opaque.
#[verifier::external_type_specification]
#[verifier::external_body]
#[verifier::reject_recursive_types(T)]
pub struct ExReceiver<T>(crossbeam_channel::Receiver<T>);

/// The channel that a sending end belongs to, its capacity, and what was offered through this end.
pub uninterp spec fn sender_view(tx: Sender<Message>) -> SenderView;

/// The channel that a receiving end belongs to, and what came out of this end.
pub uninterp spec fn receiver_view(rx: Receiver<Message>) -> ReceiverView;

/// Makes a channel with `crossbeam_channel::bounded`.
///
/// Claimed of it: both ends belong to one channel, which holds `cap` messages at most; nothing was
/// offered to it and nothing came out of it yet.
#[verifier::external_body]
pub(crate) fn bounded(cap: usize) -> (ends: (Sender<Message>, Receiver<Message>))
    requires
        0 < cap <= CHANNEL_SIZE,
    ensures
        sender_view(ends.0).channel == receiver_view(ends.1).channel,
        sender_view(ends.0).capacity == cap,
        sender_view(ends.0).attempts == Seq::<Attempt>::empty(),
        sender_view(ends.0).waits == 0,
        receiver_view(ends.1).deliveries == Seq::<Delivery>::empty(),
{
    crossbeam_channel::bounded(cap)
}

/// Sends a message with `crossbeam_channel::Sender::send`, waiting while the channel is full.
///
/// Claimed of it: the message is offered once, and this may wait; the result says whether the
/// channel took it or the receiving end was gone. Which of the two depends on the other side.
#[verifier::external_body]
pub(crate) fn send_message(tx: &mut Sender<Message>, message: Message) -> (taken: bool)
    ensures
        sender_view(*final(tx)) == sender_view(*old(tx)).waited(
            message_view(message),
            sent_outcome(taken),
        ),
    opens_invariants none
{
    tx.send(message).is_ok()
}

/// Sends a message with `crossbeam_channel::Sender::try_send`, without waiting.
///
/// Claimed of it: the message is offered once, without waiting, and handed back if the channel did
/// not take it. Which of the three outcomes it is depends on the other side.
#[verifier::external_body]
pub(crate) fn try_send_message(tx: &mut Sender<Message>, message: Message) -> (r: Result<
    (),
    Rejected,
>)
    ensures
        sender_view(*final(tx)) == sender_view(*old(tx)).offered(
            message_view(message),
            outcome_of(r),
        ),
        r matches Err(Rejected::Full(back)) ==> back == message,
        r matches Err(Rejected::Disconnected(back)) ==> back == message,
    opens_invariants none
{
    match tx.try_send(message) {
        Ok(()) => Ok(()),
        Err(crossbeam_channel::TrySendError::Full(back)) => Err(Rejected::Full(back)),
        Err(crossbeam_channel::TrySendError::Disconnected(back)) => Err(
            Rejected::Disconnected(back),
        ),
    }
}

/// Makes another sending end with `crossbeam_channel::Sender`'s `Clone`.
///
/// Claimed of it: it is an end of the same channel, and nothing was offered through it yet.
#[verifier::external_body]
pub(crate) fn another_sender(tx: &Sender<Message>) -> (other: Sender<Message>)
    ensures
        sender_view(other) == sender_view(*tx).another(),
    opens_invariants any
{
    tx.clone()
}

/// Receives a message with `crossbeam_channel::Receiver::recv`, waiting while there is none.
///
/// Returns `None` if the channel is empty and every sending end is gone. Claimed of it: what it
/// returns is the next thing to come out of this end. What that is depends on the other side.
#[verifier::external_body]
pub(crate) fn recv(rx: &mut Receiver<Message>) -> (received: Option<Message>)
    ensures
        receiver_view(*final(rx)).channel == receiver_view(*old(rx)).channel,
        receiver_view(*final(rx)).deliveries == receiver_view(*old(rx)).deliveries.push(
            delivery_view(received),
        ),
{
    rx.recv().ok()
}

} // verus!

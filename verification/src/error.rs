//! What can go wrong while using a log.

use vstd::prelude::*;

use crate::hist::RecordError;

verus! {

/// Why a message was not sent without waiting.
#[derive(Clone, Copy, Debug, PartialEq, Eq, Structural)]
pub enum TrySendError {
    /// The channel to the writer holds as many messages as it can.
    Full,
    /// The writer is gone.
    Disconnected,
}

/// The kinds of i/o error that the library reports by itself.
#[derive(Clone, Copy, Debug, PartialEq, Eq, Structural)]
pub enum IoErrorKind {
    /// A path that cannot be used was given.
    InvalidInput,
    /// Anything else.
    Other,
}

/// An i/o error, as its kind and its message.
#[derive(Debug)]
pub struct IoError {
    pub kind: IoErrorKind,
    pub message: String,
}

/// Unifies all the errors that might occur from using a `HistLog` in one enum.
#[derive(Debug)]
pub enum Error {
    Io(IoError),
    HdrRecord(RecordError),
    TrySend(TrySendError),
}

/// The text of a `RecordError`.
pub open spec fn record_error_text(e: RecordError) -> Seq<char> {
    match e {
        RecordError::ValueOutOfRangeResizeDisabled =>
        "The value to record is not representable in this histogram and resizing is disabled"@,
        RecordError::ResizeFailedUsizeTypeTooSmall =>
        "Auto resizing is enabled and must be used to represent the provided value, but the histogram cannot be resized because `usize` cannot represent sufficient length"@,
    }
}

/// The text of a `TrySendError`.
pub open spec fn try_send_error_text(e: TrySendError) -> Seq<char> {
    match e {
        TrySendError::Full => "sending on a full channel"@,
        TrySendError::Disconnected => "sending on a disconnected channel"@,
    }
}

/// The text of an `Error`: the name of its variant and, in parentheses, what happened.
pub open spec fn error_text(e: Error) -> Seq<char> {
    match e {
        Error::Io(e) => "Io("@ + e.message@ + ")"@,
        Error::HdrRecord(e) => "HdrRecord("@ + record_error_text(e) + ")"@,
        Error::TrySend(e) => "TrySend("@ + try_send_error_text(e) + ")"@,
    }
}

/// Calls the `Display` of `hdrhistogram::errors::RecordError`.
///
/// Claimed of it: the two variants are displayed as [`record_error_text`] says.
#[verifier::external_body]
fn display_record_error(e: RecordError) -> (text: String)
    ensures
        text@ == record_error_text(e),
{
    match e {
        RecordError::ValueOutOfRangeResizeDisabled =>
        hdrhistogram::errors::RecordError::ValueOutOfRangeResizeDisabled.to_string(),
        RecordError::ResizeFailedUsizeTypeTooSmall =>
        hdrhistogram::errors::RecordError::ResizeFailedUsizeTypeTooSmall.to_string(),
    }
}

/// Calls the `Display` of `crossbeam_channel::TrySendError`.
///
/// Claimed of it: the two variants are displayed as [`try_send_error_text`] says.
#[verifier::external_body]
fn display_try_send_error(e: TrySendError) -> (text: String)
    ensures
        text@ == try_send_error_text(e),
{
    match e {
        TrySendError::Full => crossbeam_channel::TrySendError::Full(()).to_string(),
        TrySendError::Disconnected => crossbeam_channel::TrySendError::Disconnected(
            (),
        ).to_string(),
    }
}

impl Error {
    /// The error as text.
    pub fn to_text(&self) -> (text: String)
        ensures
            text@ == error_text(*self),
    {
        let mut text: String;
        match self {
            Error::Io(e) => {
                text = "Io(".to_owned();
                text.append(e.message.as_str());
            },
            Error::HdrRecord(e) => {
                text = "HdrRecord(".to_owned();
                text.append(display_record_error(*e).as_str());
            },
            Error::TrySend(e) => {
                text = "TrySend(".to_owned();
                text.append(display_try_send_error(*e).as_str());
            },
        }
        text.append(")");
        text
    }
}

} // verus!

//! The histogram that values are recorded in.
//!
//! [`Hist`] holds an `hdrhistogram::Histogram<u64>`. What a histogram holds is described by
//! [`HistView`], and each method used here is stated as a function on such views.

use hdrhistogram::serialization::interval_log;
use hdrhistogram::serialization::V2DeflateSerializer;
use hdrhistogram::Histogram;
use vstd::arithmetic::power::pow;
use vstd::multiset::Multiset;
use vstd::prelude::*;

use crate::time::NANOS_PER_SEC;

verus! {

/// The largest number of significant figures that a histogram keeps.
pub const MAX_SIG_FIG: u8 = 5;

/// What a histogram holds.
#[verifier::ext_equal]
pub struct HistView {
    /// The lowest value told apart from zero.
    pub lowest: u64,
    /// The highest value the histogram is set up for.
    pub highest: u64,
    /// The number of significant figures kept.
    pub sig_fig: u8,
    /// The largest value recorded since the histogram was made, zero if there is none.
    pub peak: u64,
    /// The values recorded since the histogram was made or last cleared.
    pub recorded: Multiset<u64>,
}

impl HistView {
    /// The histogram with no values in it and the same settings, as newly made.
    pub open spec fn emptied(self) -> HistView {
        HistView { peak: 0, recorded: Multiset::empty(), ..self }
    }

    /// The histogram without its values; its settings and its peak stay.
    pub open spec fn cleared(self) -> HistView {
        HistView { recorded: Multiset::empty(), ..self }
    }

    /// The histogram with one more value in it.
    pub open spec fn with(self, value: u64) -> HistView {
        HistView {
            highest: highest_after(self.highest, self.sig_fig, value),
            peak: if value > self.peak { value } else { self.peak },
            recorded: self.recorded.insert(value),
            ..self
        }
    }
}

/// What comes of doubling `n`, zero times or more, until it exceeds `value`.
pub open spec fn doubled_past(n: nat, value: int) -> nat
    decreases
            (if n > value {
                0
            } else {
                value + 1 - n
            }),
{
    if n == 0 || n > value {
        n
    } else {
        doubled_past(2 * n, value)
    }
}

/// One more than the largest value that a histogram set up for `highest` has a place for: the
/// smallest power of two that exceeds `highest`, and that is not less than the numbers that are
/// told apart one by one, which are twice ten to the power of `sig_fig`.
pub open spec fn range_end(highest: u64, sig_fig: u8) -> nat {
    doubled_past(doubled_past(2, 2 * pow(10, sig_fig as nat) - 1), highest as int)
}

/// The highest value that a histogram is set up for once `value` is recorded in it: it stays if
/// there is a place for the value, and is the last one in the range that is made for it otherwise.
pub open spec fn highest_after(highest: u64, sig_fig: u8, value: u64) -> u64 {
    if value < range_end(highest, sig_fig) {
        highest
    } else if range_end(value, sig_fig) <= u64::MAX {
        (range_end(value, sig_fig) - 1) as u64
    } else {
        (u64::MAX - 1) as u64
    }
}

/// A new auto-resizing histogram that keeps `sig_fig` significant figures.
pub open spec fn fresh(sig_fig: u8) -> HistView {
    HistView {
        lowest: 1,
        highest: 2,
        sig_fig,
        peak: 0,
        recorded: Multiset::empty(),
    }
}

/// Why a value was not recorded.
#[derive(Clone, Copy, Debug, PartialEq, Eq, Structural)]
pub enum RecordError {
    /// The value is out of range and the histogram does not resize.
    ValueOutOfRangeResizeDisabled,
    /// The histogram cannot be resized because `usize` cannot represent the length needed.
    ResizeFailedUsizeTypeTooSmall,
}

/// Why a histogram was not made, `hdrhistogram::errors::CreationError`, declared as opaque.
#[verifier::external_type_specification]
#[verifier::external_body]
pub struct ExCreationError(hdrhistogram::errors::CreationError);

/// A histogram of `u64` values.
///
/// Holds an `hdrhistogram::Histogram<u64>` made by `Histogram::new`, which auto-resizes, or copied
/// or derived from one that was; nothing outside this module reaches it.
#[verifier::external_body]
#[derive(Debug)]
pub struct Hist {
    inner: Histogram<u64>,
}

/// What a histogram holds, as its settings and the calls of `record` and `clear` made on it
/// determine it.
pub uninterp spec fn contents(h: Hist) -> HistView;

/// The text that `IntervalLogWriter::write_histogram` writes for a histogram, an interval that
/// starts `start` nanoseconds after the epoch and lasts `duration` nanoseconds, and a tag.
pub uninterp spec fn interval_line(
    lowest: u64,
    highest: u64,
    sig_fig: u8,
    peak: u64,
    recorded: Multiset<u64>,
    start: nat,
    duration: nat,
    tag: Seq<char>,
) -> Seq<char>;

/// Whether `tag` can stand in an interval log: no comma, space or line break is in it.
pub open spec fn loggable_tag(tag: Seq<char>) -> bool {
    forall|i: int|
        0 <= i < tag.len() ==> #[trigger] tag[i] != ',' && tag[i] != ' ' && tag[i] != '\r'
            && tag[i] != '\n'
}

/// The text that opens the line of an interval tagged `tag`.
pub open spec fn tag_field(tag: Seq<char>) -> Seq<char> {
    "Tag="@ + tag + ","@
}

/// Whether `text` is one line: a line feed ends it and stands nowhere else in it.
pub open spec fn is_line(text: Seq<char>) -> bool {
    &&& text.len() > 0
    &&& text.last() == '\n'
    &&& forall|i: int| 0 <= i < text.len() - 1 ==> #[trigger] text[i] != '\n'
}

impl View for Hist {
    type V = HistView;

    open spec fn view(&self) -> HistView {
        contents(*self)
    }
}

impl Hist {
    /// Makes a histogram with `hdrhistogram::Histogram::new`.
    ///
    /// Claimed of it: for up to five significant figures it returns an empty auto-resizing
    /// histogram whose range is one to two, and for more it returns an error.
    #[verifier::external_body]
    pub(crate) fn new(sig_fig: u8) -> (r: Result<Hist, hdrhistogram::errors::CreationError>)
        ensures
            r is Ok <==> sig_fig <= MAX_SIG_FIG,
            r matches Ok(h) ==> contents(h) == fresh(sig_fig),
    {
        Histogram::new(sig_fig).map(|inner| Hist { inner })
    }

    /// Makes a histogram with `hdrhistogram::Histogram::new_from`.
    ///
    /// Claimed of it: the result has the settings of `self` and holds nothing.
    #[verifier::external_body]
    pub(crate) fn new_from(&self) -> (h: Hist)
        ensures
            contents(h) == contents(*self).emptied(),
        opens_invariants none
    {
        Hist { inner: Histogram::new_from(&self.inner) }
    }

    /// Records a value with `hdrhistogram::Histogram::record`.
    ///
    /// Claimed of it: every value is taken, for a `Hist` always auto-resizes, and is added to what
    /// the histogram holds; the range grows as [`highest_after`] says.
    #[verifier::external_body]
    pub(crate) fn record(&mut self, value: u64) -> (r: Result<(), RecordError>)
        ensures
            r is Ok,
            contents(*final(self)) == contents(*old(self)).with(value),
        opens_invariants none
    {
        match self.inner.record(value) {
            Ok(()) => Ok(()),
            Err(hdrhistogram::errors::RecordError::ValueOutOfRangeResizeDisabled) => Err(
                RecordError::ValueOutOfRangeResizeDisabled,
            ),
            Err(hdrhistogram::errors::RecordError::ResizeFailedUsizeTypeTooSmall) => Err(
                RecordError::ResizeFailedUsizeTypeTooSmall,
            ),
        }
    }

    /// Empties the histogram with `hdrhistogram::Histogram::clear`.
    ///
    /// Claimed of it: the values go, the settings and the peak stay.
    #[verifier::external_body]
    pub(crate) fn clear(&mut self)
        ensures
            contents(*final(self)) == contents(*old(self)).cleared(),
        opens_invariants none
    {
        self.inner.clear()
    }

    /// Whether nothing is recorded, by `hdrhistogram::Histogram::is_empty`.
    ///
    /// Claimed of it: it returns `true` if and only if no value was recorded since the histogram
    /// was made or last cleared.
    #[verifier::external_body]
    pub(crate) fn is_empty(&self) -> (r: bool)
        ensures
            r == (contents(*self).recorded.len() == 0),
        opens_invariants none
    {
        self.inner.is_empty()
    }

    /// The line of an interval log for this histogram, written into memory with
    /// `hdrhistogram`'s `IntervalLogWriter::write_histogram` and `V2DeflateSerializer`.
    ///
    /// Claimed of it: the text depends on the arguments alone. The tag opens it if it may stand in
    /// a log and is left out otherwise. It is one line as long as no count exceeds what the
    /// serializer can encode.
    #[verifier::external_body]
    pub(crate) fn interval_line(
        &self,
        start: (u64, u32),
        duration: (u64, u32),
        tag: &str,
    ) -> (line: String)
        requires
            start.1 < NANOS_PER_SEC,
            duration.1 < NANOS_PER_SEC,
        ensures
            line@ == interval_line(
                contents(*self).lowest,
                contents(*self).highest,
                contents(*self).sig_fig,
                contents(*self).peak,
                contents(*self).recorded,
                (start.0 * NANOS_PER_SEC + start.1) as nat,
                (duration.0 * NANOS_PER_SEC + duration.1) as nat,
                tag@,
            ),
            tag_field(tag@).is_prefix_of(line@) <==> loggable_tag(tag@),
            contents(*self).recorded.len() <= i64::MAX ==> is_line(line@),
    {
        let mut text: Vec<u8> = Vec::new();
        let mut serializer = V2DeflateSerializer::new();
        let start = std::time::Duration::new(start.0, start.1);
        let duration = std::time::Duration::new(duration.0, duration.1);
        let _ = interval_log::IntervalLogWriterBuilder::new()
            .begin_log_with(&mut text, &mut serializer)
            .expect("writing to memory")
            .write_histogram(&self.inner, start, duration, interval_log::Tag::new(tag));
        String::from_utf8(text).expect("log lines are text")
    }
}

impl Clone for Hist {
    /// Copies the histogram with `hdrhistogram::Histogram`'s `Clone`.
    ///
    /// Claimed of it: the copy holds what the original holds.
    #[verifier::external_body]
    fn clone(&self) -> (h: Hist)
        ensures
            contents(h) == contents(*self),
    {
        Hist { inner: self.inner.clone() }
    }
}

} // verus!

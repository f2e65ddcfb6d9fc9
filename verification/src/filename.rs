//! The names of log files.

use vstd::prelude::*;

use crate::path::{join_path, joined};

verus! {

/// How the time stands in a file name.
pub const TIME_FORMAT: &'static str = "%Y-%m-%d-%H%M%SZ";

/// What every log file's name ends with.
pub const FILE_SUFFIX: &'static str = ".hdrhistogram-interval-log.v2.gz";

/// The last second that a calendar date is given to, counted from the Unix epoch.
pub const LAST_SECOND: i64 = 8_210_266_876_799;

/// The text that `chrono` gives for a second of UTC, counted from the Unix epoch, in a format.
pub uninterp spec fn utc_text(secs: i64, format: Seq<char>) -> Seq<char>;

/// Whether `text` has only characters that may stand in a formatted time.
pub open spec fn is_time_text(text: Seq<char>) -> bool {
    forall|i: int|
        0 <= i < text.len() ==> ('0' <= #[trigger] text[i] <= '9' || text[i] == '-' || text[i]
            == '+' || text[i] == 'Z')
}

/// The hexadecimal digit for `d`.
pub open spec fn hex_digit(d: nat) -> char {
    "0123456789abcdef"@[d as int]
}

/// `n` in hexadecimal, without leading zeros.
pub open spec fn hex(n: nat) -> Seq<char>
    decreases n,
{
    if n < 16 {
        seq![hex_digit(n)]
    } else {
        hex(n / 16).push(hex_digit(n % 16))
    }
}

/// The name of a log file: series, time and a number that tells apart files of one second.
pub open spec fn file_name(series: Seq<char>, time: Seq<char>, id: u32) -> Seq<char> {
    series + "."@ + time + "."@ + hex(id as nat) + FILE_SUFFIX@
}

/// Calls `chrono::Utc::now` and returns its `timestamp`.
///
/// Claimed of it: the result is a second from the Unix epoch on that a calendar date is given to.
/// `Utc::now` panics if the system clock stands outside that range.
#[verifier::external_body]
pub(crate) fn utc_now() -> (secs: i64)
    ensures
        0 <= secs <= LAST_SECOND,
{
    chrono::Utc::now().timestamp()
}

/// Formats a second of UTC with `chrono::DateTime::format`.
///
/// Claimed of it: the text depends on the second and the format alone, and for this format holds
/// nothing but digits, signs and a `Z`.
#[verifier::external_body]
fn format_utc(secs: i64, format: &str) -> (text: String)
    requires
        0 <= secs <= LAST_SECOND,
        format@ == TIME_FORMAT@,
    ensures
        text@ == utc_text(secs, format@),
        is_time_text(text@),
{
    let time: chrono::DateTime<chrono::Utc> = chrono::DateTime::from_timestamp(secs, 0).expect(
        "a second with a calendar date",
    );
    time.format(format).to_string()
}

/// Draws a number with `rand`'s `thread_rng`; nothing is claimed of it.
#[verifier::external_body]
pub(crate) fn random_id() -> (id: u32) {
    rand::Rng::gen(&mut rand::thread_rng())
}

/// The digit `d` as text.
fn hex_digit_text(d: u32) -> (text: &'static str)
    requires
        d < 16,
    ensures
        text@ =~= seq![hex_digit(d as nat)],
{
    proof {
        reveal_strlit("0123456789abcdef");
    }
    let digits: &'static str = "0123456789abcdef";
    assert(digits@.subrange(d as int, d + 1) =~= seq![hex_digit(d as nat)]);
    digits.substring_char(d as usize, d as usize + 1)
}

/// Writes `n` in hexadecimal.
pub fn to_hex(n: u32) -> (text: String)
    ensures
        text@ == hex(n as nat),
    decreases n,
{
    let mut text = if n < 16 {
        String::new()
    } else {
        to_hex(n / 16)
    };
    text.append(hex_digit_text(n % 16));
    proof {
        if n < 16 {
            assert(text@ =~= seq![hex_digit(n as nat)]);
        } else {
            assert(text@ =~= hex((n / 16) as nat).push(hex_digit((n % 16) as nat)));
        }
    }
    text
}

/// The path of a log file of `series` below `save_dir`, given the time and the number in its name.
pub fn filename_for(save_dir: &str, series: &str, time: &str, id: u32) -> (path: String)
    ensures
        path@ == joined(save_dir@, file_name(series@, time@, id)),
{
    let mut name = series.to_owned();
    name.append(".");
    name.append(time);
    name.append(".");
    name.append(to_hex(id).as_str());
    name.append(FILE_SUFFIX);
    join_path(save_dir, name.as_str())
}

/// Whether `secs` is what [`utc_now`] may give and `id` what [`random_id`] may give.
pub closed spec fn may_be_drawn(secs: i64, id: u32) -> bool {
    call_ensures(utc_now, (), secs) && call_ensures(random_id, (), id)
}

/// The second and the number of a file name are what [`utc_now`] and [`random_id`] gave.
pub(crate) proof fn law_names_are_drawn(secs: i64, id: u32)
    ensures
        may_be_drawn(secs, id) <==> call_ensures(utc_now, (), secs) && call_ensures(
            random_id,
            (),
            id,
        ),
{
}

/// Whether `path` is a path that [`get_filename`] may give for `series` below `save_dir`.
pub open spec fn is_filename(path: Seq<char>, save_dir: Seq<char>, series: Seq<char>) -> bool {
    exists|secs: i64, id: u32|
        may_be_drawn(secs, id) && 0 <= secs <= LAST_SECOND && is_time_text(
            utc_text(secs, TIME_FORMAT@),
        ) && path == #[trigger] joined(
            save_dir,
            file_name(series, utc_text(secs, TIME_FORMAT@), id),
        )
}

/// The path of a new log file of `series` below `save_dir`, named after the present time and a
/// random number.
pub fn get_filename(save_dir: &str, series: &str) -> (path: String)
    ensures
        is_filename(path@, save_dir@, series@),
{
    let secs: i64 = utc_now();
    let time = format_utc(secs, TIME_FORMAT);
    let id: u32 = random_id();
    let path = filename_for(save_dir, series, time.as_str(), id);
    assert(may_be_drawn(secs, id));
    path
}

} // verus!

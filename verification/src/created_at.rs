//! The creation time of a post, as the web API writes it
//! (`Mon May 29 19:29:32 +0800 2023`), read with `chrono`.

use vstd::prelude::*;
use crate::strings::{digit, digit_char, push_char};

verus! {

#[verifier::external_type_specification]
#[verifier::external_body]
pub struct ExParseError(chrono::ParseError);

/// The format the web API writes creation times in.
pub const CREATED_AT_FORMAT: &'static str = "%a %b %d %T %z %Y";

/// What `DateTime::parse_from_str` reads from `text` in the format `fmt`,
/// when it reads a time: the Unix timestamp and the offset from UTC in
/// seconds.
pub uninterp spec fn parsed_time(text: Seq<char>, fmt: Seq<char>) -> Option<(i64, i32)>;

/// Reads `text` in the format `fmt` with `chrono::DateTime::parse_from_str`,
/// giving the timestamp and the offset (`local_minus_utc`) of the result.
/// The result is named by `parsed_time`; that the offset lies strictly
/// between -86400 and 86400 is what `FixedOffset` guarantees of every
/// offset.
#[verifier::external_body]
fn parse_time(text: &str, fmt: &str) -> (res: Result<(i64, i32), chrono::ParseError>)
    ensures
        match res {
            Ok(t) => parsed_time(text@, fmt@) == Some(t) && -86400 < t.1 < 86400,
            Err(_) => parsed_time(text@, fmt@) is None,
        },
{
    match chrono::DateTime::parse_from_str(text, fmt) {
        Ok(dt) => Ok((dt.timestamp(), dt.offset().local_minus_utc())),
        Err(e) => Err(e),
    }
}

/// How `chrono` displays the time that `DateTime::parse_from_str` reads
/// from `text` in the format `fmt`, as `2023-05-29 19:29:32 +08:00`.
pub uninterp spec fn time_text(text: Seq<char>, fmt: Seq<char>) -> Seq<char>;

/// Reads `text` in the format `fmt` with `chrono::DateTime::parse_from_str`
/// and displays the result with its `Display` (`to_string`); `None` when
/// nothing is read, which is when `parsed_time` gives none. The text is
/// named by `time_text`.
#[verifier::external_body]
pub(crate) fn parse_time_text(text: &str, fmt: &str) -> (res: Option<String>)
    ensures
        res is Some <==> parsed_time(text@, fmt@) is Some,
        res matches Some(t) ==> t@ == time_text(text@, fmt@),
{
    match chrono::DateTime::parse_from_str(text, fmt) {
        Ok(dt) => Some(dt.to_string()),
        Err(_) => None,
    }
}

/// A creation time: the Unix timestamp and the offset of the writer's time
/// zone from UTC, in seconds.
#[derive(Debug, Clone, Copy, PartialEq, Eq)]
pub struct CreatedAt {
    pub timestamp: i64,
    pub offset_seconds: i32,
}

/// A creation time could not be read.
#[derive(Debug, Clone, Copy, PartialEq, Eq)]
pub struct MalformedTime;

/// Reads a creation time as the web API writes it.
pub fn parse_created_at(created_at: &str) -> (res: Result<CreatedAt, MalformedTime>)
    ensures
        match res {
            Ok(t) => parsed_time(created_at@, CREATED_AT_FORMAT@) == Some(
                (t.timestamp, t.offset_seconds),
            ) && -86400 < t.offset_seconds < 86400,
            Err(_) => parsed_time(created_at@, CREATED_AT_FORMAT@) is None,
        },
{
    match parse_time(created_at, CREATED_AT_FORMAT) {
        Ok(t) => Ok(CreatedAt { timestamp: t.0, offset_seconds: t.1 }),
        Err(_) => Err(MalformedTime),
    }
}

/// `n`, below 100, in two digits.
pub open spec fn two_digits(n: int) -> Seq<char> {
    seq![digit_char(n / 10), digit_char(n % 10)]
}

/// How `chrono` writes the offset of `secs` seconds: its sign, then hours
/// and minutes in two digits each, then the seconds when there are any.
pub open spec fn offset_display(secs: int) -> Seq<char> {
    let sign = if secs < 0 {
        '-'
    } else {
        '+'
    };
    let a = if secs < 0 {
        -secs
    } else {
        secs
    };
    let sec = a % 60;
    let min = (a / 60) % 60;
    let hour = a / 3600;
    let hm = seq![sign] + two_digits(hour) + seq![':'] + two_digits(min);
    if sec == 0 {
        hm
    } else {
        hm + seq![':'] + two_digits(sec)
    }
}

/// Appends `n`, below 100, in two digits.
fn push_two_digits(s: &mut String, n: u32)
    requires
        n < 100,
    ensures
        final(s)@ == old(s)@ + two_digits(n as int),
{
    push_char(s, digit((n / 10) as u64));
    push_char(s, digit((n % 10) as u64));
    assert(final(s)@ =~= old(s)@ + two_digits(n as int));
}

/// Writes the offset of `secs` seconds as `chrono::FixedOffset`'s
/// `Display` does: `+08:00`, or `-05:30:15` when there are seconds.
fn offset_string(secs: i32) -> (res: String)
    requires
        -86400 < secs < 86400,
    ensures
        res@ == offset_display(secs as int),
{
    let a: u32 = if secs < 0 {
        (-secs) as u32
    } else {
        secs as u32
    };
    let sec = a % 60;
    let min = (a / 60) % 60;
    let hour = a / 3600;
    let mut res = String::new();
    push_char(&mut res, if secs < 0 {
        '-'
    } else {
        '+'
    });
    push_two_digits(&mut res, hour);
    push_char(&mut res, ':');
    push_two_digits(&mut res, min);
    if sec != 0 {
        push_char(&mut res, ':');
        push_two_digits(&mut res, sec);
    }
    assert(res@ =~= offset_display(secs as int));
    res
}

impl CreatedAt {
    /// The time zone of the creation time, as `+08:00`.
    pub fn timezone_text(&self) -> (res: String)
        requires
            -86400 < self.offset_seconds < 86400,
        ensures
            res@ == offset_display(self.offset_seconds as int),
    {
        offset_string(self.offset_seconds)
    }
}

} // verus!

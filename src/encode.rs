//! Text encodings taken from outside crates: JSON string literals and
//! instants (serde_json, time), and RFC 3339 parsing (time).
use vstd::prelude::*;

use crate::model::Timestamp;

verus! {

/// How a character stands inside a JSON string literal: quote, backslash
/// and the control characters below U+0020 escaped (the five with a short
/// form by it, the others as `\u00` and two lower-case hex digits), every
/// other character as it is.
pub open spec fn json_escaped_char(c: char) -> Seq<char> {
    if c == '"' {
        "\\\""@
    } else if c == '\\' {
        "\\\\"@
    } else if c == '\x08' {
        "\\b"@
    } else if c == '\t' {
        "\\t"@
    } else if c == '\n' {
        "\\n"@
    } else if c == '\x0C' {
        "\\f"@
    } else if c == '\r' {
        "\\r"@
    } else if (c as u32) < 0x20 {
        "\\u00"@ + seq![
            "0123456789abcdef"@[(c as u32) as int / 16],
            "0123456789abcdef"@[(c as u32) as int % 16],
        ]
    } else {
        seq![c]
    }
}

/// The characters of `s`, each as it stands inside a JSON string literal.
pub open spec fn json_escaped(s: Seq<char>) -> Seq<char>
    decreases s.len(),
{
    if s.len() == 0 {
        Seq::empty()
    } else {
        json_escaped(s.drop_last()) + json_escaped_char(s.last())
    }
}

/// The JSON string literal that stands for `s`.
pub open spec fn json_string_of(s: Seq<char>) -> Seq<char> {
    "\""@ + json_escaped(s) + "\""@
}

/// Seconds since the Unix epoch of -9999-01-01T00:00:00Z, the first instant
/// the time crate represents.
pub const MIN_UNIX_SECONDS: i64 = -377_705_116_800;

/// Seconds since the Unix epoch of 9999-12-31T23:59:59Z, the last whole
/// second the time crate represents.
pub const MAX_UNIX_SECONDS: i64 = 253_402_300_799;

/// The largest UTC offset the time crate represents, 25:59:59, in seconds.
pub const MAX_OFFSET_SECONDS: i32 = 93_599;

/// The parts form a date and time that the time crate represents: a
/// nanosecond within its second, an offset within its range, and a local
/// date (at the offset) between the years -9999 and 9999.
pub open spec fn instant_in_range(unix_seconds: int, nanosecond: int, offset_seconds: int) -> bool {
    &&& 0 <= nanosecond < 1_000_000_000
    &&& -MAX_OFFSET_SECONDS <= offset_seconds <= MAX_OFFSET_SECONDS
    &&& MIN_UNIX_SECONDS <= unix_seconds + offset_seconds <= MAX_UNIX_SECONDS
}

/// The JSON that serde_json writes for the `time::OffsetDateTime` of the
/// instant `unix_seconds` + `nanosecond` at UTC offset `offset_seconds`.
pub uninterp spec fn datetime_json_of(unix_seconds: int, nanosecond: int, offset_seconds: int) -> Seq<
    char,
>;

/// serde_json reads the text as one JSON value (with nothing but whitespace
/// after it).
pub uninterp spec fn is_json_text(s: Seq<char>) -> bool;

/// Relies on serde_json::from_str into an IgnoredAny: it reads one JSON
/// value of any shape, then refuses anything but whitespace after it.
#[verifier::external_body]
pub(crate) fn json_text_check(s: &str) -> (r: bool)
    ensures
        r == is_json_text(s@),
{
    serde_json::from_str::<serde::de::IgnoredAny>(s).is_ok()
}

/// Relies on serde_json::to_string on a `str`: it writes the string quoted,
/// escaped by its ESCAPE table and CharEscape forms, into a `Vec<u8>`, whose
/// writes cannot fail, so an error never comes.
#[verifier::external_body]
pub(crate) fn json_string(s: &str) -> (r: String)
    ensures
        r@ == json_string_of(s@),
{
    serde_json::to_string(s).unwrap_or_default()
}

/// Relies on time's OffsetDateTime::from_unix_timestamp (here of the local
/// seconds, so the local date and time), replace_nanosecond and
/// UtcOffset::from_whole_seconds, which succeed on parts in range, on
/// replace_offset, which keeps the local date and time and cannot fail, and
/// on serde_json::to_string of the resulting OffsetDateTime, which writes a
/// tuple of integers and cannot fail.
#[verifier::external_body]
pub(crate) fn datetime_json(unix_seconds: i64, nanosecond: u32, offset_seconds: i32) -> (r: Option<
    String,
>)
    ensures
        instant_in_range(unix_seconds as int, nanosecond as int, offset_seconds as int)
            ==> r is Some,
        r is Some ==> r.unwrap()@ == datetime_json_of(
            unix_seconds as int,
            nanosecond as int,
            offset_seconds as int,
        ),
{
    let local_seconds = unix_seconds.checked_add(offset_seconds as i64)?;
    let local = time::OffsetDateTime::from_unix_timestamp(local_seconds).ok()?;
    let local = local.replace_nanosecond(nanosecond).ok()?;
    let offset = time::UtcOffset::from_whole_seconds(offset_seconds).ok()?;
    serde_json::to_string(&local.replace_offset(offset)).ok()
}

/// The instant that an RFC 3339 text denotes, as seconds since the Unix
/// epoch, nanosecond and UTC offset in seconds; nothing where the text is not
/// RFC 3339.
pub uninterp spec fn rfc3339_parsed_of(s: Seq<char>) -> Option<(i64, u32, i32)>;

/// Relies on time's OffsetDateTime::parse with the Rfc3339 description, and
/// on unix_timestamp, nanosecond and offset().whole_seconds to read the
/// result: the parts depend on the text alone. The parser fixes a nanosecond
/// below 10^9, an offset of at most 23:59 either way, and a four-digit local
/// year; the UTC instant itself may fall outside the years -9999..9999.
#[verifier::external_body]
pub(crate) fn parse_rfc3339(s: &str) -> (r: Option<Timestamp>)
    ensures
        r == match rfc3339_parsed_of(s@) {
            Some(p) => Some(Timestamp { unix_seconds: p.0, nanosecond: p.1, offset_seconds: p.2 }),
            None => None::<Timestamp>,
        },
        r is Some ==> instant_in_range(
            r.unwrap().unix_seconds as int,
            r.unwrap().nanosecond as int,
            r.unwrap().offset_seconds as int,
        ),
        r is Some ==> -86_340 <= r.unwrap().offset_seconds <= 86_340,
{
    let t = time::OffsetDateTime::parse(s, &time::format_description::well_known::Rfc3339).ok()?;
    Some(Timestamp {
        unix_seconds: t.unix_timestamp(),
        nanosecond: t.nanosecond(),
        offset_seconds: t.offset().whole_seconds(),
    })
}

} // verus!

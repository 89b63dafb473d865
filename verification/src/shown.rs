//! Texts that others make of plain values: the standard formatter, base64 and
//! the calendar.

use vstd::prelude::*;

verus! {

/// What the formatter's debug form makes of a text: quoted, with escapes.
pub uninterp spec fn quoted(s: Seq<char>) -> Seq<char>;

/// What the formatter's debug form makes of a span of time.
pub uninterp spec fn span_text(secs: u64, nanos: u32) -> Seq<char>;

/// The base64 text of some bytes.
pub uninterp spec fn base64_text(bytes: Seq<u8>) -> Seq<char>;

/// A moment in UTC by its month, day, hour and minute; None if it lies outside
/// the years that can be shown.
pub uninterp spec fn minute_text(secs: i64, nanos: u32) -> Option<Seq<char>>;

/// `base64::engine::general_purpose::STANDARD.encode`: base64 with padding. It
/// panics where the text would be longer than a string can be, which is left
/// out.
#[verifier::external_body]
pub(crate) fn encode_base64(bytes: &Vec<u8>) -> (r: String)
    requires
        4 * ((bytes@.len() + 2) / 3) <= isize::MAX,
    ensures
        r@ == base64_text(bytes@),
{
    base64::Engine::encode(&base64::engine::general_purpose::STANDARD, bytes)
}

/// `chrono::DateTime::<Utc>::from_timestamp`, then `format("%b %d %H:%M")`.
/// None where `from_timestamp` gives none. The names of the months are the
/// English ones, whatever the locale.
#[verifier::external_body]
pub(crate) fn show_minute(secs: i64, nanos: u32) -> (r: Option<String>)
    ensures
        crate::split::opt_text(r) == minute_text(secs, nanos),
{
    chrono::DateTime::<chrono::Utc>::from_timestamp(secs, nanos)
        .map(|t| t.format("%b %d %H:%M").to_string())
}

/// `format!("{:?}", s)` of a `str`. Its result depends on the text alone;
/// the escapes are not spelled out here.
#[verifier::external_body]
pub(crate) fn quote(s: &str) -> (r: String)
    ensures
        r@ == quoted(s@),
{
    format!("{:?}", s)
}

/// `format!("{:?}", d)` of a `std::time::Duration` made of `secs` and `nanos`.
/// Its result depends on the two numbers alone. `Duration::new` panics where
/// the nanoseconds carry the seconds past their type, so less than a second of
/// them is asked for.
#[verifier::external_body]
pub(crate) fn show_span(secs: u64, nanos: u32) -> (r: String)
    requires
        nanos < 1_000_000_000,
    ensures
        r@ == span_text(secs, nanos),
{
    format!("{:?}", std::time::Duration::new(secs, nanos))
}

} // verus!

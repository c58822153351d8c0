//! What the library takes on trust: calls into `chrono`, into the layout of
//! `ratatui`, and into parts of the standard library that have no specification
//! of their own.
use crate::recording::layout::Area;
use crate::text::ascii_lower;
use ratatui::layout::{Constraint, Layout, Rect};
use vstd::prelude::*;
use vstd::utf8::{decode_utf8, is_ascii_chars, valid_utf8};

verus! {

/// A moment in coordinated universal time: whole seconds since the Unix epoch
/// and the nanoseconds within the second.
#[derive(Debug, Clone, Copy, PartialEq, Eq, Structural)]
pub struct UtcTime {
    pub secs: i64,
    pub nanos: u32,
}

/// The first second of the year -262143, the earliest that `chrono` represents.
pub const MIN_UTC_SECS: i64 = -8334601228800;

/// The last second of the year 262142, the latest that `chrono` represents.
pub const MAX_UTC_SECS: i64 = 8210266876799;

impl UtcTime {
    /// Whether the moment is one that `chrono` represents.
    pub open spec fn valid(self) -> bool {
        MIN_UTC_SECS <= self.secs <= MAX_UTC_SECS && self.nanos < 1_000_000_000
    }
}

/// Whether each `%` of a pattern introduces one of the fields year, month, day,
/// hour, minute and second.
pub open spec fn is_field_pattern(pattern: Seq<char>) -> bool {
    forall|i: int|
        0 <= i < pattern.len() && #[trigger] pattern[i] == '%' ==> i + 1 < pattern.len() && {
            let f = pattern[i + 1];
            f == 'Y' || f == 'm' || f == 'd' || f == 'H' || f == 'M' || f == 'S'
        }
}

/// What `chrono` prints for a moment under a pattern of date and time fields.
pub uninterp spec fn utc_format(secs: i64, nanos: u32, pattern: Seq<char>) -> Seq<char>;

/// Calls `chrono::DateTime::<Utc>::from_timestamp` and `format` on its result.
///
/// The contract claims that both return normally for a moment in `chrono`'s
/// range and a pattern of plain fields, and that the text depends on the
/// moment and the pattern alone.
#[verifier::external_body]
pub(crate) fn format_utc(time: UtcTime, pattern: &str) -> (r: String)
    requires
        time.valid(),
        is_field_pattern(pattern@),
    ensures
        r@ == utc_format(time.secs, time.nanos, pattern@),
{
    let moment = chrono::DateTime::<chrono::Utc>::from_timestamp(time.secs, time.nanos);
    moment.unwrap().format(pattern).to_string()
}

/// What `chrono` prints for a moment as an RFC 3339 date and time.
pub uninterp spec fn utc_rfc3339(secs: i64, nanos: u32) -> Seq<char>;

/// Calls `chrono::DateTime::<Utc>::from_timestamp` and `to_rfc3339` on its result.
///
/// The contract claims that both return normally for a moment in `chrono`'s
/// range, and that the text depends on the moment alone.
#[verifier::external_body]
pub(crate) fn rfc3339_utc(time: UtcTime) -> (r: String)
    requires
        time.valid(),
    ensures
        r@ == utc_rfc3339(time.secs, time.nanos),
{
    chrono::DateTime::<chrono::Utc>::from_timestamp(time.secs, time.nanos).unwrap().to_rfc3339()
}

/// A text in lower case, by the Unicode rules that the standard library follows.
pub uninterp spec fn lowercase(s: Seq<char>) -> Seq<char>;

/// Calls `str::to_lowercase`.
///
/// The contract claims that the result depends on the text alone, and that on
/// ASCII text it maps the letters `A` to `Z` and nothing else.
#[verifier::external_body]
pub(crate) fn to_lowercase(s: &str) -> (r: String)
    ensures
        r@ == lowercase(s@),
        is_ascii_chars(s@) ==> r@ == ascii_lower(s@),
{
    s.to_lowercase()
}

/// The standard library's message for bytes that are not UTF-8.
pub uninterp spec fn utf8_error_text(bytes: Seq<u8>) -> Seq<char>;

/// Calls `String::from_utf8`, with the error as its message.
///
/// The contract claims that the call succeeds exactly on valid UTF-8, that it
/// then decodes the bytes, and that the message depends on the bytes alone.
#[verifier::external_body]
pub(crate) fn from_utf8(bytes: &[u8]) -> (r: Result<String, String>)
    ensures
        r is Ok <==> valid_utf8(bytes@),
        r matches Ok(s) ==> s@ == decode_utf8(bytes@),
        r matches Err(e) ==> e@ == utf8_error_text(bytes@),
{
    String::from_utf8(bytes.to_vec()).map_err(|e| e.to_string())
}

/// Bytes decoded as UTF-8, with replacement characters for what is not UTF-8.
pub uninterp spec fn utf8_lossy(bytes: Seq<u8>) -> Seq<char>;

/// Calls `String::from_utf8_lossy`.
///
/// The contract claims that the text depends on the bytes alone, and that
/// valid UTF-8 is decoded as it is.
#[verifier::external_body]
pub(crate) fn from_utf8_lossy(bytes: &[u8]) -> (r: String)
    ensures
        r@ == utf8_lossy(bytes@),
        valid_utf8(bytes@) ==> r@ == decode_utf8(bytes@),
{
    String::from_utf8_lossy(bytes).into_owned()
}

/// Calls `ratatui`'s `Layout::split` on a row of two columns: one that grows,
/// and one of a fixed length behind it.
///
/// The contract claims that, where the row is long enough, the second column
/// has its length and ends where the row ends, and that the first takes all that
/// is left before it.
#[verifier::external_body]
pub(crate) fn split_trailing(row: Area, length: u16) -> (r: (Area, Area))
    requires
        row.x + row.width <= u16::MAX,
        length <= row.width,
    ensures
        r.0 == (Area {
            x: row.x,
            y: row.y,
            width: (row.width - length) as u16,
            height: row.height,
        }),
        r.1 == (Area {
            x: (row.x + row.width - length) as u16,
            y: row.y,
            width: length,
            height: row.height,
        }),
{
    let whole = Rect { x: row.x, y: row.y, width: row.width, height: row.height };
    let columns = [Constraint::Min(0), Constraint::Length(length)];
    let chunks = Layout::horizontal(columns).split(whole);
    let (a, b) = (chunks[0], chunks[1]);
    (
        Area { x: a.x, y: a.y, width: a.width, height: a.height },
        Area { x: b.x, y: b.y, width: b.width, height: b.height },
    )
}

} // verus!

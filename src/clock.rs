use vstd::prelude::*;

verus! {

/// The earliest clock value with a four-digit year: 0000-01-01T00:00:00.000Z.
pub const MIN_CLOCK_MILLIS: i64 = -62_167_219_200_000;

/// The latest clock value with a four-digit year: 9999-12-31T23:59:59.999Z.
pub const MAX_CLOCK_MILLIS: i64 = 253_402_300_799_999;

/// The RFC 3339 text, in UTC with millisecond precision and a `Z` designator, of the instant
/// `millis` milliseconds after the Unix epoch.
pub uninterp spec fn rfc3339_millis(millis: int) -> Seq<char>;

pub open spec fn is_digit(c: char) -> bool {
    '0' <= c <= '9'
}

/// The shape `YYYY-MM-DDTHH:mm:ss.sssZ`.
pub open spec fn utc_millis_shape(s: Seq<char>) -> bool {
    &&& s.len() == 24
    &&& s[4] == '-'
    &&& s[7] == '-'
    &&& s[10] == 'T'
    &&& s[13] == ':'
    &&& s[16] == ':'
    &&& s[19] == '.'
    &&& s[23] == 'Z'
    &&& forall|i: int|
        0 <= i < 24 && i != 4 && i != 7 && i != 10 && i != 13 && i != 16 && i != 19 && i != 23
            ==> is_digit(#[trigger] s[i])
}

/// Relies on chrono's `DateTime::<Utc>::from_timestamp_millis`, which gives `Some` for every
/// instant of the years 0 to 9999, and on `DateTime::to_rfc3339_opts` with
/// `SecondsFormat::Millis` and `use_z`, which writes such an instant as four year digits,
/// two digits each for month, day, hour, minute and second, three millisecond digits, and `Z`.
#[verifier::external_body]
pub(crate) fn format_timestamp_millis(millis: i64) -> (r: Option<String>)
    ensures
        r is Some ==> r->0@ == rfc3339_millis(millis as int),
        MIN_CLOCK_MILLIS <= millis <= MAX_CLOCK_MILLIS ==> r is Some && utc_millis_shape(r->0@),
{
    match chrono::DateTime::<chrono::Utc>::from_timestamp_millis(millis) {
        Some(t) => Some(t.to_rfc3339_opts(chrono::SecondsFormat::Millis, true)),
        None => None,
    }
}

} // verus!

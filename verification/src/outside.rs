//! What the library has from the `uuid` and `time` crates and from std's UTF-8 decoder, on plain
//! values: UUIDs as numbers, instants as nanoseconds since the epoch.

use vstd::prelude::*;

use crate::text;

verus! {

/// The value of a text that is a UUID, or why it is none.
pub uninterp spec fn uuid_value(s: Seq<char>) -> Result<u128, Seq<char>>;

/// `uuid::Uuid::parse_str`, named by [`uuid_value`]: the UUID's value with the first byte most
/// significant, or the error's text. Which texts are UUIDs is left unsaid.
#[verifier::external_body]
pub(crate) fn parse_uuid(s: &str) -> (r: Result<u128, String>)
    ensures
        match r {
            Ok(v) => uuid_value(s@) == Ok::<u128, Seq<char>>(v),
            Err(e) => uuid_value(s@) == Err::<u128, Seq<char>>(e@),
        },
{
    match uuid::Uuid::parse_str(s) {
        Ok(u) => Ok(u.as_u128()),
        Err(e) => Err(e.to_string()),
    }
}

/// A hexadecimal digit, in lower case.
pub open spec fn hex(d: nat) -> char {
    if d < 10 {
        text::digit(d)
    } else {
        (87 + d) as char
    }
}

/// The last `n` hexadecimal digits of a number.
pub open spec fn hex_digits(v: nat, n: nat) -> Seq<char>
    decreases n,
{
    if n == 0 {
        Seq::empty()
    } else {
        hex_digits(v / 16, (n - 1) as nat).push(hex(v % 16))
    }
}

/// A UUID as text: its thirty-two digits in groups of eight, four, four, four and twelve.
pub open spec fn uuid_text(v: u128) -> Seq<char> {
    let h = hex_digits(v as nat, 32);
    h.subrange(0, 8) + "-"@ + h.subrange(8, 12) + "-"@ + h.subrange(12, 16) + "-"@ + h.subrange(
        16,
        20,
    ) + "-"@ + h.subrange(20, 32)
}

/// `uuid::Uuid`'s `Display`: the hyphenated lower-case form, [`uuid_text`], which
/// `uuid::Uuid::parse_str` reads back as the same UUID.
#[verifier::external_body]
pub(crate) fn format_uuid(v: u128) -> (r: String)
    ensures
        r@ == uuid_text(v),
        match uuid_value(r@) {
            Ok(u) => u == v,
            Err(_) => false,
        },
{
    uuid::Uuid::from_u128(v).to_string()
}

/// The instant, in nanoseconds since the epoch, that an RFC 3339 text names, or why it names none.
pub uninterp spec fn rfc3339_instant(s: Seq<char>) -> Result<i128, Seq<char>>;

/// `time::OffsetDateTime::parse` with the RFC 3339 format, named by [`rfc3339_instant`]: the
/// instant's nanoseconds since the epoch, or the error's text. Which texts parse is left unsaid.
#[verifier::external_body]
pub(crate) fn parse_rfc3339(s: &str) -> (r: Result<i128, String>)
    ensures
        match r {
            Ok(v) => rfc3339_instant(s@) == Ok::<i128, Seq<char>>(v),
            Err(e) => rfc3339_instant(s@) == Err::<i128, Seq<char>>(e@),
        },
{
    match time::OffsetDateTime::parse(s, &time::format_description::well_known::Rfc3339) {
        Ok(t) => Ok(t.unix_timestamp_nanos()),
        Err(e) => Err(e.to_string()),
    }
}

/// The instant that a text names, or another where it names none.
pub open spec fn instant_or(s: Seq<char>, otherwise: i128) -> i128 {
    match rfc3339_instant(s) {
        Ok(t) => t,
        Err(_) => otherwise,
    }
}

/// The instant that a stamp names, `now` where it cannot be read.
pub fn received_or(stamp: &str, now: i128) -> (r: i128)
    ensures
        r == instant_or(stamp@, now),
{
    match parse_rfc3339(stamp) {
        Ok(t) => t,
        Err(_) => now,
    }
}

/// The RFC 3339 text of an instant in UTC, where it has one.
pub uninterp spec fn rfc3339_text(nanos: i128) -> Option<Seq<char>>;

/// `time::OffsetDateTime::format` with the RFC 3339 format on the UTC instant `nanos` nanoseconds
/// after the epoch, named by [`rfc3339_text`]. `None` where the instant is out of the crate's range
/// or the format cannot write it; what the text looks like is left unsaid.
#[verifier::external_body]
pub(crate) fn format_rfc3339(nanos: i128) -> (r: Option<String>)
    ensures
        match r {
            Some(s) => rfc3339_text(nanos) == Some(s@),
            None => rfc3339_text(nanos) is None,
        },
{
    match time::OffsetDateTime::from_unix_timestamp_nanos(nanos) {
        Ok(t) => t.format(&time::format_description::well_known::Rfc3339).ok(),
        Err(_) => None,
    }
}

/// The RFC 3339 text of an instant, empty where it has none.
pub open spec fn rfc3339_or_empty(nanos: i128) -> Seq<char> {
    match rfc3339_text(nanos) {
        Some(s) => s,
        None => Seq::empty(),
    }
}

/// The RFC 3339 text of an instant, empty where it has none.
pub fn rfc3339(nanos: i128) -> (r: String)
    ensures
        r@ == rfc3339_or_empty(nanos),
{
    match format_rfc3339(nanos) {
        Some(s) => s,
        None => String::new(),
    }
}

/// `std::str::from_utf8`: the text whose UTF-8 encoding `bytes` is, `None` where they are not valid
/// UTF-8.
#[verifier::external_body]
pub(crate) fn utf8_text(bytes: &Vec<u8>) -> (r: Option<String>)
    ensures
        match r {
            Some(s) => vstd::utf8::encode_utf8(s@) == bytes@,
            None => !vstd::utf8::valid_utf8(bytes@),
        },
{
    match std::str::from_utf8(bytes) {
        Ok(s) => Some(s.to_owned()),
        Err(_) => None,
    }
}

/// `uuid::Uuid::new_v4`: a random UUID's value. Nothing is said of which one.
#[verifier::external_body]
pub(crate) fn random_uuid() -> (r: u128) {
    uuid::Uuid::new_v4().as_u128()
}

/// `time::OffsetDateTime::now_utc`: the clock's nanoseconds since the epoch. Nothing is said of them.
#[verifier::external_body]
pub(crate) fn now_nanos() -> (r: i128) {
    time::OffsetDateTime::now_utc().unix_timestamp_nanos()
}

} // verus!

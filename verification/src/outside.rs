//! What the library takes on trust from `std`, `chrono` and `uuid`.

use vstd::prelude::*;
use vstd::utf8::*;

verus! {

/// `std::string::String::push` appends one character at the end.
pub assume_specification[ std::string::String::push ](s: &mut String, c: char)
    ensures
        final(s)@ == old(s)@.push(c),
;

/// Whether a character has the Unicode property `White_Space`: the space, the characters from tab
/// to carriage return, the next line, and the wider spaces and separators.
pub open spec fn is_white_space(c: char) -> bool {
    let code = c as u32;
    ||| code == 0x20 || 0x9 <= code <= 0xd || code == 0x85 || code == 0xa0
    ||| code == 0x1680 || 0x2000 <= code <= 0x200a || code == 0x2028 || code == 0x2029
    ||| code == 0x202f || code == 0x205f || code == 0x3000
}

/// `char::is_whitespace` answers by the Unicode property `White_Space`.
pub assume_specification[ char::is_whitespace ](c: char) -> (white: bool)
    ensures
        white == is_white_space(c),
;

/// A text that is not all ASCII in lower case, by the Unicode tables.
pub uninterp spec fn wide_lowercase(text: Seq<char>) -> Seq<char>;

/// An ASCII character in lower case.
pub open spec fn ascii_lowercase(c: char) -> char {
    if 'A' <= c <= 'Z' {
        ((c as u32) + 32) as char
    } else {
        c
    }
}

/// A text in lower case.
pub open spec fn lowercase(text: Seq<char>) -> Seq<char> {
    if is_ascii_chars(text) {
        Seq::new(text.len(), |i: int| ascii_lowercase(text[i]))
    } else {
        wide_lowercase(text)
    }
}

/// `str::to_lowercase` maps each ASCII letter of an ASCII text to its small letter and keeps the
/// other characters; of any other text the result is only named here.
pub assume_specification[ str::to_lowercase ](s: &str) -> (lower: String)
    ensures
        is_ascii_chars(s@) ==> lower@ == lowercase(s@),
        !is_ascii_chars(s@) ==> lower@ == wide_lowercase(s@),
;

/// Whether a character is a hexadecimal digit in lower case.
pub open spec fn is_hex_digit(c: char) -> bool {
    '0' <= c <= '9' || 'a' <= c <= 'f'
}

/// The form of a random UUID in text: 36 characters, in groups of 8, 4, 4, 4 and 12 hexadecimal
/// digits with hyphens between, with version 4 and the RFC variant.
pub open spec fn is_uuid_text(text: Seq<char>) -> bool {
    &&& text.len() == 36
    &&& forall|i: int|
        0 <= i < 36 ==> if i == 8 || i == 13 || i == 18 || i == 23 {
            #[trigger] text[i] == '-'
        } else {
            is_hex_digit(text[i])
        }
    &&& text[14] == '4'
    &&& text[19] == '8' || text[19] == '9' || text[19] == 'a' || text[19] == 'b'
}

/// `uuid::Uuid::new_v4`, printed: a random identifier in the hyphenated lower-case form. Which one
/// comes is left to chance.
#[verifier::external_body]
pub(crate) fn random_uuid() -> (id: String)
    ensures
        is_uuid_text(id@),
{
    uuid::Uuid::new_v4().to_string()
}

/// The first second that `chrono` can represent, counted from the Unix epoch.
pub const FIRST_SECOND: i64 = -8_334_601_228_800;

/// The last second that `chrono` can represent, counted from the Unix epoch.
pub const LAST_SECOND: i64 = 8_210_266_876_799;

/// Whether `chrono` can represent the instant `nanos` after the second `secs`.
pub open spec fn is_instant(secs: int, nanos: int) -> bool {
    FIRST_SECOND <= secs <= LAST_SECOND && 0 <= nanos < 1_000_000_000
}

/// `chrono::Utc::now` as the second since the Unix epoch and the nanoseconds behind it: an
/// instant that `chrono` can represent, not before the epoch.
#[verifier::external_body]
pub(crate) fn utc_now() -> (now: (i64, u32))
    ensures
        is_instant(now.0 as int, now.1 as int),
        now.0 >= 0,
{
    let now = chrono::Utc::now();
    (now.timestamp(), now.timestamp_subsec_nanos())
}

/// An instant in UTC in the form of RFC 3339.
pub uninterp spec fn rfc3339_text(secs: i64, nanos: u32) -> Seq<char>;

/// `chrono::DateTime::to_rfc3339` of the instant in UTC; the text is only named.
#[verifier::external_body]
pub(crate) fn rfc3339(secs: i64, nanos: u32) -> (text: String)
    requires
        is_instant(secs as int, nanos as int),
    ensures
        text@ == rfc3339_text(secs, nanos),
{
    chrono::DateTime::from_timestamp(secs, nanos).unwrap().to_rfc3339()
}

/// The day in UTC on which a second falls, as year, month and day.
pub uninterp spec fn utc_day_text(secs: i64) -> Seq<char>;

/// `chrono::DateTime::format` of the second in UTC by `%Y-%m-%d`; the text is only named.
#[verifier::external_body]
pub(crate) fn utc_day(secs: i64) -> (text: String)
    requires
        is_instant(secs as int, 0),
    ensures
        text@ == utc_day_text(secs),
{
    chrono::DateTime::from_timestamp(secs, 0).unwrap().format("%Y-%m-%d").to_string()
}

} // verus!

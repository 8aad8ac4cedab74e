//! The calls into outside crates (chrono, sha2, serde_jcs, uuid). Each item
//! here is trusted: Verus believes its contract without reading its body.
use sha2::Digest;
use vstd::prelude::*;

verus! {

/// Lowercase hexadecimal digits, as `uuid` and `format!("{:x}")` write them.
pub open spec fn is_lower_hex_char(c: char) -> bool {
    ('0' <= c && c <= '9') || ('a' <= c && c <= 'f')
}

/// How RFC 8785 (section 3.2.2.2) writes one character inside a string
/// literal, as `serde_json`'s escape table applies it: the quote, the reverse
/// solidus and the C0 controls are escaped, every other character stands as
/// itself.
pub open spec fn jcs_escaped_char(c: char) -> Seq<char> {
    if c == '"' {
        seq!['\\', '"']
    } else if c == '\\' {
        seq!['\\', '\\']
    } else if c == '\u{8}' {
        seq!['\\', 'b']
    } else if c == '\t' {
        seq!['\\', 't']
    } else if c == '\n' {
        seq!['\\', 'n']
    } else if c == '\u{c}' {
        seq!['\\', 'f']
    } else if c == '\r' {
        seq!['\\', 'r']
    } else if (c as u32) < 0x20 {
        seq!['\\', 'u', '0', '0', hex_digit_char(((c as u32) / 16) as u8), hex_digit_char(((c as u32) % 16) as u8)]
    } else {
        seq![c]
    }
}

/// The lowercase hexadecimal digit for a value below sixteen.
pub open spec fn hex_digit_char(n: u8) -> char {
    if n < 10 {
        ((n + 48) as u8) as char
    } else {
        ((n + 87) as u8) as char
    }
}

/// The escaped body of a string literal, character by character.
pub open spec fn jcs_escaped(s: Seq<char>) -> Seq<char>
    decreases s.len(),
{
    if s.len() == 0 {
        Seq::empty()
    } else {
        jcs_escaped(s.drop_last()) + jcs_escaped_char(s.last())
    }
}

/// The RFC 8785 serialization of a JSON string.
pub open spec fn jcs_string_text(s: Seq<char>) -> Seq<char> {
    seq!['"'] + jcs_escaped(s) + seq!['"']
}

/// The canonical (RFC 8785) serialization of a string, by `serde_jcs::to_string`.
/// Claimed: the result is the quoted, escaped string of `jcs_string_text`.
/// For a `str` the serializer writes into a `Vec<u8>`, which cannot fail, so
/// the error branch is never taken.
#[verifier::external_body]
pub(crate) fn jcs_string(text: &str) -> (r: String)
    ensures
        r@ == jcs_string_text(text@),
{
    match serde_jcs::to_string(text) {
        Ok(s) => s,
        Err(_) => String::new(),
    }
}

/// Whether the `regex` crate's class `\d` (Unicode general category `Nd`,
/// decimal digits of every script) contains a character.
pub uninterp spec fn unicode_decimal_digit(c: char) -> bool;

/// `regex::Regex::is_match` of the pattern `^\d$` on the one-character text of
/// `c`. Claimed: the result is the named class membership; the ASCII digits
/// `0` to `9` belong to it, as they are of category `Nd`.
#[verifier::external_body]
pub(crate) fn is_unicode_decimal_digit(c: char) -> (r: bool)
    ensures
        r == unicode_decimal_digit(c),
        '0' <= c <= '9' ==> r,
{
    let mut buf = [0u8; 4];
    let text: &str = c.encode_utf8(&mut buf);
    match regex::Regex::new(r"^\d$") {
        Ok(re) => re.is_match(text),
        Err(_) => false,
    }
}

/// What `sha2::Sha256::digest` gives for the UTF-8 encoding of a text.
pub uninterp spec fn sha256_of_text(text: Seq<char>) -> Seq<u8>;

/// `sha2::Sha256::digest` over the UTF-8 bytes of `text`. Claimed: the result
/// is the named digest of the text, and it is 32 bytes long (SHA-256 output).
#[verifier::external_body]
pub(crate) fn sha256_text(text: &str) -> (r: Vec<u8>)
    ensures
        r@ == sha256_of_text(text@),
        r@.len() == 32,
{
    sha2::Sha256::digest(text.as_bytes()).to_vec()
}

/// What `chrono::DateTime::parse_from_rfc3339` gives for a text: `None` where it
/// fails, else the instant as UNIX seconds and the nanoseconds within the second.
pub uninterp spec fn rfc3339_instant(text: Seq<char>) -> Option<(i64, u32)>;

/// `chrono::DateTime::parse_from_rfc3339`, the instant read as seconds and
/// nanoseconds. Claimed: the result is the named one for the text.
#[verifier::external_body]
pub(crate) fn parse_rfc3339_instant(text: &str) -> (r: Option<(i64, u32)>)
    ensures
        r == rfc3339_instant(text@),
{
    match chrono::DateTime::parse_from_rfc3339(text) {
        Ok(t) => Some((t.timestamp(), t.timestamp_subsec_nanos())),
        Err(_) => None,
    }
}

/// What `chrono::DateTime::to_rfc3339_opts(SecondsFormat::AutoSi, true)` writes
/// for the UTC instant that `DateTime::from_timestamp` builds from seconds and
/// nanoseconds; `None` where `from_timestamp` has no such instant.
pub uninterp spec fn utc_rfc3339_text(seconds: i64, nanos: u32) -> Option<Seq<char>>;

/// `chrono::DateTime::from_timestamp` followed by
/// `to_rfc3339_opts(SecondsFormat::AutoSi, true)`. Claimed: the result is the
/// named text of the instant, `None` exactly where chrono has no such instant.
#[verifier::external_body]
pub(crate) fn format_utc_rfc3339(seconds: i64, nanos: u32) -> (r: Option<String>)
    ensures
        match r {
            Some(s) => utc_rfc3339_text(seconds, nanos) == Some(s@),
            None => utc_rfc3339_text(seconds, nanos) is None,
        },
{
    match chrono::DateTime::from_timestamp(seconds, nanos) {
        Some(t) => Some(t.to_rfc3339_opts(chrono::SecondsFormat::AutoSi, true)),
        None => None,
    }
}

/// `chrono::Utc::now`, read as UNIX seconds and nanoseconds. Which instant it
/// is, is the machine's clock and is not claimed. Claimed: the reading is one
/// that `DateTime::from_timestamp` takes back, as chrono documents that
/// `from_timestamp` round-trips `timestamp` and `timestamp_subsec_nanos`.
#[verifier::external_body]
pub(crate) fn utc_now() -> (r: (i64, u32))
    ensures
        utc_rfc3339_text(r.0, r.1) is Some,
{
    let t = chrono::Utc::now();
    (t.timestamp(), t.timestamp_subsec_nanos())
}

/// `uuid::Uuid::new_v4().simple()` written with `Display`. Claimed, as the uuid
/// crate documents its simple format: 32 lowercase hexadecimal digits. The value
/// itself is random.
#[verifier::external_body]
pub(crate) fn random_uuid_simple() -> (r: String)
    ensures
        r@.len() == 32,
        forall|i: int| 0 <= i < 32 ==> is_lower_hex_char(#[trigger] r@[i]),
{
    uuid::Uuid::new_v4().simple().to_string()
}

} // verus!

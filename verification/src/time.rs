//! Instants: RFC 3339 timestamps with an explicit offset, and the library's
//! own UTC instant type.
use vstd::prelude::*;
use crate::external::{
    format_utc_rfc3339, parse_rfc3339_instant, rfc3339_instant, utc_now, utc_rfc3339_text,
};
use crate::text::{has_explicit_offset, has_explicit_offset_text, owned};
use crate::types::{ApprovalError, SpecError, Text};

verus! {

/// An instant as UNIX seconds and nanoseconds within the second (a leap second
/// carries nanoseconds past one billion).
pub type Instant = (i64, u32);

/// `a` comes strictly before `b`.
pub open spec fn instant_before(a: Instant, b: Instant) -> bool {
    a.0 < b.0 || (a.0 == b.0 && a.1 < b.1)
}

pub open spec fn msg_offset_required() -> Text {
    "timestamp requires an explicit offset"@
}

pub open spec fn msg_invalid_timestamp() -> Text {
    "invalid RFC 3339 timestamp"@
}

/// The instant a timestamp text denotes: the text must end with an explicit
/// offset and be RFC 3339 as chrono reads it.
pub open spec fn parse_time_outcome(t: Text) -> Result<Instant, Text> {
    if !has_explicit_offset_text(t) {
        Err(msg_offset_required())
    } else {
        match rfc3339_instant(t) {
            Some(i) => Ok(i),
            None => Err(msg_invalid_timestamp()),
        }
    }
}

/// Reads an RFC 3339 timestamp that carries an explicit offset.
pub fn parse_time(value: &str) -> (r: Result<Instant, ApprovalError>)
    ensures
        match r {
            Ok(i) => parse_time_outcome(value@) == Ok::<Instant, Text>(i),
            Err(e) => parse_time_outcome(value@) matches Err(m) && e@ == SpecError::Validation(m),
        },
{
    if !has_explicit_offset(value) {
        return Err(ApprovalError::Validation(owned("timestamp requires an explicit offset")));
    }
    match parse_rfc3339_instant(value) {
        Some(i) => Ok(i),
        None => Err(ApprovalError::Validation(owned("invalid RFC 3339 timestamp"))),
    }
}

/// A UTC instant together with its RFC 3339 text (`Z` offset, automatic
/// sub-second digits). The text always reads back to the same instant.
pub struct Timestamp {
    seconds: i64,
    nanos: u32,
    text: String,
}

pub struct SpecTimestamp {
    pub seconds: i64,
    pub nanos: u32,
    pub text: Text,
}

impl View for Timestamp {
    type V = SpecTimestamp;

    closed spec fn view(&self) -> SpecTimestamp {
        SpecTimestamp { seconds: self.seconds, nanos: self.nanos, text: self.text@ }
    }
}

impl SpecTimestamp {
    pub open spec fn instant(self) -> Instant {
        (self.seconds, self.nanos)
    }
}

impl Timestamp {
    #[verifier::type_invariant]
    spec fn text_reads_back(self) -> bool {
        &&& parse_time_outcome(self.text@) == Ok::<Instant, Text>((self.seconds, self.nanos))
        &&& utc_rfc3339_text(self.seconds, self.nanos) == Some(self.text@)
    }

    /// The UTC instant `seconds` after the UNIX epoch plus `nanos`, if chrono
    /// can represent it and its RFC 3339 text reads back to it.
    pub fn from_unix(seconds: i64, nanos: u32) -> (r: Option<Timestamp>)
        ensures
            match r {
                Some(t) => {
                    &&& t@.seconds == seconds
                    &&& t@.nanos == nanos
                    &&& utc_rfc3339_text(seconds, nanos) == Some(t@.text)
                    &&& parse_time_outcome(t@.text) == Ok::<Instant, Text>((seconds, nanos))
                },
                None => match utc_rfc3339_text(seconds, nanos) {
                    Some(text) => parse_time_outcome(text) != Ok::<Instant, Text>((seconds, nanos)),
                    None => true,
                },
            },
    {
        match format_utc_rfc3339(seconds, nanos) {
            None => None,
            Some(text) => {
                match parse_time(text.as_str()) {
                    Ok(i) => {
                        if i.0 == seconds && i.1 == nanos {
                            Some(Timestamp { seconds, nanos, text })
                        } else {
                            None
                        }
                    },
                    Err(_) => None,
                }
            },
        }
    }

    /// The machine's current UTC time. The clock's reading always has an
    /// RFC 3339 text; the result is `None` exactly where that text does not read
    /// back to the reading.
    pub fn now() -> (r: Option<Timestamp>)
        ensures
            exists|seconds: i64, nanos: u32|
                match #[trigger] utc_rfc3339_text(seconds, nanos) {
                    Some(text) => match r {
                        Some(t) => {
                            &&& t@.seconds == seconds
                            &&& t@.nanos == nanos
                            &&& t@.text == text
                            &&& parse_time_outcome(text) == Ok::<Instant, Text>((seconds, nanos))
                        },
                        None => parse_time_outcome(text) != Ok::<Instant, Text>((seconds, nanos)),
                    },
                    None => false,
                },
    {
        let (seconds, nanos) = utc_now();
        let r = Timestamp::from_unix(seconds, nanos);
        assert(utc_rfc3339_text(seconds, nanos) is Some);
        r
    }

    pub fn seconds(&self) -> (r: i64)
        ensures
            r == self@.seconds,
    {
        self.seconds
    }

    pub fn nanos(&self) -> (r: u32)
        ensures
            r == self@.nanos,
    {
        self.nanos
    }

    /// The RFC 3339 text of the instant; it reads back to the instant.
    pub fn text(&self) -> (r: &String)
        ensures
            r@ == self@.text,
            parse_time_outcome(r@) == Ok::<Instant, Text>(self@.instant()),
            utc_rfc3339_text(self@.seconds, self@.nanos) == Some(r@),
    {
        proof {
            use_type_invariant(self);
        }
        &self.text
    }
}

} // verus!

//! The export's data: timestamps, messages, attachments, channels and users.
use vstd::prelude::*;

use crate::number::{
    decimal_of, digits_of, integer_of, is_digit, lemma_decimal_round_trip, lemma_digits_of, parse_i64,
    parse_u32, push_digits,
};
use crate::text::{chars_of, copy_range, find_char, index_of, lemma_index_of, push_char};

verus! {

broadcast use vstd::string::group_string_axioms;

/// The earliest second that a timestamp may name: 0001-01-01T00:00:00Z.
pub const MIN_SECS: i64 = -62_135_596_800;

/// The latest second that a timestamp may name: 9998-12-31T23:59:59Z, whose
/// local date stays within four-digit years in every zone.
pub const MAX_SECS: i64 = 253_370_764_799;

/// One more than the largest sub-second part of a timestamp.
pub const NSECS_PER_SEC: u32 = 1_000_000_000;

/// The text of the instant `secs`.`nsecs` after the Unix epoch, in RFC 2822
/// form, as a clock in Tokyo shows it.
pub uninterp spec fn tokyo_rfc2822(secs: i64, nsecs: u32) -> Seq<char>;

/// Relies on chrono's `DateTime::from_timestamp`, `DateTime::with_timezone`
/// with chrono-tz's `Asia::Tokyo`, and `DateTime::to_rfc2822`: the RFC 2822 text
/// of the instant in Tokyo time. In the range required, `from_timestamp` gives
/// `Some` and the local year has four digits, so nothing panics.
#[verifier::external_body]
fn rfc2822_in_tokyo(secs: i64, nsecs: u32) -> (r: String)
    requires
        MIN_SECS <= secs <= MAX_SECS,
        nsecs < NSECS_PER_SEC,
    ensures
        r@ == tokyo_rfc2822(secs, nsecs),
{
    chrono::DateTime::from_timestamp(secs, nsecs).unwrap().with_timezone(
        &chrono_tz::Asia::Tokyo,
    ).to_rfc2822()
}

/// A message timestamp: whole seconds since the Unix epoch and a sub-second
/// part. Timestamps order by seconds, then by the sub-second part.
#[derive(Clone, Copy, Debug, PartialEq, Eq, Structural, Hash, PartialOrd, Ord)]
pub struct TimeStamp {
    pub(crate) secs: i64,
    pub(crate) nsecs: u32,
}

pub open spec fn timestamp_in_range(secs: int, nsecs: int) -> bool {
    MIN_SECS <= secs <= MAX_SECS && 0 <= nsecs < NSECS_PER_SEC
}

impl View for TimeStamp {
    /// Whole seconds and the sub-second part.
    type V = (int, int);

    closed spec fn view(&self) -> (int, int) {
        (self.secs as int, self.nsecs as int)
    }
}

/// Strict order of timestamps.
pub open spec fn ts_lt(a: (int, int), b: (int, int)) -> bool {
    a.0 < b.0 || (a.0 == b.0 && a.1 < b.1)
}

impl TimeStamp {
    #[verifier::type_invariant]
    spec fn in_range(self) -> bool {
        timestamp_in_range(self.secs as int, self.nsecs as int)
    }

    /// The timestamp `secs`.`nsecs`, where it lies in the supported range.
    pub fn new(secs: i64, nsecs: u32) -> (r: Option<TimeStamp>)
        ensures
            r is Some <==> timestamp_in_range(secs as int, nsecs as int),
            r is Some ==> r->0@ == (secs as int, nsecs as int),
    {
        if MIN_SECS <= secs && secs <= MAX_SECS && nsecs < NSECS_PER_SEC {
            Some(TimeStamp { secs, nsecs })
        } else {
            None
        }
    }

    pub fn secs(&self) -> (r: i64)
        ensures
            r == self@.0,
    {
        self.secs
    }

    pub fn nsecs(&self) -> (r: u32)
        ensures
            r == self@.1,
    {
        self.nsecs
    }

    /// Whether `self` and `other` name the same instant.
    pub fn same(&self, other: &TimeStamp) -> (r: bool)
        ensures
            r == (self@ == other@),
    {
        self.secs == other.secs && self.nsecs == other.nsecs
    }

    /// Whether `self` comes strictly before `other`.
    pub fn earlier(&self, other: &TimeStamp) -> (r: bool)
        ensures
            r == ts_lt(self@, other@),
    {
        self.secs < other.secs || (self.secs == other.secs && self.nsecs < other.nsecs)
    }

    /// The text under which the timestamp is stored (see [`timestamp_text`]).
    pub fn to_text(&self) -> (r: String)
        ensures
            r@ == timestamp_text(self@),
    {
        proof {
            use_type_invariant(self);
        }
        let mut r = String::new();
        if self.secs < 0 {
            push_char(&mut r, '-');
            push_digits(&mut r, (0 - self.secs) as u64);
        } else {
            push_digits(&mut r, self.secs as u64);
        }
        push_char(&mut r, '.');
        push_digits(&mut r, self.nsecs as u64);
        assert(r@ =~= timestamp_text(self@));
        r
    }

    /// The timestamp as a clock in Tokyo shows it, in RFC 2822 form
    /// (`Tue, 1 Jul 2003 10:52:37 +0900`).
    pub fn jtc_date(&self) -> (r: String)
        ensures
            timestamp_in_range(self@.0, self@.1),
            r@ == tokyo_rfc2822(self@.0 as i64, self@.1 as u32),
    {
        proof {
            use_type_invariant(self);
        }
        rfc2822_in_tokyo(self.secs, self.nsecs)
    }
}

/// The text of a timestamp: the seconds and the sub-second part in decimal,
/// joined by a `.`.
pub open spec fn timestamp_text(t: (int, int)) -> Seq<char> {
    decimal_of(t.0) + seq!['.'] + decimal_of(t.1)
}

/// Why a timestamp's text was refused.
#[derive(Clone, Copy, Debug, PartialEq, Eq, Structural)]
pub enum TimeStampError {
    /// The part before the first `.` is no signed 64-bit integer.
    InvalidSecs,
    /// There is no `.`.
    MissingNsecs,
    /// The part after the first `.`, up to the next one, is no unsigned 32-bit integer.
    InvalidNsecs,
    /// The seconds or the sub-second part lie outside the supported range.
    OutOfRange,
}

/// Where the first `.` of `s` stands, or the length of `s` if none does.
pub open spec fn dot_index(s: Seq<char>) -> int {
    index_of(s, '.')
}

/// The text up to the first `.`.
pub open spec fn first_field(s: Seq<char>) -> Seq<char> {
    s.take(dot_index(s))
}

/// The text after the first `.`, up to the next `.` or the end.
pub open spec fn second_field(s: Seq<char>) -> Seq<char> {
    first_field(s.skip(dot_index(s) + 1))
}

/// What the text `s` of a timestamp (`<secs>.<sub-second part>`) stands for.
/// Text after a second `.` is not read.
pub open spec fn timestamp_of(s: Seq<char>) -> Result<(i64, u32), TimeStampError> {
    let secs = integer_of(first_field(s), true);
    let nsecs = integer_of(second_field(s), false);
    if !(secs is Some && i64::MIN <= secs->0 <= i64::MAX) {
        Err(TimeStampError::InvalidSecs)
    } else if dot_index(s) == s.len() {
        Err(TimeStampError::MissingNsecs)
    } else if !(nsecs is Some && nsecs->0 <= u32::MAX) {
        Err(TimeStampError::InvalidNsecs)
    } else if !timestamp_in_range(secs->0, nsecs->0) {
        Err(TimeStampError::OutOfRange)
    } else {
        Ok((secs->0 as i64, nsecs->0 as u32))
    }
}

/// Reads a timestamp written `<secs>.<sub-second part>`, the sub-second part
/// read as a whole number. A part after a second `.` is ignored.
pub fn parse_timestamp(src: &str) -> (r: Result<TimeStamp, TimeStampError>)
    ensures
        match timestamp_of(src@) {
            Ok((secs, nsecs)) => r is Ok && r->Ok_0@ == (secs as int, nsecs as int),
            Err(e) => r == Err::<TimeStamp, TimeStampError>(e),
        },
{
    let cs = chars_of(src);
    let dot = find_char(&cs, 0, '.');
    assert(cs@.skip(0) =~= cs@);
    let first = copy_range(&cs, 0, dot);
    assert(first@ =~= first_field(src@));
    let secs = match parse_i64(&first) {
        Some(v) => v,
        None => {
            return Err(TimeStampError::InvalidSecs);
        },
    };
    if dot == cs.len() {
        return Err(TimeStampError::MissingNsecs);
    }
    let end = find_char(&cs, dot + 1, '.');
    assert(dot_index(src@) == dot);
    let second = copy_range(&cs, dot + 1, end);
    assert(second@ =~= second_field(src@));
    let nsecs = match parse_u32(&second) {
        Some(v) => v,
        None => {
            return Err(TimeStampError::InvalidNsecs);
        },
    };
    match TimeStamp::new(secs, nsecs) {
        Some(ts) => Ok(ts),
        None => Err(TimeStampError::OutOfRange),
    }
}

/// A greeting.
pub fn hello() -> (r: String)
    ensures
        r@ == "Hello World!"@,
{
    String::from_str("Hello World!")
}

/// The kind of a system event in a channel.
#[derive(Clone, Copy, Debug, PartialEq, Eq, Structural)]
pub enum MessageSubType {
    Join,
    Purpose,
    ThreadBroadcast,
    Tombstone,
    Topic,
    ReminderAdd,
    ChannelName,
    Archive,
    Unarchive,
}

/// An attachment of a message. Only a hosted file has content to fetch.
#[derive(Clone, Debug)]
pub enum File {
    Hosted { name: String, title: String, url_private_download: String },
    Tombstone,
    External { name: String, title: String },
    Snippet,
}

/// One message of a channel.
///
/// A thread root carries `reply_count`; a reply carries `thread_ts`, the
/// timestamp of its root, and no `reply_count` of its own.
#[derive(Clone, Debug)]
pub enum Message {
    Message {
        text: String,
        files: Option<Vec<File>>,
        user: String,
        subtype: Option<MessageSubType>,
        ts: TimeStamp,
        reply_count: Option<u64>,
        thread_ts: Option<TimeStamp>,
    },
}

impl Message {
    pub open spec fn spec_ts(self) -> (int, int) {
        match self {
            Message::Message { ts, .. } => ts@,
        }
    }

    /// The timestamp of the message, its key within the channel.
    pub fn ts(&self) -> (r: TimeStamp)
        ensures
            r@ == self.spec_ts(),
    {
        match self {
            Message::Message { ts, .. } => *ts,
        }
    }
}

/// A channel as the export lists it.
#[derive(Clone, Debug)]
pub struct Channel {
    pub name: String,
    pub id: String,
}

/// A user of the export: an account handle and, where set, a display name.
#[derive(Clone, Debug)]
pub struct User {
    pub id: String,
    pub real_name: Option<String>,
    pub name: String,
}

impl User {
    pub open spec fn spec_readable_name(&self) -> Seq<char> {
        match self.real_name {
            Some(n) => n@,
            None => self.name@,
        }
    }

    /// The display name where one is set, else the account handle.
    pub fn readable_name(&self) -> (r: &str)
        ensures
            r@ == self.spec_readable_name(),
    {
        match &self.real_name {
            Some(n) => n.as_str(),
            None => self.name.as_str(),
        }
    }
}

proof fn lemma_decimal_has_no_dot(n: int)
    ensures
        forall|k: int| 0 <= k < decimal_of(n).len() ==> decimal_of(n)[k] != '.',
{
    if n < 0 {
        lemma_digits_of((-n) as nat);
        assert forall|k: int| 0 <= k < decimal_of(n).len() implies decimal_of(n)[k] != '.' by {
            if k > 0 {
                assert(decimal_of(n)[k] == digits_of((-n) as nat)[k - 1]);
                assert(is_digit(digits_of((-n) as nat)[k - 1]));
            }
        }
    } else {
        lemma_digits_of(n as nat);
        assert forall|k: int| 0 <= k < decimal_of(n).len() implies decimal_of(n)[k] != '.' by {
            assert(is_digit(digits_of(n as nat)[k]));
        }
    }
}

/// Writing a timestamp as text and reading the text back gives the same
/// timestamp, so a key written to the store is found again.
pub proof fn law_timestamp_text_round_trip(t: (int, int))
    requires
        timestamp_in_range(t.0, t.1),
    ensures
        timestamp_of(timestamp_text(t)) == Ok::<(i64, u32), TimeStampError>((t.0 as i64, t.1 as u32)),
{
    let a = decimal_of(t.0);
    let b = decimal_of(t.1);
    let s = timestamp_text(t);
    lemma_decimal_has_no_dot(t.0);
    lemma_decimal_has_no_dot(t.1);
    assert forall|k: int| 0 <= k < a.len() implies s[k] != '.' by {
        assert(s[k] == a[k]);
    }
    assert(s[a.len() as int] == '.');
    lemma_index_of(s, '.', a.len() as int);
    assert(s.take(a.len() as int) =~= a);
    assert(s.skip(a.len() as int + 1) =~= b);
    lemma_index_of(b, '.', b.len() as int);
    assert(b.take(b.len() as int) =~= b);
    lemma_decimal_round_trip(t.0, true);
    lemma_decimal_round_trip(t.1, false);
}

} // verus!

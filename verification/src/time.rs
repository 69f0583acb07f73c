//! Timestamps: an instant with the UTC offset it was written in, read
//! and written as RFC 3339 text; and clocks that give the current one.

use vstd::prelude::*;
use vstd::std_specs::cmp::PartialEqSpecImpl;

verus! {

#[verifier::external_type_specification]
#[verifier::external_body]
pub struct ExTimeParse(time::error::Parse);

/// What `time` reads from an RFC 3339 text: nanoseconds since the Unix
/// epoch and the offset in seconds.
pub uninterp spec fn rfc3339_read(s: Seq<char>) -> Option<(i128, i32)>;

/// What `time` writes for an instant in a given offset, if it can.
pub uninterp spec fn rfc3339_written(unix_nanos: i128, offset_seconds: i32) -> Option<Seq<char>>;

/// Calls `OffsetDateTime::now_utc()`, as nanoseconds since the epoch and
/// offset. The claim: the offset is UTC; the instant depends on the clock.
#[verifier::external_body]
fn now_utc_parts() -> (r: (i128, i32))
    ensures
        r.1 == 0,
{
    let t = time::OffsetDateTime::now_utc();
    (t.unix_timestamp_nanos(), t.offset().whole_seconds())
}

/// Calls `OffsetDateTime::parse(s, &Rfc3339)`. The claim: it succeeds
/// exactly when the named reading does, with its instant and offset.
#[verifier::external_body]
fn rfc3339_parse(s: &str) -> (r: Result<(i128, i32), time::error::Parse>)
    ensures
        r is Ok <==> rfc3339_read(s@) is Some,
        r matches Ok(v) ==> rfc3339_read(s@) == Some(v),
{
    match time::OffsetDateTime::parse(s, &time::format_description::well_known::Rfc3339) {
        Ok(t) => Ok((t.unix_timestamp_nanos(), t.offset().whole_seconds())),
        Err(e) => Err(e),
    }
}

/// Calls `OffsetDateTime::format(&Rfc3339)` on the instant in the given
/// offset, after `from_unix_timestamp_nanos`, `UtcOffset::from_whole_seconds`
/// and `checked_to_offset`; nothing when any of them fails. The claim:
/// the result is the named writing.
#[verifier::external_body]
fn rfc3339_format(unix_nanos: i128, offset_seconds: i32) -> (r: Option<String>)
    ensures
        match r {
            Some(s) => rfc3339_written(unix_nanos, offset_seconds) == Some(s@),
            None => rfc3339_written(unix_nanos, offset_seconds) is None,
        },
{
    let t = time::OffsetDateTime::from_unix_timestamp_nanos(unix_nanos).ok()?;
    let o = time::UtcOffset::from_whole_seconds(offset_seconds).ok()?;
    t.checked_to_offset(o)?.format(&time::format_description::well_known::Rfc3339).ok()
}

/// An instant, with the UTC offset it is written in. Two timestamps are
/// equal when they are the same instant.
#[derive(Clone, Copy, Debug)]
pub struct Timestamp {
    pub unix_nanos: i128,
    pub offset_seconds: i32,
}

impl PartialEq for Timestamp {
    fn eq(&self, other: &Timestamp) -> (r: bool) {
        self.unix_nanos == other.unix_nanos
    }
}

impl PartialEqSpecImpl for Timestamp {
    open spec fn obeys_eq_spec() -> bool {
        true
    }

    open spec fn eq_spec(&self, other: &Timestamp) -> bool {
        self.unix_nanos == other.unix_nanos
    }
}

impl Eq for Timestamp {

}

/// A text that is not an RFC 3339 timestamp.
#[derive(Clone, Copy, Debug, PartialEq, Eq, Structural)]
pub struct TimeParseError;

/// The text written when a timestamp cannot be written.
pub open spec fn epoch_text() -> Seq<char> {
    "1970-01-01T00:00:00Z"@
}

impl Timestamp {
    /// The current instant, in UTC.
    pub fn now() -> (r: Timestamp)
        ensures
            r.offset_seconds == 0,
    {
        let (n, o) = now_utc_parts();
        Timestamp { unix_nanos: n, offset_seconds: o }
    }

    /// Reads an RFC 3339 text.
    pub fn parse(s: &str) -> (r: Result<Timestamp, TimeParseError>)
        ensures
            match rfc3339_read(s@) {
                Some(v) => r matches Ok(t) && t.unix_nanos == v.0 && t.offset_seconds == v.1,
                None => r is Err,
            },
    {
        match rfc3339_parse(s) {
            Ok((n, o)) => Ok(Timestamp { unix_nanos: n, offset_seconds: o }),
            Err(_) => Err(TimeParseError),
        }
    }

    /// The RFC 3339 text of the timestamp; the epoch's when it cannot be
    /// written.
    pub fn to_rfc3339(self) -> (r: String)
        ensures
            r@ == match rfc3339_written(self.unix_nanos, self.offset_seconds) {
                Some(t) => t,
                None => epoch_text(),
            },
    {
        match rfc3339_format(self.unix_nanos, self.offset_seconds) {
            Some(t) => t,
            None => "1970-01-01T00:00:00Z".to_string(),
        }
    }
}

/// A source of the current time.
pub trait Clock {
    fn now(&self) -> Timestamp;
}

/// The wall clock, in UTC.
#[derive(Clone, Copy, Debug)]
pub struct SystemClock;

impl Clock for SystemClock {
    fn now(&self) -> (r: Timestamp) {
        Timestamp::now()
    }
}

#[verifier::external_type_specification]
#[verifier::external_body]
#[verifier::reject_recursive_types(T)]
pub struct ExMutex<T: ?Sized>(std::sync::Mutex<T>);

/// `Mutex::new`: a lock holding `t`.
#[verifier::external_body]
fn instant_cell(t: Timestamp) -> (r: std::sync::Mutex<Timestamp>) {
    std::sync::Mutex::new(t)
}

/// `Mutex::lock`, then the instant it holds; none when the lock is
/// poisoned. What it holds is whatever the last `set` through any clone
/// of the clock left.
#[verifier::external_body]
fn instant_read(cell: &std::sync::Mutex<Timestamp>) -> (r: Option<Timestamp>) {
    cell.lock().ok().map(|g| *g)
}

/// `Mutex::lock`, then `t` put in place of the instant it holds; nothing
/// when the lock is poisoned.
#[verifier::external_body]
fn instant_write(cell: &std::sync::Mutex<Timestamp>, t: Timestamp) {
    if let Ok(mut g) = cell.lock() {
        *g = t;
    }
}

/// A clock pinned to an instant that only `set` moves. Clones share the
/// instant: a `set` through one is what every clone reads.
#[derive(Clone, Debug)]
pub struct FixedClock {
    now: std::sync::Arc<std::sync::Mutex<Timestamp>>,
}

impl FixedClock {
    /// A clock pinned to `t`.
    pub fn at(t: Timestamp) -> (r: FixedClock) {
        FixedClock { now: std::sync::Arc::new(instant_cell(t)) }
    }

    /// Moves the shared instant to `t`.
    pub fn set(&self, t: Timestamp) {
        instant_write(&self.now, t);
    }
}

impl Clock for FixedClock {
    /// The shared instant; the wall clock if the lock was poisoned.
    fn now(&self) -> (r: Timestamp) {
        match instant_read(&self.now) {
            Some(t) => t,
            None => Timestamp::now(),
        }
    }
}

} // verus!

use vstd::prelude::*;

verus! {

/// Largest sub-second part: a leap second runs on past one billion.
pub const MAX_NANOS: u32 = 1_999_999_999;

/// A point in time with the UTC offset it was read in: seconds since the
/// Unix epoch, nanoseconds within the second, and local time minus UTC in seconds.
#[derive(Debug, Clone, Copy, PartialEq, Eq, Structural)]
pub struct Timestamp {
    pub secs: i64,
    pub nanos: u32,
    pub offset: i32,
}

impl Timestamp {
    /// The parts are in range: an offset of less than a day either way.
    pub open spec fn wf(&self) -> bool {
        &&& self.nanos <= MAX_NANOS
        &&& -86_400 < self.offset < 86_400
    }

    /// A timestamp from its parts, if they are in range.
    pub fn from_parts(secs: i64, nanos: u32, offset: i32) -> (r: Option<Timestamp>)
        ensures
            match r {
                Some(t) => t.wf() && t.secs == secs && t.nanos == nanos && t.offset == offset,
                None => !(Timestamp { secs, nanos, offset }).wf(),
            },
    {
        if nanos <= MAX_NANOS && -86_400 < offset && offset < 86_400 {
            Some(Timestamp { secs, nanos, offset })
        } else {
            None
        }
    }

    /// The current local time.
    pub fn now() -> (r: Timestamp)
        ensures
            r.wf(),
    {
        local_now()
    }
}

/// Relies on chrono's `Local::now`, read through `timestamp`,
/// `timestamp_subsec_nanos` and `offset().local_minus_utc()`: the nanoseconds
/// stay under two billion and a `FixedOffset` is under a day either way.
#[verifier::external_body]
fn local_now() -> (r: Timestamp)
    ensures
        r.wf(),
{
    let now = chrono::Local::now();
    Timestamp {
        secs: now.timestamp(),
        nanos: now.timestamp_subsec_nanos(),
        offset: now.offset().local_minus_utc(),
    }
}

} // verus!

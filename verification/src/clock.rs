//! Points in time as seconds and nanoseconds since the Unix epoch.
use vstd::prelude::*;

verus! {

pub const NANOS_PER_SEC: u32 = 1_000_000_000;

/// Timestamps lie within this many seconds of the epoch.
pub const MAX_EPOCH_SECS: i64 = 0x4000_0000_0000_0000;

#[derive(Clone, Copy, Debug, PartialEq, Eq, Structural)]
pub struct Timestamp {
    pub secs: i64,
    pub nanos: u32,
}

impl Timestamp {
    /// The fraction is below one second and the seconds are in range.
    pub open spec fn wf(self) -> bool {
        &&& self.nanos < NANOS_PER_SEC
        &&& -MAX_EPOCH_SECS <= self.secs <= MAX_EPOCH_SECS
    }

    /// Nanoseconds since the epoch.
    pub open spec fn as_nanos(self) -> int {
        self.secs * 1_000_000_000 + self.nanos
    }

    /// `None` unless `nanos` is below one second and `secs` is in range.
    pub fn new(secs: i64, nanos: u32) -> (t: Option<Timestamp>)
        ensures
            t is Some <==> (Timestamp { secs, nanos }).wf(),
            t is Some ==> t->0 == (Timestamp { secs, nanos }),
    {
        if nanos < NANOS_PER_SEC && -MAX_EPOCH_SECS <= secs && secs <= MAX_EPOCH_SECS {
            Some(Timestamp { secs, nanos })
        } else {
            None
        }
    }

    pub fn nanos_since_epoch(&self) -> (n: i128)
        requires
            self.wf(),
        ensures
            n == self.as_nanos(),
    {
        (self.secs as i128) * 1_000_000_000 + (self.nanos as i128)
    }

    /// Whether `self` is strictly earlier than `other`.
    pub fn is_before(&self, other: &Timestamp) -> (b: bool)
        requires
            self.wf(),
            other.wf(),
        ensures
            b == (self.as_nanos() < other.as_nanos()),
    {
        self.secs < other.secs || (self.secs == other.secs && self.nanos < other.nanos)
    }
}

/// The whole seconds in a span of `nanos` nanoseconds, rounded toward zero.
pub open spec fn whole_seconds(nanos: int) -> int {
    if nanos >= 0 {
        nanos / 1_000_000_000
    } else {
        -((-nanos) / 1_000_000_000)
    }
}

/// `chrono::Utc::now`, taken apart with `DateTime::timestamp` and
/// `DateTime::timestamp_subsec_nanos`. The clock's reading is a valid
/// timestamp at or after the epoch; nothing else is known of it, and two
/// readings may differ. The call expects a system clock that is not set
/// before 1970.
#[verifier::external_body]
pub(crate) fn utc_now() -> (t: Timestamp)
    ensures
        t.wf(),
        t.secs >= 0,
{
    let now = chrono::Utc::now();
    Timestamp { secs: now.timestamp(), nanos: now.timestamp_subsec_nanos() }
}

} // verus!

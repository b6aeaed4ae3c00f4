//! Points in time, as the memory records them.

use vstd::prelude::*;

verus! {

/// The RFC 3339 text that `chrono` writes (`DateTime::<Utc>::to_rfc3339`) for
/// the instant `seconds` after the Unix epoch plus `nanos`, or `None` where
/// `DateTime::<Utc>::from_timestamp` refuses the pair.
pub uninterp spec fn rfc3339_of(seconds: i64, nanos: u32) -> Option<Seq<char>>;

/// Writes an instant as RFC 3339 text with `chrono`
/// (`DateTime::<Utc>::from_timestamp`, then `to_rfc3339`). Claims only that
/// the result is the one named `rfc3339_of` for these arguments.
#[verifier::external_body]
fn rfc3339_text(seconds: i64, nanos: u32) -> (r: Option<String>)
    ensures
        r is Some <==> rfc3339_of(seconds, nanos) is Some,
        r matches Some(t) ==> t@ == rfc3339_of(seconds, nanos)->0,
{
    match chrono::DateTime::<chrono::Utc>::from_timestamp(seconds, nanos) {
        Some(instant) => Some(instant.to_rfc3339()),
        None => None,
    }
}

/// Reads the system clock with `std::time::SystemTime::now` and gives its
/// distance from the Unix epoch as whole seconds and the nanoseconds past
/// them, with `true` when the reading is at or after the epoch and `false`
/// when it is before (`SystemTime::duration_since(UNIX_EPOCH)` failing).
/// Claims only what `Duration::subsec_nanos` documents: the nanoseconds are
/// less than one billion. The reading itself is whatever the clock says.
#[verifier::external_body]
fn system_clock() -> (r: (bool, u64, u32))
    ensures
        r.2 < 1_000_000_000,
{
    match std::time::SystemTime::now().duration_since(std::time::UNIX_EPOCH) {
        Ok(after) => (true, after.as_secs(), after.subsec_nanos()),
        Err(before) => (false, before.duration().as_secs(), before.duration().subsec_nanos()),
    }
}

/// The whole seconds since the Unix epoch (rounded down) of an instant
/// `secs` seconds and `nanos` nanoseconds after it (`after`) or before it.
pub open spec fn epoch_floor_seconds(after: bool, secs: u64, nanos: u32) -> int {
    if after {
        secs as int
    } else if nanos == 0 {
        -(secs as int)
    } else {
        -(secs as int) - 1
    }
}

/// The nanoseconds since the Unix epoch of that instant.
pub open spec fn epoch_nanos(after: bool, secs: u64, nanos: u32) -> int {
    if after {
        secs * 1_000_000_000 + nanos
    } else {
        -(secs * 1_000_000_000 + nanos)
    }
}

/// Writes a clock reading as seconds since the Unix epoch (rounded down) and
/// the nanoseconds past that second, if the seconds fit in an `i64`.
pub fn epoch_offset(after: bool, secs: u64, nanos: u32) -> (r: Option<(i64, u32)>)
    requires
        nanos < 1_000_000_000,
    ensures
        r is Some <==> i64::MIN <= epoch_floor_seconds(after, secs, nanos) <= i64::MAX,
        r matches Some((s, n)) ==> s == epoch_floor_seconds(after, secs, nanos) && n < 1_000_000_000
            && s * 1_000_000_000 + n == epoch_nanos(after, secs, nanos),
{
    if after {
        if secs <= 0x7fff_ffff_ffff_ffff {
            Some((secs as i64, nanos))
        } else {
            None
        }
    } else if nanos == 0 {
        if secs <= 0x8000_0000_0000_0000 {
            if secs == 0x8000_0000_0000_0000 {
                Some((i64::MIN, 0))
            } else {
                Some((-(secs as i64), 0))
            }
        } else {
            None
        }
    } else if secs <= 0x7fff_ffff_ffff_ffff {
        Some((-(secs as i64) - 1, 1_000_000_000 - nanos))
    } else {
        None
    }
}

/// An instant in UTC that `chrono` can represent.
#[derive(Debug, Clone, Copy)]
pub struct Timestamp {
    seconds: i64,
    nanos: u32,
}

impl Timestamp {
    #[verifier::type_invariant]
    spec fn representable(self) -> bool {
        rfc3339_of(self.seconds, self.nanos) is Some
    }

    /// Seconds since the Unix epoch.
    pub closed spec fn seconds_spec(self) -> i64 {
        self.seconds
    }

    /// Nanoseconds past that second.
    pub closed spec fn nanos_spec(self) -> u32 {
        self.nanos
    }

    /// The RFC 3339 text of this instant.
    pub open spec fn text(self) -> Seq<char> {
        rfc3339_of(self.seconds_spec(), self.nanos_spec())->0
    }

    /// The instant `seconds` after the Unix epoch plus `nanos`, if `chrono` can
    /// represent it.
    pub fn from_parts(seconds: i64, nanos: u32) -> (r: Option<Timestamp>)
        ensures
            r is Some <==> rfc3339_of(seconds, nanos) is Some,
            r matches Some(t) ==> t.seconds_spec() == seconds && t.nanos_spec() == nanos,
    {
        match rfc3339_text(seconds, nanos) {
            Some(_) => Some(Timestamp { seconds, nanos }),
            None => None,
        }
    }

    /// Seconds since the Unix epoch.
    pub fn seconds(&self) -> (r: i64)
        ensures
            r == self.seconds_spec(),
    {
        self.seconds
    }

    /// Nanoseconds past that second.
    pub fn nanos(&self) -> (r: u32)
        ensures
            r == self.nanos_spec(),
    {
        self.nanos
    }

    /// The instant as RFC 3339 text, as `chrono` writes it.
    pub fn rfc3339(&self) -> (r: String)
        ensures
            r@ == self.text(),
            rfc3339_of(self.seconds_spec(), self.nanos_spec()) is Some,
    {
        proof {
            use_type_invariant(self);
        }
        match rfc3339_text(self.seconds, self.nanos) {
            Some(t) => t,
            None => String::new(),
        }
    }

    /// The current instant, if the clock reads one that `chrono` can represent.
    pub fn now() -> (r: Option<Timestamp>) {
        let (after, secs, nanos) = system_clock();
        match epoch_offset(after, secs, nanos) {
            Some((seconds, sub)) => Timestamp::from_parts(seconds, sub),
            None => None,
        }
    }
}

} // verus!

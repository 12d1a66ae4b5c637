use vstd::prelude::*;

use crate::RangeError;

verus! {

/// Nanoseconds in one second.
pub const NANOS_PER_SEC: u32 = 1_000_000_000;

/// Converts time integer types and normalizes excessive nanoseconds into seconds,
/// using widened arithmetic.
pub fn normalize(sec: i64, nsec: u32) -> (r: (i64, i32))
    requires
        sec + nsec as int / 1_000_000_000 <= i64::MAX,
    ensures
        r.0 == sec + nsec as int / 1_000_000_000,
        r.1 == nsec as int % 1_000_000_000,
{
    if nsec < NANOS_PER_SEC {
        (sec, nsec as i32)
    } else {
        let div = nsec / NANOS_PER_SEC;
        let rem = nsec % NANOS_PER_SEC;
        (sec + div as i64, rem as i32)
    }
}

/// Splits a nanosecond count into whole seconds of overflow and a remainder on
/// the range `[0, 1_000_000_000)`.
pub fn normalize_nsec(nsec: u32) -> (r: (u32, u32))
    ensures
        r.0 == nsec as int / 1_000_000_000,
        r.1 == nsec as int % 1_000_000_000,
        r.1 < 1_000_000_000,
{
    if nsec < NANOS_PER_SEC {
        (0, nsec)
    } else {
        (nsec / NANOS_PER_SEC, nsec % NANOS_PER_SEC)
    }
}

/// A timestamp, represented as an unsigned offset from the unix epoch.
///
/// Timestamps before 1970-01-01T00:00:00Z, or after 2106-02-06T22:28:15Z are
/// not representable.
#[derive(Clone, Copy, Debug, PartialEq, Eq, Structural)]
pub struct Timestamp {
    /// Seconds since epoch.
    pub sec: u32,
    /// Additional nanoseconds since epoch.
    pub nsec: u32,
}

impl Default for Timestamp {
    /// The zero timestamp: the unix epoch itself.
    fn default() -> (t: Self)
        ensures
            t.sec == 0 && t.nsec == 0,
    {
        Timestamp { sec: 0, nsec: 0 }
    }
}

impl Timestamp {
    /// Minimum representable timestamp: the unix epoch.
    pub fn min_value() -> (t: Self)
        ensures
            t.sec == 0 && t.nsec == 0,
    {
        Timestamp { sec: 0, nsec: 0 }
    }

    /// Maximum representable timestamp.
    pub fn max_value() -> (t: Self)
        ensures
            t.sec == u32::MAX && t.nsec == u32::MAX,
    {
        Timestamp { sec: u32::MAX, nsec: u32::MAX }
    }

    /// Range-checked construction: nanoseconds in excess of one second are
    /// folded into the seconds component; overflow of the seconds component is
    /// an error.
    pub fn new(sec: u32, nsec: u32) -> (r: Result<Self, RangeError>)
        ensures
            r is Ok <==> sec + nsec as int / 1_000_000_000 <= u32::MAX,
            r matches Ok(t) ==> {
                &&& t.sec == sec + nsec as int / 1_000_000_000
                &&& t.nsec == nsec as int % 1_000_000_000
                &&& t.nsec < 1_000_000_000
            },
            r matches Err(e) ==> e == RangeError::UpperBound,
    {
        let (carry, nsec) = normalize_nsec(nsec);
        if sec <= u32::MAX - carry {
            Ok(Timestamp { sec: sec + carry, nsec })
        } else {
            Err(RangeError::UpperBound)
        }
    }

    /// Range-checked conversion from a whole-second and subsecond-nanosecond
    /// offset from the epoch, as a platform wall-clock duration decomposes.
    pub fn try_from_epoch(secs: u64, subsec_nanos: u32) -> (r: Result<Self, RangeError>)
        requires
            subsec_nanos < 1_000_000_000,
        ensures
            r is Ok <==> secs <= u32::MAX,
            r matches Ok(t) ==> t.sec == secs && t.nsec == subsec_nanos,
            r matches Err(e) ==> e == RangeError::UpperBound,
    {
        if secs <= u32::MAX as u64 {
            Ok(Timestamp { sec: secs as u32, nsec: subsec_nanos })
        } else {
            Err(RangeError::UpperBound)
        }
    }

    /// Saturating counterpart of [`Timestamp::try_from_epoch`]: clamps to the
    /// maximum representable timestamp instead of failing.
    pub fn saturating_from_epoch(secs: u64, subsec_nanos: u32) -> (t: Self)
        requires
            subsec_nanos < 1_000_000_000,
        ensures
            secs <= u32::MAX ==> t.sec == secs && t.nsec == subsec_nanos,
            secs > u32::MAX ==> t.sec == u32::MAX && t.nsec == u32::MAX,
    {
        if secs <= u32::MAX as u64 {
            Timestamp { sec: secs as u32, nsec: subsec_nanos }
        } else {
            Self::max_value()
        }
    }

    /// Range-checked construction from the components of a normalized calendar
    /// delta since the epoch: days, in-day seconds, and in-second microseconds.
    pub fn from_timedelta_parts(days: i32, seconds: u32, microseconds: u32) -> (r: Result<
        Self,
        RangeError,
    >)
        requires
            seconds < 86400,
            microseconds < 1_000_000,
        ensures
            days < 0 ==> r == Result::<Self, RangeError>::Err(RangeError::LowerBound),
            days >= 0 && days * 86400 + seconds > u32::MAX ==> r == Result::<
                Self,
                RangeError,
            >::Err(RangeError::UpperBound),
            r matches Ok(t) ==> {
                &&& days >= 0
                &&& days * 86400 + seconds <= u32::MAX
                &&& t.sec == days * 86400 + seconds
                &&& t.nsec == microseconds * 1000
            },
    {
        if days < 0 {
            return Err(RangeError::LowerBound);
        }
        let day_secs: u64 = (days as u64) * 86400;
        let total: u64 = day_secs + seconds as u64;
        if total > u32::MAX as u64 {
            return Err(RangeError::UpperBound);
        }
        Ok(Timestamp { sec: total as u32, nsec: microseconds * 1000 })
    }
}

/// A signed, fixed-length span of time.
///
/// The duration is represented by a count of seconds (which may be negative),
/// and a count of fractional seconds at nanosecond resolution (which are
/// always in the positive direction).
#[derive(Clone, Copy, Debug, PartialEq, Eq, Structural)]
pub struct Duration {
    /// Seconds offset.
    pub sec: i32,
    /// Nanoseconds offset in the positive direction.
    pub nsec: u32,
}

impl Default for Duration {
    /// The zero duration.
    fn default() -> (d: Self)
        ensures
            d.sec == 0 && d.nsec == 0,
    {
        Duration { sec: 0, nsec: 0 }
    }
}

impl Duration {
    /// Minimum representable duration.
    pub fn min_value() -> (d: Self)
        ensures
            d.sec == i32::MIN && d.nsec == 0,
    {
        Duration { sec: i32::MIN, nsec: 0 }
    }

    /// Maximum representable duration.
    pub fn max_value() -> (d: Self)
        ensures
            d.sec == i32::MAX && d.nsec == u32::MAX,
    {
        Duration { sec: i32::MAX, nsec: u32::MAX }
    }

    /// Range-checked construction: nanoseconds in excess of one second are
    /// folded into the seconds component; overflow of the seconds component is
    /// an error.
    pub fn new(sec: i32, nsec: u32) -> (r: Result<Self, RangeError>)
        ensures
            r is Ok <==> sec + nsec as int / 1_000_000_000 <= i32::MAX,
            r matches Ok(d) ==> {
                &&& d.sec == sec + nsec as int / 1_000_000_000
                &&& d.nsec == nsec as int % 1_000_000_000
                &&& d.nsec < 1_000_000_000
            },
            r matches Err(e) ==> e == RangeError::UpperBound,
    {
        let (carry, nsec) = normalize_nsec(nsec);
        if sec <= i32::MAX - carry as i32 {
            Ok(Duration { sec: sec + carry as i32, nsec })
        } else {
            Err(RangeError::UpperBound)
        }
    }

    /// Range-checked conversion from a whole-second and subsecond-nanosecond
    /// decomposition of an unsigned platform duration.
    pub fn try_from_std_parts(secs: u64, subsec_nanos: u32) -> (r: Result<Self, RangeError>)
        requires
            subsec_nanos < 1_000_000_000,
        ensures
            r is Ok <==> secs <= i32::MAX,
            r matches Ok(d) ==> d.sec == secs && d.nsec == subsec_nanos,
            r matches Err(e) ==> e == RangeError::UpperBound,
    {
        if secs <= i32::MAX as u64 {
            Ok(Duration { sec: secs as i32, nsec: subsec_nanos })
        } else {
            Err(RangeError::UpperBound)
        }
    }

    /// Saturating counterpart of [`Duration::try_from_std_parts`]: clamps to
    /// the maximum representable duration instead of failing.
    pub fn saturating_from_std_parts(secs: u64, subsec_nanos: u32) -> (d: Self)
        requires
            subsec_nanos < 1_000_000_000,
        ensures
            secs <= i32::MAX ==> d.sec == secs && d.nsec == subsec_nanos,
            secs > i32::MAX ==> d.sec == i32::MAX && d.nsec == u32::MAX,
    {
        if secs <= i32::MAX as u64 {
            Duration { sec: secs as i32, nsec: subsec_nanos }
        } else {
            Self::max_value()
        }
    }

    /// Range-checked conversion from a signed whole-second count and a signed
    /// subsecond-nanosecond count, as a signed calendar delta decomposes. A
    /// negative subsecond component borrows one second, so that the resulting
    /// nanosecond component is always in the positive direction.
    pub fn from_secs_and_subsec_nanos(num_seconds: i64, subsec_nanos: i32) -> (r: Result<
        Self,
        RangeError,
    >)
        requires
            -1_000_000_000 < subsec_nanos < 1_000_000_000,
            num_seconds >= 0 ==> subsec_nanos >= 0,
            num_seconds <= 0 ==> subsec_nanos <= 0,
        ensures
            r is Ok <==> i32::MIN as int * 1_000_000_000 <= num_seconds * 1_000_000_000
                + subsec_nanos <= i32::MAX as int * 1_000_000_000 + 999_999_999,
            r matches Ok(d) ==> d.sec * 1_000_000_000 + d.nsec == num_seconds * 1_000_000_000
                + subsec_nanos && d.nsec < 1_000_000_000,
    {
        proof {
            lemma_secs_nanos_bounds(num_seconds as int, subsec_nanos as int);
        }
        if num_seconds > i32::MAX as i64 || num_seconds < i32::MIN as i64 {
            return if num_seconds > 0 {
                Err(RangeError::UpperBound)
            } else {
                Err(RangeError::LowerBound)
            };
        }
        let mut sec: i32 = num_seconds as i32;
        let nsec: u32 = if subsec_nanos >= 0 {
            subsec_nanos as u32
        } else if sec == i32::MIN {
            return Err(RangeError::LowerBound);
        } else {
            sec = sec - 1;
            (subsec_nanos + 1_000_000_000) as u32
        };
        Ok(Duration { sec, nsec })
    }
}

proof fn lemma_secs_nanos_bounds(s: int, n: int)
    requires
        -1_000_000_000 < n < 1_000_000_000,
        s >= 0 ==> n >= 0,
        s <= 0 ==> n <= 0,
    ensures
        s > i32::MAX ==> s * 1_000_000_000 + n > i32::MAX as int * 1_000_000_000 + 999_999_999,
        s < i32::MIN ==> s * 1_000_000_000 + n < i32::MIN as int * 1_000_000_000,
        i32::MIN <= s && n >= 0 ==> i32::MIN as int * 1_000_000_000 <= s * 1_000_000_000 + n,
        i32::MIN < s ==> i32::MIN as int * 1_000_000_000 <= s * 1_000_000_000 + n,
        s == i32::MIN && n < 0 ==> s * 1_000_000_000 + n < i32::MIN as int * 1_000_000_000,
        s <= i32::MAX ==> s * 1_000_000_000 + n <= i32::MAX as int * 1_000_000_000 + 999_999_999,
{
    assert(s > i32::MAX ==> s * 1_000_000_000 >= (i32::MAX + 1) * 1_000_000_000)
        by (nonlinear_arith);
    assert(s < i32::MIN ==> s * 1_000_000_000 <= (i32::MIN - 1) * 1_000_000_000)
        by (nonlinear_arith);
    assert(i32::MIN <= s ==> s * 1_000_000_000 >= i32::MIN as int * 1_000_000_000)
        by (nonlinear_arith);
    assert(i32::MIN < s ==> s * 1_000_000_000 >= (i32::MIN + 1) * 1_000_000_000)
        by (nonlinear_arith);
    assert(s <= i32::MAX ==> s * 1_000_000_000 <= i32::MAX as int * 1_000_000_000)
        by (nonlinear_arith);
}

} // verus!

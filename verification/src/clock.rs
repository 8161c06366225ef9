//! Points in time, as the clocks here show them.

use vstd::prelude::*;

verus! {

/// A point in time, and how far the clocks here are ahead of UTC at it.
#[derive(Clone, Copy, Debug, PartialEq, Eq, Structural)]
pub struct LocalTime {
    /// Seconds since the start of 1970 in UTC, without leap seconds.
    pub seconds: i64,
    /// Nanoseconds since that second; a thousand million and more within a leap second.
    pub nanos: u32,
    /// Seconds by which local time is ahead of UTC.
    pub offset: i32,
}

/// The start of the year -262143, the first point in time that has a date.
pub const FIRST_SECOND: i64 = -8_334_601_228_800;

/// The last second of the year 262142, the last one that has a date.
pub const LAST_SECOND: i64 = 8_210_266_876_799;

/// Whether the two numbers give a point in time: the second has a date, and there are less than a
/// thousand million nanoseconds, or twice as many in the last second of a minute, where a leap
/// second may follow.
pub open spec fn representable(seconds: i64, nanos: u32) -> bool {
    &&& FIRST_SECOND <= seconds <= LAST_SECOND
    &&& nanos < 1_000_000_000 || (nanos < 2_000_000_000 && seconds as int % 60 == 59)
}

/// Tests whether the two numbers give a point in time.
pub fn is_representable(seconds: i64, nanos: u32) -> (yes: bool)
    ensures
        yes == representable(seconds, nanos),
{
    if seconds < FIRST_SECOND || LAST_SECOND < seconds {
        false
    } else if nanos < 1_000_000_000 {
        true
    } else {
        // The remainder of a division that truncates is negative before 1970.
        let second: i64 = (seconds - FIRST_SECOND) % 60;
        nanos < 2_000_000_000 && second == 59
    }
}

/// Each second of the years from -262143 to 262142 has all its nanoseconds. Only the last second of
/// a minute has as many again, and no other point in time can be told.
pub proof fn law_which_times_there_are(seconds: i64, nanos: u32)
    ensures
        -8_334_601_228_800 <= seconds <= 8_210_266_876_799 && nanos <= 999_999_999
            ==> representable(seconds, nanos),
        -8_334_601_228_800 <= seconds <= 8_210_266_876_799 && 1_000_000_000 <= nanos
            <= 1_999_999_999 ==> (representable(seconds, nanos) <==> (seconds as int + 1) % 60
            == 0),
        seconds < -8_334_601_228_800 || seconds > 8_210_266_876_799 || nanos >= 2_000_000_000
            ==> !representable(seconds, nanos),
{
}

/// What is tested is whether there is that point in time.
pub proof fn law_is_representable(seconds: i64, nanos: u32, yes: bool)
    requires
        call_ensures(is_representable, (seconds, nanos), yes),
    ensures
        yes <==> representable(seconds, nanos),
{
}

} // verus!

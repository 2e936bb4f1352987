//! The daylight decision.
//!
//! Whether a moment falls in the day is decided from plain epoch-second
//! timestamps; computing the sunrise and sunset instants themselves is an
//! external collaborator's job.

use vstd::prelude::*;

verus! {

/// Whether a location is experiencing daylight at a given time.
#[derive(Clone, Copy, Debug, PartialEq, Eq, Structural)]
pub enum TimeOfDay {
    Day,
    Night,
}

/// Day is strictly between sunrise and sunset; everything else, the
/// instants of sunrise and sunset themselves included, is night.
pub open spec fn spec_time_of_day(now: int, sunrise: int, sunset: int) -> TimeOfDay {
    if now > sunrise && now < sunset {
        TimeOfDay::Day
    } else {
        TimeOfDay::Night
    }
}

/// Decides day or night from the current moment and the day's sunrise and
/// sunset, all in epoch seconds.
pub fn time_of_day(now: i64, sunrise: i64, sunset: i64) -> (r: TimeOfDay)
    ensures
        r == spec_time_of_day(now as int, sunrise as int, sunset as int),
{
    if now > sunrise && now < sunset {
        TimeOfDay::Day
    } else {
        TimeOfDay::Night
    }
}

} // verus!

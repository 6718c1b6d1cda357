//! The integer pieces of the solar model: the calendar table and the
//! standard-time meridian. The trigonometric parts of the sun-position
//! computation (equation of time, declination, azimuth and elevation) are
//! real-valued and live outside the verified library, as does the
//! ray-traced illumination that consumes them.

use vstd::prelude::*;
use crate::constants::TIMEZONE;

verus! {

/// Days since the start of the year for the first day of each month.
pub open spec fn spec_days_since_start_of_year(month: int) -> int {
    if month == 0 { 0 }
    else if month == 1 { 31 }
    else if month == 2 { 59 }
    else if month == 3 { 90 }
    else if month == 4 { 120 }
    else if month == 5 { 151 }
    else if month == 6 { 181 }
    else if month == 7 { 212 }
    else if month == 8 { 243 }
    else if month == 9 { 273 }
    else if month == 10 { 304 }
    else { 334 }
}

/// The number of days since the start of the year for the first day of the
/// given month.
pub fn days_since_start_of_year(month: usize) -> (r: i32)
    requires
        month < 12,
    ensures
        r == spec_days_since_start_of_year(month as int),
{
    if month == 0 { 0 }
    else if month == 1 { 31 }
    else if month == 2 { 59 }
    else if month == 3 { 90 }
    else if month == 4 { 120 }
    else if month == 5 { 151 }
    else if month == 6 { 181 }
    else if month == 7 { 212 }
    else if month == 8 { 243 }
    else if month == 9 { 273 }
    else if month == 10 { 304 }
    else { 334 }
}

/// The local standard time meridian of the site, in degrees: fifteen per
/// timezone hour.
pub fn get_local_standard_time_meridian() -> (r: i32)
    ensures
        r == 15 * TIMEZONE,
{
    15 * TIMEZONE
}

} // verus!

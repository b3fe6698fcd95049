//! The HUD clock's time zone: the local offset from UTC the system's zone
//! information gives.

use vstd::prelude::*;

verus! {

/// The zone information reports daylight time as id 2.
pub const ZONE_DAYLIGHT: u32 = 2;

/// The local offset from UTC, in minutes, from the system's time-zone
/// report: `zone_id` (0 unknown, 1 standard, 2 daylight), the base `bias`
/// and the standard and daylight biases (all minutes, west positive). The
/// offset is the negated sum of the base bias and the bias in force.
pub fn local_utc_offset_minutes(zone_id: u32, bias: i32, standard_bias: i32, daylight_bias: i32) -> (m: i32)
    requires
        i32::MIN < bias + (if zone_id == ZONE_DAYLIGHT { daylight_bias } else { standard_bias }) <= i32::MAX,
    ensures
        m == -(bias + (if zone_id == ZONE_DAYLIGHT { daylight_bias } else { standard_bias })),
{
    let active = if zone_id == ZONE_DAYLIGHT {
        daylight_bias
    } else {
        standard_bias
    };
    -(bias + active)
}

} // verus!

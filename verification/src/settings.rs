use vstd::prelude::*;
use vstd::string::StringSliceAdditionalSpecFns;

use crate::decimal::{parse_u32, unsigned_parse};

verus! {

/// The simulation rate when none is set, in ticks per second.
pub const SIM_TICK_HZ_DEFAULT: u32 = 500;
/// The fastest simulation rate, in ticks per second.
pub const SIM_TICK_HZ_MAX: u32 = 1000;

/// The simulation rate that a `SIM_TICK_HZ` setting selects: a number read as
/// `u32`, limited to `1..=1000`; the default 500 when the setting is missing or
/// is not such a number.
pub open spec fn tick_hz_for(setting: Option<Seq<u8>>) -> u32 {
    match setting {
        Some(text) => match unsigned_parse(text, u32::MAX as int) {
            Some(v) => if v < 1 {
                1
            } else if v > SIM_TICK_HZ_MAX {
                SIM_TICK_HZ_MAX
            } else {
                v as u32
            },
            None => SIM_TICK_HZ_DEFAULT,
        },
        None => SIM_TICK_HZ_DEFAULT,
    }
}

/// The setting's text, when there is one.
pub open spec fn setting_bytes(setting: Option<&str>) -> Option<Seq<u8>> {
    match setting {
        Some(s) => Some(s.spec_bytes()),
        None => None,
    }
}

/// The simulation rate for the value of `SIM_TICK_HZ`, if it is set.
pub fn tick_hz_from_setting(setting: Option<&str>) -> (hz: u32)
    ensures
        hz == tick_hz_for(setting_bytes(setting)),
        1 <= hz <= SIM_TICK_HZ_MAX,
{
    match setting {
        None => SIM_TICK_HZ_DEFAULT,
        Some(text) => match parse_u32(text.as_bytes()) {
            Some(v) => {
                if v < 1 {
                    1
                } else if v > SIM_TICK_HZ_MAX {
                    SIM_TICK_HZ_MAX
                } else {
                    v
                }
            },
            None => SIM_TICK_HZ_DEFAULT,
        },
    }
}

} // verus!

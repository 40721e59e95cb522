//! Flight statistics, accumulated tick by tick during free flight and
//! crunched into research points at landing.

use vstd::prelude::*;

verus! {

/// Accumulated flight statistics of one launch attempt.
pub struct Stats {
    /// Simulated flight time, microseconds.
    pub time_us: u64,
    /// Total distance flown, fine units (1/65536 m).
    pub distance: u64,
    /// Greatest altitude above sea level reached, coords (1/256 m).
    pub max_altitude: i64,
    /// Greatest speed reached, fine units per second.
    pub max_speed: u64,
}

impl Default for Stats {
    /// A fresh attempt starts with every statistic at zero.
    fn default() -> (s: Stats)
        ensures
            s.time_us == 0,
            s.distance == 0,
            s.max_altitude == 0,
            s.max_speed == 0,
    {
        Stats { time_us: 0, distance: 0, max_altitude: 0, max_speed: 0 }
    }
}

/// The research points a flight is worth: one tenth of the distance plus
/// three tenths of the peak altitude plus six tenths of the peak speed,
/// in whole meters and meters per second, floored, saturated to `u32`.
pub open spec fn crunch_spec(distance: int, max_altitude: int, max_speed: int) -> int {
    let meters = distance / 65536;
    let alt_m = max_altitude / 256;
    let speed_m = max_speed / 65536;
    let points = (meters + 3 * alt_m + 6 * speed_m) / 10;
    if points > u32::MAX {
        u32::MAX as int
    } else {
        points
    }
}

impl Stats {
    /// Research points earned by this flight.
    pub fn crunch(&self) -> (points: u32)
        requires
            self.max_altitude >= 0,
        ensures
            points == crunch_spec(self.distance as int, self.max_altitude as int, self.max_speed as int),
    {
        let meters: u64 = self.distance / 65536;
        let alt_m: u64 = (self.max_altitude as u64) / 256;
        let speed_m: u64 = self.max_speed / 65536;
        proof {
            vstd::arithmetic::div_mod::lemma_div_is_ordered(
                self.distance as int,
                u64::MAX as int,
                65536,
            );
            vstd::arithmetic::div_mod::lemma_div_is_ordered(
                self.max_altitude as int,
                u64::MAX as int,
                256,
            );
            vstd::arithmetic::div_mod::lemma_div_is_ordered(
                self.max_speed as int,
                u64::MAX as int,
                65536,
            );
        }
        let points: u64 = (meters + 3 * alt_m + 6 * speed_m) / 10;
        if points > u32::MAX as u64 {
            u32::MAX
        } else {
            points as u32
        }
    }
}

} // verus!

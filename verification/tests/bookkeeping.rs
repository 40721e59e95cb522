//! Resources, statistics, and the research-point formula.

use trebuckot::resources::Resources;
use trebuckot::stats::Stats;

#[test]
fn resources_start_empty() {
    let r = Resources::default();
    assert_eq!(r.as_vec(), vec![0, 0, 0, 0]);
}

#[test]
fn resources_in_display_order() {
    let r = Resources { research: 1, rocks: 69, beans: 1337, antibeans: 420 };
    assert_eq!(r.as_vec(), vec![1, 69, 1337, 420]);
}

#[test]
fn crunch_weighs_the_flight() {
    // 100 m flown, 50 m peak altitude, 20 m/s peak speed:
    // (100 + 3 * 50 + 6 * 20) / 10 == 37 research points
    let s = Stats {
        time_us: 5_000_000,
        distance: 100 * 65536,
        max_altitude: 50 * 256,
        max_speed: 20 * 65536,
    };
    assert_eq!(s.crunch(), 37);
    // a flight that goes nowhere earns nothing
    assert_eq!(Stats::default().crunch(), 0);
    // sub-meter remainders floor away
    let t = Stats { time_us: 0, distance: 9 * 65536, max_altitude: 0, max_speed: 0 };
    assert_eq!(t.crunch(), 0);
    // enormous flights saturate instead of wrapping
    let big = Stats {
        time_us: 0,
        distance: u64::MAX,
        max_altitude: i64::MAX,
        max_speed: u64::MAX,
    };
    assert_eq!(big.crunch(), u32::MAX);
}

struct Ami {
    cute: bool,
}

#[test]
fn ami_cute() {
    let ami = Ami { cute: true };
    assert!(ami.cute);
}

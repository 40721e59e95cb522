//! The fixed-step free-flight integrator: gravity, leapfrog stepping,
//! displacement draining, landing, and statistics.

use trebuckot::physics::Physics;
use trebuckot::player::Player;
use trebuckot::stats::Stats;
use trebuckot::utils::{FineVec2, WorldPoint};
use trebuckot::world::{World, WorldClass};

// G * M of an Earth-sized world, m^3/s^2
const EARTH_MU: u64 = 398_600_441_800_000;
const EARTH_RADIUS_M: u64 = 6_371_000;

fn earth() -> World {
    World::new(
        WorldPoint { x: 0, y: 0 },
        EARTH_RADIUS_M,
        EARTH_MU,
        WorldClass::Minshara,
        None,
    )
}

fn default_stats() -> Stats {
    Stats { time_us: 0, distance: 0, max_altitude: 0, max_speed: 0 }
}

#[test]
fn surface_gravity() {
    let w = earth();
    let r: i64 = w.radius;
    let p = Player::new(WorldPoint { x: 0, y: r });
    let g = p.get_grativy(&w);
    assert_eq!(g.x, 0);
    // 9.82 m/s^2 toward the center, in fine units
    assert_eq!(g.y, -643_579);
    assert_eq!(p.get_altitude(&w), 0);
    let up = Player::new(WorldPoint { x: 0, y: r + 256_000 });
    assert_eq!(up.get_altitude(&w), 256_000);
    assert_eq!(up.get_grativy(&w).y, -643_377);
}

#[test]
fn tick_from_rest() {
    let w = earth();
    let mut physics = Physics::init();
    let mut stats = default_stats();
    let start = WorldPoint { x: 0, y: w.radius + 256_000 };
    let mut player = Player::new(start);
    // a flat terrain segment at sea level, wound so that above is
    // counter-clockwise
    let seg_a = WorldPoint { x: -1_000_000, y: w.radius };
    let seg_b = WorldPoint { x: 1_000_000, y: w.radius };
    let landed = physics.tick(&mut player, &w, seg_a, seg_b, &mut stats);
    assert!(!landed);
    // the position only moves when the frame drains the pending buffer
    assert_eq!(player.position, start);
    // one millisecond of gravity at 1000 m altitude
    assert_eq!(player.velocity, FineVec2 { x: 0, y: -643 });
    assert_eq!(player.acceleration, FineVec2 { x: 0, y: 0 });
    // the half-tick displacement truncates below one fine unit
    assert_eq!(physics.displacement, FineVec2 { x: 0, y: 0 });
    assert_eq!(stats.time_us, 1000);
    assert_eq!(stats.distance, 0);
    assert_eq!(stats.max_altitude, 256_000);
    assert_eq!(stats.max_speed, 643);
}

#[test]
fn landing_zeroes_motion() {
    // a small far-away world supplies negligible gravity; the projectile
    // plunges straight through the terrain segment
    let w = World::new(
        WorldPoint { x: 0, y: -2_000_000_000 },
        3200,
        1_000,
        WorldClass::Minshara,
        None,
    );
    let mut physics = Physics::init();
    let mut stats = default_stats();
    let mut player = Player::new(WorldPoint { x: 500, y: 256 });
    player.velocity = FineVec2 { x: 0, y: -400_000_000 };
    let seg_a = WorldPoint { x: 0, y: 0 };
    let seg_b = WorldPoint { x: 1000, y: 0 };
    let landed = physics.tick(&mut player, &w, seg_a, seg_b, &mut stats);
    assert!(landed);
    assert_eq!(player.position, WorldPoint { x: 500, y: 0 });
    assert_eq!(player.velocity, FineVec2 { x: 0, y: 0 });
    assert_eq!(physics.displacement, FineVec2 { x: 0, y: 0 });
    // the landing tick still counts toward the statistics
    assert_eq!(stats.time_us, 1000);
    assert_eq!(stats.distance, 400_000);
}

#[test]
fn commit_drains_whole_coords() {
    let mut physics = Physics::init();
    physics.displacement = FineVec2 { x: 1000, y: -1000 };
    let mut player = Player::new(WorldPoint { x: 10, y: 20 });
    physics.commit_displacement(&mut player);
    // floor-with-remainder: 1000 == 3 * 256 + 232, -1000 == -4 * 256 + 24
    assert_eq!(player.position, WorldPoint { x: 13, y: 16 });
    assert_eq!(physics.displacement, FineVec2 { x: 232, y: 24 });
}

#[test]
fn accumulator_consumes_whole_ticks() {
    let mut physics = Physics::init();
    physics.accumulate(2_500);
    assert!(physics.consume_tick());
    assert_eq!(physics.time_acc_us, 1_500);
    assert!(physics.consume_tick());
    assert_eq!(physics.time_acc_us, 500);
    assert!(!physics.consume_tick());
    assert_eq!(physics.time_acc_us, 500);
}

#[test]
fn leapfrog_energy_drift_is_bounded() {
    // free flight under central gravity: total mechanical energy
    // v^2 / 2 - mu / r stays within a fraction of a percent over two
    // simulated seconds of fixed-step integration
    let w = earth();
    let mut physics = Physics::init();
    let mut stats = default_stats();
    let mut player = Player::new(WorldPoint { x: 0, y: w.radius + 256_000 });
    player.velocity = FineVec2 { x: 3_276_800, y: 0 }; // 50 m/s sideways
    let seg_a = WorldPoint { x: -100_000_000, y: w.radius - 256_000 };
    let seg_b = WorldPoint { x: 100_000_000, y: w.radius - 256_000 };

    let energy = |player: &Player| -> f64 {
        let vx = player.velocity.x as f64 / 65536.0;
        let vy = player.velocity.y as f64 / 65536.0;
        let rx = player.position.x as f64 / 256.0;
        let ry = player.position.y as f64 / 256.0;
        let r = (rx * rx + ry * ry).sqrt();
        0.5 * (vx * vx + vy * vy) - (EARTH_MU as f64) / r
    };

    let e0 = energy(&player);
    for _ in 0..2000 {
        let landed = physics.tick(&mut player, &w, seg_a, seg_b, &mut stats);
        assert!(!landed);
        physics.commit_displacement(&mut player);
    }
    let e1 = energy(&player);
    assert!((e1 - e0).abs() <= 0.005 * e0.abs());
    // two thousand milliseconds were simulated, and the flight moved
    assert_eq!(stats.time_us, 2_000_000);
    assert!(stats.distance > 0);
    assert!(stats.max_speed >= 3_276_800);
}

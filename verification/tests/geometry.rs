//! Collision geometry and coordinate conversion behavior.

use trebuckot::physics::{ground_collision, orientation, Orientation};
use trebuckot::utils::{to_i64coords, to_i64coords_with_rem, to_meters, FineVec2, WorldPoint};

#[test]
fn orientation_example() {
    let a = WorldPoint { x: 0, y: 0 };
    let b = WorldPoint { x: 10, y: 0 };
    // the "above" side of the directed segment is the counter-clockwise one
    assert_eq!(
        orientation(a, b, WorldPoint { x: 5, y: 5 }),
        Orientation::AntiClockwise
    );
    assert_eq!(
        orientation(a, b, WorldPoint { x: 5, y: -5 }),
        Orientation::Clockwise
    );
    assert_eq!(
        orientation(a, b, WorldPoint { x: 20, y: 0 }),
        Orientation::Colinear
    );
}

#[test]
fn collision_example() {
    let a = WorldPoint { x: 0, y: 0 };
    let b = WorldPoint { x: 1000, y: 0 };
    // a path straight down through the segment lands exactly on it
    let hit = ground_collision(
        a,
        b,
        WorldPoint { x: 500, y: 256 },
        WorldPoint { x: 500, y: -256 },
    );
    assert_eq!(hit, Some(WorldPoint { x: 500, y: 0 }));
    // a path that stays above the terrain reports nothing
    let miss = ground_collision(
        a,
        b,
        WorldPoint { x: 500, y: 256 },
        WorldPoint { x: 500, y: 128 },
    );
    assert_eq!(miss, None);
}

#[test]
fn collision_parallel_is_none() {
    // the candidate ends below, but the path is parallel to the terrain:
    // the degenerate determinant reports no collision
    let a = WorldPoint { x: 0, y: 0 };
    let b = WorldPoint { x: 1000, y: 0 };
    let r = ground_collision(
        a,
        b,
        WorldPoint { x: 100, y: -5 },
        WorldPoint { x: 900, y: -5 },
    );
    assert_eq!(r, None);
}

#[test]
fn intersection_rounds_to_nearest() {
    // terrain from (0,0) to (2,2); vertical drop at x == 1 crosses at (1,1)
    let a = WorldPoint { x: 0, y: 0 };
    let b = WorldPoint { x: 2, y: 2 };
    let r = ground_collision(
        a,
        b,
        WorldPoint { x: 1, y: 100 },
        WorldPoint { x: 1, y: -100 },
    );
    assert_eq!(r, Some(WorldPoint { x: 1, y: 1 }));
}

#[test]
fn coordinate_round_trip() {
    // half a meter in fine units is exactly 128 coords
    let p = to_i64coords(FineVec2 { x: 32768, y: -32768 });
    assert_eq!(p, WorldPoint { x: 128, y: -128 });
    // back to fine units, exactly
    let v = to_meters(p);
    assert_eq!(v, FineVec2 { x: 32768, y: -32768 });
    // a round trip moves a fine value by at most half a coord (1/512 m)
    for f in [-1000i64, -129, -128, -127, -1, 0, 1, 127, 128, 129, 1000] {
        let c = to_i64coords(FineVec2 { x: f, y: 0 });
        let back = to_meters(c);
        assert!((back.x - f).abs() <= 128);
    }
    // and is monotonic
    let mut prev = to_i64coords(FineVec2 { x: -2000, y: 0 }).x;
    for f in -1999i64..2000 {
        let c = to_i64coords(FineVec2 { x: f, y: 0 }).x;
        assert!(prev <= c);
        prev = c;
    }
}

#[test]
fn i64remainder() {
    // half a meter splits into 128 whole coords and nothing pending
    let ami = FineVec2 { x: 32768, y: 32768 };
    let cute = to_i64coords_with_rem(ami);
    assert_eq!(cute, (WorldPoint { x: 128, y: 128 }, FineVec2 { x: 0, y: 0 }));

    // another 1/512 m stays entirely in the remainder
    let love = FineVec2 { x: ami.x + 128, y: ami.y + 128 };
    let r = to_i64coords_with_rem(love);
    assert_eq!(r, (WorldPoint { x: 128, y: 128 }, FineVec2 { x: 128, y: 128 }));

    // negative values floor: the remainder is always nonnegative
    let neg = to_i64coords_with_rem(FineVec2 { x: -1, y: -256 });
    assert_eq!(neg, (WorldPoint { x: -1, y: -1 }, FineVec2 { x: 255, y: 0 }));
}

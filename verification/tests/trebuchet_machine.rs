//! The trebuchet builder and the three-stage launch state machine.

use trebuckot::trebuchet::{
    Trebuchet, TrebuchetArm, TrebuchetMaterial, TrebuchetSling, TrebuchetState, TrebuchetWeight,
};
use trebuckot::utils::WorldPoint;

#[test]
fn builder_defaults() {
    let t = Trebuchet::init(WorldPoint { x: 7, y: -3 }).build();
    assert_eq!(t.position, WorldPoint { x: 7, y: -3 });
    assert_eq!(t.height, 1_000);
    assert_eq!(t.material, TrebuchetMaterial::Cardboard);
    assert_eq!(t.m_proj, 300);
    assert_eq!(t.arm.long_length, 1_600);
    assert_eq!(t.arm.short_length, 400);
    assert_eq!(t.arm.center, 600);
    assert_eq!(t.arm.mass, 250);
    // uniform rod: 0.25 kg * (2 m)^2 / 12, floored in micro units
    assert_eq!(t.arm.inertia, 83_333);
    assert_eq!(t.weight.length, 500);
    assert_eq!(t.weight.mass, 50_000);
    assert_eq!(t.weight.inertia, 1_000_000);
    assert_eq!(t.sling.length, 1_600);
    assert_eq!(t.state, TrebuchetState::Stage1);
}

#[test]
fn builder_overrides() {
    let arm = TrebuchetArm::new(8_000, 2_000, 12_000, TrebuchetMaterial::Steel);
    assert_eq!(arm.total_length(), 10_000);
    assert_eq!(arm.center, 3_000);
    assert_eq!(arm.inertia, 12_000 * 10_000 * 10_000 / 12_000);
    let t = Trebuchet::init(WorldPoint { x: 0, y: 0 })
        .base(5_600, TrebuchetMaterial::Wood1)
        .arm(arm)
        .weight(TrebuchetWeight::new(2_000, 100_000, TrebuchetMaterial::Wood1))
        .sling(8_000)
        .center(2_900)
        .build();
    assert_eq!(t.height, 5_600);
    assert_eq!(t.material, TrebuchetMaterial::Wood1);
    assert_eq!(t.arm.center, 2_900);
    assert_eq!(t.arm.long_length, 8_000);
    assert_eq!(t.weight.mass, 100_000);
    assert_eq!(t.sling, TrebuchetSling { length: 8_000 });
}

#[test]
fn stage_transitions() {
    let mut t = Trebuchet::init(WorldPoint { x: 0, y: 0 }).build();
    // no lift, no release: grounded
    assert!(!t.advance_stage(false, false));
    assert_eq!(t.state, TrebuchetState::Stage1);
    // a release signal means nothing before the frame lifts
    assert!(!t.advance_stage(false, true));
    assert_eq!(t.state, TrebuchetState::Stage1);
    // the ground reaction force drops to zero: the frame lifts
    assert!(!t.advance_stage(true, false));
    assert_eq!(t.state, TrebuchetState::Stage2);
    assert_eq!(t.m_proj, 300);
    // the sling-tip velocity direction falls to 45 degrees: release
    assert!(t.advance_stage(false, true));
    assert_eq!(t.state, TrebuchetState::Stage3);
    assert_eq!(t.m_proj, 10);
    // terminal within this launch
    assert!(t.advance_stage(false, false));
    assert_eq!(t.state, TrebuchetState::Stage3);
}

#[test]
fn stage_never_goes_backwards() {
    let signals = [
        (false, true),
        (true, true),
        (false, false),
        (true, false),
        (false, true),
        (true, true),
    ];
    let mut t = Trebuchet::init(WorldPoint { x: 0, y: 0 }).build();
    let mut last: u8 = 1;
    for (gl, rel) in signals {
        t.advance_stage(gl, rel);
        let now: u8 = match t.state {
            TrebuchetState::Stage1 => 1,
            TrebuchetState::Stage2 => 2,
            TrebuchetState::Stage3 => 3,
        };
        assert!(last <= now);
        last = now;
    }
}

#[test]
fn reset_rearms() {
    let mut t = Trebuchet::init(WorldPoint { x: 0, y: 0 }).build();
    t.advance_stage(true, false);
    t.advance_stage(false, true);
    assert_eq!(t.state, TrebuchetState::Stage3);
    assert_eq!(t.m_proj, 10);
    t.reset();
    assert_eq!(t.state, TrebuchetState::Stage1);
    assert_eq!(t.m_proj, 300);
    assert_eq!(t.height, 1_000);
}

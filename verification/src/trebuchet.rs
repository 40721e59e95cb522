//! The trebuchet: static link configuration, the builder that assembles it,
//! and the three-stage launch state machine.
//!
//! Lengths and the platform height are in 1/1000 m, masses in 1/1000 kg
//! ("milli" units); moments of inertia are in 1/1000000 kg m^2 ("micro"
//! units). The continuous link angles and angular velocities evolve in the
//! floating-point shell around this crate: what this crate owns is the
//! discrete state machine their derived signals drive. The machine is
//! one-way within a launch — Stage1 (ground-constrained) to Stage2 (frame
//! lifted) when the ground reaction force falls to or below zero, Stage2 to
//! Stage3 (projectile released) when the sling-tip velocity direction drops
//! to or below 45 degrees — and only an explicit `reset` returns it to
//! Stage1.

use crate::utils::WorldPoint;
use vstd::prelude::*;

verus! {

/// Mass of the loaded projectile, in milli-kg.
pub const PROJECTILE_MASS: i64 = 300;

/// Token mass standing in for the projectile once released, so that the
/// now-decorative sling dynamics stay bounded.
pub const RELEASED_MASS: i64 = 10;

/// The three phases of a launch, a one-way state machine.
#[derive(Clone, Copy, PartialEq, Eq, Structural, Debug)]
pub enum TrebuchetState {
    /// Arm, counterweight and sling coupled, arm held by ground reaction.
    Stage1,
    /// All three links free once the ground reaction force is spent.
    Stage2,
    /// Projectile released; the links no longer matter for its flight.
    Stage3,
}

/// What the trebuchet is built from; purely cosmetic.
#[derive(Clone, Copy, PartialEq, Eq, Structural, Debug)]
pub enum TrebuchetMaterial {
    Cardboard,
    Wood1,
    Wood2,
    Steel,
    Space,
}

/// Stages ordered for the monotonicity law.
pub open spec fn stage_number(s: TrebuchetState) -> int {
    match s {
        TrebuchetState::Stage1 => 1,
        TrebuchetState::Stage2 => 2,
        TrebuchetState::Stage3 => 3,
    }
}

/// Where one `run` tick sends the state machine, given the two derived
/// signals: `ground_lift` — the instantaneous ground reaction force came
/// out at or below zero; `release` — the sling-tip velocity direction
/// dropped to or below 45 degrees above horizontal.
pub open spec fn next_stage(s: TrebuchetState, ground_lift: bool, release: bool) -> TrebuchetState {
    match s {
        TrebuchetState::Stage1 => if ground_lift {
            TrebuchetState::Stage2
        } else {
            TrebuchetState::Stage1
        },
        TrebuchetState::Stage2 => if release {
            TrebuchetState::Stage3
        } else {
            TrebuchetState::Stage2
        },
        TrebuchetState::Stage3 => TrebuchetState::Stage3,
    }
}

/// The state after a whole sequence of `run` ticks.
pub open spec fn run_stages(s: TrebuchetState, events: Seq<(bool, bool)>) -> TrebuchetState
    decreases events.len(),
{
    if events.len() == 0 {
        s
    } else {
        run_stages(next_stage(s, events[0].0, events[0].1), events.drop_first())
    }
}

/// One tick never moves the stage backwards.
pub proof fn lemma_stage_step_monotonic(s: TrebuchetState, ground_lift: bool, release: bool)
    ensures
        stage_number(s) <= stage_number(next_stage(s, ground_lift, release)),
{
}

/// Stage monotonicity: across any sequence of `run` ticks, the stage is
/// non-decreasing — Stage1 before Stage2 before Stage3 — until an explicit
/// `reset`.
pub proof fn lemma_stage_monotonic(s: TrebuchetState, events: Seq<(bool, bool)>)
    ensures
        stage_number(s) <= stage_number(run_stages(s, events)),
    decreases events.len(),
{
    if events.len() > 0 {
        lemma_stage_step_monotonic(s, events[0].0, events[0].1);
        lemma_stage_monotonic(next_stage(s, events[0].0, events[0].1), events.drop_first());
    }
}

/// The throwing arm: a uniform rod pivoted off-center, long end carrying
/// the sling, short end carrying the counterweight.
#[derive(Clone, Copy, PartialEq, Eq, Structural, Debug)]
pub struct TrebuchetArm {
    /// Pivot to sling attachment, milli-m.
    pub long_length: i64,
    /// Pivot to counterweight attachment, milli-m.
    pub short_length: i64,
    /// Pivot to the rod's center of gravity, milli-m.
    pub center: i64,
    /// Rod mass, milli-kg.
    pub mass: i64,
    /// Moment of inertia of the uniform rod about its center, micro kg m^2.
    pub inertia: i64,
    pub material: TrebuchetMaterial,
}

impl TrebuchetArm {
    /// Arm from its two lengths and mass; the center of gravity sits at the
    /// rod midpoint, and the inertia is the closed form for a uniform rod,
    /// `mass * total_length^2 / 12`, floored in micro units.
    pub fn new(long_length: i64, short_length: i64, mass: i64, material: TrebuchetMaterial) -> (arm:
        TrebuchetArm)
        requires
            0 <= long_length <= 1_000_000,
            0 <= short_length <= 1_000_000,
            0 <= mass <= 1_000_000,
        ensures
            arm.long_length == long_length,
            arm.short_length == short_length,
            arm.center == (long_length + short_length) / 2 - short_length,
            arm.mass == mass,
            arm.inertia == mass * (long_length + short_length) * (long_length + short_length)
                / 12_000,
            arm.material == material,
    {
        let total: i64 = long_length + short_length;
        proof {
            assert(0 <= mass * total <= 2_000_000_000_000) by (nonlinear_arith)
                requires
                    0 <= total <= 2_000_000,
                    0 <= mass <= 1_000_000,
            ;
            assert(0 <= mass * total * total <= 4_000_000_000_000_000_000) by (nonlinear_arith)
                requires
                    0 <= total <= 2_000_000,
                    0 <= mass * total <= 2_000_000_000_000,
            ;
        }
        TrebuchetArm {
            long_length,
            short_length,
            center: total / 2 - short_length,
            mass,
            inertia: mass * total * total / 12_000,
            material,
        }
    }

    /// Long and short lengths together, milli-m.
    pub fn total_length(&self) -> (len: i64)
        requires
            0 <= self.long_length <= 1_000_000,
            0 <= self.short_length <= 1_000_000,
        ensures
            len == self.long_length + self.short_length,
    {
        self.long_length + self.short_length
    }
}

/// The counterweight hung from the arm's short end.
#[derive(Clone, Copy, PartialEq, Eq, Structural, Debug)]
pub struct TrebuchetWeight {
    /// Hanger length, milli-m.
    pub length: i64,
    /// Counterweight mass, milli-kg.
    pub mass: i64,
    /// Placeholder moment of inertia, micro kg m^2.
    pub inertia: i64,
    pub material: TrebuchetMaterial,
}

impl TrebuchetWeight {
    /// Counterweight with the placeholder unit inertia.
    pub fn new(length: i64, mass: i64, material: TrebuchetMaterial) -> (w: TrebuchetWeight)
        ensures
            w.length == length,
            w.mass == mass,
            w.inertia == 1_000_000,
            w.material == material,
    {
        TrebuchetWeight { length, mass, inertia: 1_000_000, material }
    }
}

/// The massless sling link from the arm's long end to the projectile.
#[derive(Clone, Copy, PartialEq, Eq, Structural, Debug)]
pub struct TrebuchetSling {
    /// Sling length, milli-m.
    pub length: i64,
}

impl TrebuchetSling {
    pub fn new(length: i64) -> (s: TrebuchetSling)
        ensures
            s.length == length,
    {
        TrebuchetSling { length }
    }
}

/// Accumulates the optional parts of a trebuchet; `build` fills what was
/// not given with the stock machine.
pub struct TrebuchetBuilder {
    pub position: WorldPoint,
    pub height: Option<i64>,
    pub material: Option<TrebuchetMaterial>,
    pub arm: Option<TrebuchetArm>,
    pub weight: Option<TrebuchetWeight>,
    pub sling: Option<TrebuchetSling>,
}

impl TrebuchetBuilder {
    /// Platform height (milli-m) and material of the base.
    pub fn base(self, height: i64, material: TrebuchetMaterial) -> (b: TrebuchetBuilder)
        ensures
            b.height == Some(height),
            b.material == Some(material),
            b.position == self.position,
            b.arm == self.arm,
            b.weight == self.weight,
            b.sling == self.sling,
    {
        TrebuchetBuilder { height: Some(height), material: Some(material), ..self }
    }

    pub fn arm(self, arm: TrebuchetArm) -> (b: TrebuchetBuilder)
        ensures
            b.arm == Some(arm),
            b.position == self.position,
            b.height == self.height,
            b.material == self.material,
            b.weight == self.weight,
            b.sling == self.sling,
    {
        TrebuchetBuilder { arm: Some(arm), ..self }
    }

    pub fn weight(self, weight: TrebuchetWeight) -> (b: TrebuchetBuilder)
        ensures
            b.weight == Some(weight),
            b.position == self.position,
            b.height == self.height,
            b.material == self.material,
            b.arm == self.arm,
            b.sling == self.sling,
    {
        TrebuchetBuilder { weight: Some(weight), ..self }
    }

    pub fn sling(self, length: i64) -> (b: TrebuchetBuilder)
        ensures
            b.sling == Some(TrebuchetSling { length }),
            b.position == self.position,
            b.height == self.height,
            b.material == self.material,
            b.arm == self.arm,
            b.weight == self.weight,
    {
        TrebuchetBuilder { sling: Some(TrebuchetSling::new(length)), ..self }
    }

    /// Override the arm's center of gravity. The arm must already be given.
    pub fn center(self, center: i64) -> (b: TrebuchetBuilder)
        requires
            self.arm is Some,
        ensures
            b.arm is Some,
            b.arm->0 == (TrebuchetArm { center, ..self.arm->0 }),
            b.position == self.position,
            b.height == self.height,
            b.material == self.material,
            b.weight == self.weight,
            b.sling == self.sling,
    {
        let mut arm = match self.arm {
            Some(a) => a,
            // never taken: the precondition demands an arm
            None => TrebuchetArm::new(0, 0, 0, TrebuchetMaterial::Cardboard),
        };
        arm.center = center;
        TrebuchetBuilder { arm: Some(arm), ..self }
    }

    /// The assembled trebuchet: whatever was not given defaults to the
    /// stock cardboard machine (1 m platform, 1.6/0.4 m arm of 0.25 kg,
    /// 0.5 m / 50 kg counterweight, 1.6 m sling), loaded with the standard
    /// projectile, in Stage1.
    pub fn build(self) -> (t: Trebuchet)
        ensures
            t.position == self.position,
            t.height == (if self.height is Some {
                self.height->0
            } else {
                1_000int as i64
            }),
            t.material == (if self.material is Some {
                self.material->0
            } else {
                TrebuchetMaterial::Cardboard
            }),
            t.m_proj == PROJECTILE_MASS,
            self.arm is Some ==> t.arm == self.arm->0,
            self.arm is None ==> t.arm == (TrebuchetArm {
                long_length: 1_600,
                short_length: 400,
                center: 600,
                mass: 250,
                inertia: 83_333,
                material: TrebuchetMaterial::Cardboard,
            }),
            t.weight == (if self.weight is Some {
                self.weight->0
            } else {
                TrebuchetWeight {
                    length: 500,
                    mass: 50_000,
                    inertia: 1_000_000,
                    material: TrebuchetMaterial::Cardboard,
                }
            }),
            t.sling == (if self.sling is Some {
                self.sling->0
            } else {
                TrebuchetSling { length: 1_600 }
            }),
            t.state == TrebuchetState::Stage1,
    {
        let arm = match self.arm {
            Some(a) => a,
            None => TrebuchetArm::new(1_600, 400, 250, TrebuchetMaterial::Cardboard),
        };
        let weight = match self.weight {
            Some(w) => w,
            None => TrebuchetWeight::new(500, 50_000, TrebuchetMaterial::Cardboard),
        };
        let sling = match self.sling {
            Some(s) => s,
            None => TrebuchetSling::new(1_600),
        };
        let height = match self.height {
            Some(h) => h,
            None => 1_000,
        };
        let material = match self.material {
            Some(m) => m,
            None => TrebuchetMaterial::Cardboard,
        };
        Trebuchet {
            position: self.position,
            height,
            material,
            m_proj: PROJECTILE_MASS,
            arm,
            weight,
            sling,
            state: TrebuchetState::Stage1,
        }
    }
}

/// The trebuchet aggregate: base position and height, the three links, the
/// projectile mass currently coupled to the sling, and the launch stage.
pub struct Trebuchet {
    /// World position of the base, in coords.
    pub position: WorldPoint,
    /// Platform height, milli-m.
    pub height: i64,
    pub material: TrebuchetMaterial,
    /// Mass coupled to the sling tip, milli-kg; drops to `RELEASED_MASS`
    /// at release.
    pub m_proj: i64,
    pub arm: TrebuchetArm,
    pub weight: TrebuchetWeight,
    pub sling: TrebuchetSling,
    pub state: TrebuchetState,
}

impl Trebuchet {
    /// Start building a trebuchet at `position`.
    pub fn init(position: WorldPoint) -> (b: TrebuchetBuilder)
        ensures
            b.position == position,
            b.height is None,
            b.material is None,
            b.arm is None,
            b.weight is None,
            b.sling is None,
    {
        TrebuchetBuilder {
            position,
            height: None,
            material: None,
            arm: None,
            weight: None,
            sling: None,
        }
    }

    /// Rearm for a new launch: back to Stage1 with the projectile loaded.
    /// The shell recomputes the canonical start angles (and zeroes the
    /// angular velocities) from the same configuration, so equal inputs
    /// give an identical restart.
    pub fn reset(&mut self)
        ensures
            final(self).state == TrebuchetState::Stage1,
            final(self).m_proj == PROJECTILE_MASS,
            final(self).position == old(self).position,
            final(self).height == old(self).height,
            final(self).material == old(self).material,
            final(self).arm == old(self).arm,
            final(self).weight == old(self).weight,
            final(self).sling == old(self).sling,
    {
        self.state = TrebuchetState::Stage1;
        self.m_proj = PROJECTILE_MASS;
    }

    /// One tick of the launch state machine, driven by the two signals the
    /// dynamics derive before the integration step. Returns whether the
    /// projectile is now in free flight (Stage3), so the caller can hand
    /// its motion over to the free-flight integrator. On the release
    /// transition the coupled mass drops to the token released mass.
    pub fn advance_stage(&mut self, ground_lift: bool, release: bool) -> (free_flight: bool)
        ensures
            final(self).state == next_stage(old(self).state, ground_lift, release),
            final(self).m_proj == if old(self).state == TrebuchetState::Stage2 && release {
                RELEASED_MASS as i64
            } else {
                old(self).m_proj
            },
            free_flight == (final(self).state == TrebuchetState::Stage3),
            stage_number(old(self).state) <= stage_number(final(self).state),
            final(self).position == old(self).position,
            final(self).height == old(self).height,
            final(self).material == old(self).material,
            final(self).arm == old(self).arm,
            final(self).weight == old(self).weight,
            final(self).sling == old(self).sling,
    {
        match self.state {
            TrebuchetState::Stage1 => {
                if ground_lift {
                    self.state = TrebuchetState::Stage2;
                }
            },
            TrebuchetState::Stage2 => {
                if release {
                    self.m_proj = RELEASED_MASS;
                    self.state = TrebuchetState::Stage3;
                }
            },
            TrebuchetState::Stage3 => {},
        }
        match self.state {
            TrebuchetState::Stage3 => true,
            _ => false,
        }
    }
}

} // verus!

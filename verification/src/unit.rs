//! Units: movement parameters, the optional steering destination, and the
//! full per-unit record the world stores.

use vstd::prelude::*;

verus! {

use crate::{SOCIAL_LIMIT, SPEED_LIMIT};
use crate::faction::Faction;
use crate::geometry::Vec3Fx;
use crate::health::Health;
use crate::selection::{Selectable, SelectionCircle};

/// Movement parameters of a unit.
#[derive(Clone, Copy, Debug, PartialEq, Eq, Structural)]
pub struct Unit {
    /// Coordinate steps moved toward the destination per tick.
    pub speed: i64,
    /// Minimum desired separation radius from other units, in coordinate
    /// steps.
    pub social_distance: i64,
}

impl Unit {
    pub open spec fn wf(self) -> bool {
        0 < self.speed <= SPEED_LIMIT && 0 < self.social_distance <= SOCIAL_LIMIT
    }
}

impl Default for Unit {
    fn default() -> (r: Unit)
        ensures
            r == (Unit { speed: 100, social_distance: 1500 }),
            r.wf(),
    {
        Unit { speed: 100, social_distance: 1500 }
    }
}

/// The optional world point a unit currently steers toward.
#[derive(Clone, Copy, Debug, PartialEq, Eq, Structural)]
pub struct TargetPosition {
    pub pos: Option<Vec3Fx>,
}

impl TargetPosition {
    pub fn new() -> (r: TargetPosition)
        ensures
            r.pos is None,
    {
        TargetPosition { pos: None }
    }

    /// Point the unit at `vec`, replacing any earlier destination.
    pub fn update_to_vec(&mut self, vec: &Vec3Fx)
        ensures
            final(self).pos == Some(*vec),
    {
        self.pos = Some(*vec);
    }
}

impl Default for TargetPosition {
    fn default() -> (r: TargetPosition)
        ensures
            r.pos is None,
    {
        TargetPosition { pos: None }
    }
}

/// Which ability buttons a unit offers while it is selected.
#[derive(Clone, Copy, Debug, PartialEq, Eq, Structural)]
pub struct UnitAbilities {
    pub teleport: bool,
    pub heal_unit: bool,
    pub heal_area: bool,
}

impl Default for UnitAbilities {
    fn default() -> (r: UnitAbilities)
        ensures
            r == (UnitAbilities { teleport: false, heal_unit: false, heal_area: false }),
    {
        UnitAbilities { teleport: false, heal_unit: false, heal_area: false }
    }
}

/// Everything the world stores for one unit. The selection ring is owned
/// by the record, so despawning the unit tears the ring down with it.
#[derive(Clone, Copy, Debug, PartialEq, Eq, Structural)]
pub struct UnitBundle {
    /// World-unique id; stable for the unit's whole lifetime.
    pub id: u64,
    pub pos: Vec3Fx,
    pub unit: Unit,
    pub health: Health,
    pub target: TargetPosition,
    pub selectable: Selectable,
    pub circle: SelectionCircle,
    pub faction: Faction,
    pub abilities: UnitAbilities,
    /// Whether the camera may attach to this unit.
    pub can_have_camera: bool,
    /// Set by the health pass when the value reaches zero; the record is
    /// removed by the despawn pass in the same tick.
    pub dead: bool,
    /// Whether the unit's own mesh is drawn (hidden while camera-followed).
    pub visible: bool,
}

impl UnitBundle {
    pub open spec fn wf(self) -> bool {
        &&& self.pos.in_bounds()
        &&& self.unit.wf()
        &&& self.health.wf()
        &&& match self.target.pos {
            Some(t) => t.in_bounds(),
            None => true,
        }
    }
}

} // verus!

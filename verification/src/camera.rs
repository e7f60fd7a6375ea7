//! Camera follow: one followed unit, a remembered previous unit for
//! switch-back, and a fixed translation offset applied atop the followed
//! unit's position. Only the position is synchronised here: the reference
//! behaviour also copies the followed unit's orientation (a floating-point
//! quaternion), which stays with the rendering boundary outside this crate.

use vstd::prelude::*;

verus! {

use crate::ability::{Ability, CurrentAbility};
use crate::geometry::Vec3Fx;
use crate::unit::{TargetPosition, UnitBundle};
use crate::world::{TickInput, World, WorldView, with_units};

/// The camera-follow singleton. `entity` and `previous_entity` hold unit
/// ids; a dangling id is corrected by the death-fallback pass within the
/// tick in which the unit disappeared.
#[derive(Clone, Copy, Debug, PartialEq, Eq, Structural)]
pub struct CameraFollow {
    pub entity: Option<u64>,
    pub previous_entity: Option<u64>,
    pub translation_offset: Vec3Fx,
}

/// Whether a living unit with this id exists and may carry the camera.
pub open spec fn spec_followable(units: Seq<UnitBundle>, id: u64) -> bool {
    exists|i: int|
        0 <= i < units.len() && (#[trigger] units[i]).id == id && units[i].can_have_camera
}

/// The record of the unit with the given id (meaningful only under unique
/// ids and when such a unit exists).
pub open spec fn spec_unit_with_id(units: Seq<UnitBundle>, id: u64) -> UnitBundle {
    units[choose|i: int| 0 <= i < units.len() && (#[trigger] units[i]).id == id]
}

/// The followable unit a full scan settles on: the last one in unit-list
/// order, the order the death fallback inherits from its iteration.
pub open spec fn spec_last_followable(units: Seq<UnitBundle>) -> Option<u64>
    decreases units.len(),
{
    if units.len() == 0 {
        None
    } else if units.last().can_have_camera {
        Some(units.last().id)
    } else {
        spec_last_followable(units.drop_last())
    }
}

/// The switch-to pass: in `SwitchCamera` mode, a left-click edge completes
/// the one-shot. If the pick is on a followable unit the camera adopts it
/// and remembers the old one; the mode falls back to `Select` on any click.
pub open spec fn spec_switch_camera_to_entity(w: WorldView, input: TickInput) -> WorldView {
    if w.ability.ability != Ability::SwitchCamera || !input.left_pressed {
        w
    } else {
        let camera = match input.pick {
            Some(p) => match p.unit {
                Some(uid) => if spec_followable(w.units, uid) {
                    CameraFollow {
                        previous_entity: w.camera.entity,
                        entity: Some(uid),
                        ..w.camera
                    }
                } else {
                    w.camera
                },
                None => w.camera,
            },
            None => w.camera,
        };
        WorldView { camera, ability: CurrentAbility { ability: Ability::Select }, ..w }
    }
}

/// The switch-back pass: in `SwitchBack` mode, swap the followed and the
/// remembered unit if the remembered one is still alive and followable;
/// either way the mode falls back to `Select`.
pub open spec fn spec_switch_camera_back(w: WorldView) -> WorldView {
    if w.ability.ability != Ability::SwitchBack {
        w
    } else {
        let camera = match w.camera.previous_entity {
            Some(prev) => if spec_followable(w.units, prev) {
                CameraFollow { previous_entity: w.camera.entity, entity: Some(prev), ..w.camera }
            } else {
                w.camera
            },
            None => w.camera,
        };
        WorldView { camera, ability: CurrentAbility { ability: Ability::Select }, ..w }
    }
}

/// The death-fallback pass: if the followed unit no longer exists, adopt
/// the remembered previous unit when it is still followable, otherwise the
/// fallback scan's pick among the remaining followable units, or detach
/// when none is left.
pub open spec fn spec_switch_after_current_unit_dies(w: WorldView) -> WorldView {
    match w.camera.entity {
        None => w,
        Some(cur) => if spec_followable(w.units, cur) {
            w
        } else {
            let entity = match w.camera.previous_entity {
                Some(prev) => if spec_followable(w.units, prev) {
                    Some(prev)
                } else {
                    spec_last_followable(w.units)
                },
                None => spec_last_followable(w.units),
            };
            WorldView { camera: CameraFollow { entity, ..w.camera }, ..w }
        },
    }
}

/// The follow-locks-out-targeting pass: the followed unit loses its
/// destination and selection and its mesh is hidden; every other unit is
/// drawn.
pub open spec fn spec_reset_unit_target_if_it_has_camera(w: WorldView) -> WorldView {
    with_units(
        w,
        Seq::new(
            w.units.len(),
            |i: int|
                if w.camera.entity == Some(w.units[i].id) {
                    UnitBundle {
                        target: TargetPosition { pos: None },
                        selectable: crate::selection::Selectable {
                            selected: false,
                            ..w.units[i].selectable
                        },
                        visible: false,
                        ..w.units[i]
                    }
                } else {
                    UnitBundle { visible: true, ..w.units[i] }
                },
        ),
    )
}

/// The transform-sync pass: while the followed unit exists, the camera
/// transform is its position plus the fixed offset.
pub open spec fn spec_update_camera_position(w: WorldView) -> WorldView {
    match w.camera.entity {
        Some(id) => if w.has_unit(id) {
            let followed = spec_unit_with_id(w.units, id);
            WorldView {
                camera_transform: Vec3Fx {
                    x: (followed.pos.x + w.camera.translation_offset.x) as i64,
                    y: (followed.pos.y + w.camera.translation_offset.y) as i64,
                    z: (followed.pos.z + w.camera.translation_offset.z) as i64,
                },
                ..w
            }
        } else {
            w
        },
        None => w,
    }
}

impl World {
    /// Switch-to: see `spec_switch_camera_to_entity`.
    pub fn switch_camera_to_entity(&mut self, input: &TickInput)
        requires
            old(self)@.wf(),
        ensures
            final(self)@ == spec_switch_camera_to_entity(old(self)@, *input),
    {
        if !(self.ability.ability == Ability::SwitchCamera) || !input.left_pressed {
            return ;
        }
        match &input.pick {
            Some(p) => match p.unit {
                Some(uid) => {
                    match self.find_unit(uid) {
                        Some(i) => {
                            if self.units[i].can_have_camera {
                                self.camera.previous_entity = self.camera.entity;
                                self.camera.entity = Some(uid);
                            } else {
                                proof {
                                    lemma_not_followable_here(self@.units, uid, i as int);
                                }
                            }
                        },
                        None => {},
                    }
                },
                None => {},
            },
            None => {},
        }
        self.ability.ability = Ability::Select;
        proof {
            assert(final(self)@ =~= spec_switch_camera_to_entity(old(self)@, *input));
        }
    }

    /// Switch-back: see `spec_switch_camera_back`.
    pub fn switch_camera_back(&mut self)
        requires
            old(self)@.wf(),
        ensures
            final(self)@ == spec_switch_camera_back(old(self)@),
    {
        if !(self.ability.ability == Ability::SwitchBack) {
            return ;
        }
        match self.camera.previous_entity {
            Some(prev) => {
                match self.find_unit(prev) {
                    Some(i) => {
                        if self.units[i].can_have_camera {
                            self.camera.previous_entity = self.camera.entity;
                            self.camera.entity = Some(prev);
                        } else {
                            proof {
                                lemma_not_followable_here(self@.units, prev, i as int);
                            }
                        }
                    },
                    None => {},
                }
            },
            None => {},
        }
        self.ability.ability = Ability::Select;
        proof {
            assert(final(self)@ =~= spec_switch_camera_back(old(self)@));
        }
    }

    /// Death fallback: see `spec_switch_after_current_unit_dies`.
    pub fn switch_after_current_unit_dies(&mut self)
        requires
            old(self)@.wf(),
        ensures
            final(self)@ == spec_switch_after_current_unit_dies(old(self)@),
    {
        let cur = match self.camera.entity {
            Some(cur) => cur,
            None => {
                return ;
            },
        };
        match self.find_unit(cur) {
            Some(i) => {
                if self.units[i].can_have_camera {
                    return ;
                }
                proof {
                    lemma_not_followable_here(self@.units, cur, i as int);
                }
            },
            None => {},
        }
        let use_previous: bool = match self.camera.previous_entity {
            Some(prev) => match self.find_unit(prev) {
                Some(i) => {
                    let r = self.units[i].can_have_camera;
                    proof {
                        if !r {
                            lemma_not_followable_here(self@.units, prev, i as int);
                        }
                    }
                    r
                },
                None => false,
            },
            None => false,
        };
        if use_previous {
            self.camera.entity = self.camera.previous_entity;
        } else {
            self.camera.entity = self.last_followable();
        }
        proof {
            assert(final(self)@ =~= spec_switch_after_current_unit_dies(old(self)@));
        }
    }

    /// The unit the death-fallback scan settles on.
    fn last_followable(&self) -> (r: Option<u64>)
        ensures
            r == spec_last_followable(self@.units),
    {
        let n = self.units.len();
        proof {
            assert(self@.units.take(n as int) =~= self@.units);
        }
        let mut i: usize = n;
        while i > 0
            invariant
                i <= n,
                n == self@.units.len(),
                spec_last_followable(self@.units) == spec_last_followable(
                    self@.units.take(i as int),
                ),
            decreases i,
        {
            proof {
                assert(self@.units.take(i as int).drop_last() =~= self@.units.take(i - 1));
                assert(self@.units.take(i as int).last() == self@.units[i - 1]);
            }
            if self.units[i - 1].can_have_camera {
                return Some(self.units[i - 1].id);
            }
            i = i - 1;
        }
        proof {
            assert(self@.units.take(0) =~= Seq::<UnitBundle>::empty());
        }
        None
    }

    /// Follow-locks-out-targeting: see
    /// `spec_reset_unit_target_if_it_has_camera`.
    pub fn reset_unit_target_if_it_has_camera(&mut self)
        ensures
            final(self)@ == spec_reset_unit_target_if_it_has_camera(old(self)@),
    {
        let n = self.units.len();
        let mut i: usize = 0;
        while i < n
            invariant
                n == self@.units.len(),
                i <= n,
                self@ == with_units(old(self)@, self@.units),
                self@.camera == old(self)@.camera,
                forall|k: int|
                    0 <= k < i ==> self@.units[k] == (if old(self)@.camera.entity == Some(
                        old(self)@.units[k].id,
                    ) {
                        UnitBundle {
                            target: TargetPosition { pos: None },
                            selectable: crate::selection::Selectable {
                                selected: false,
                                ..old(self)@.units[k].selectable
                            },
                            visible: false,
                            ..old(self)@.units[k]
                        }
                    } else {
                        UnitBundle { visible: true, ..old(self)@.units[k] }
                    }),
                forall|k: int| i <= k < n ==> self@.units[k] == old(self)@.units[k],
            decreases n - i,
        {
            let mut u = self.units[i];
            let followed = match self.camera.entity {
                Some(id) => id == u.id,
                None => false,
            };
            if followed {
                u.target.pos = None;
                u.selectable.selected = false;
                u.visible = false;
            } else {
                u.visible = true;
            }
            self.units[i] = u;
            i = i + 1;
        }
        proof {
            assert(final(self)@ =~= spec_reset_unit_target_if_it_has_camera(old(self)@));
        }
    }

    /// Transform sync: see `spec_update_camera_position`.
    pub fn update_camera_position(&mut self)
        requires
            old(self)@.wf(),
        ensures
            final(self)@ == spec_update_camera_position(old(self)@),
    {
        let id = match self.camera.entity {
            Some(id) => id,
            None => {
                return ;
            },
        };
        match self.find_unit(id) {
            Some(i) => {
                let followed = self.units[i];
                proof {
                    let j = choose|j: int|
                        0 <= j < self@.units.len() && (#[trigger] self@.units[j]).id == id;
                    assert(j == i as int);
                }
                self.camera_transform = Vec3Fx {
                    x: followed.pos.x + self.camera.translation_offset.x,
                    y: followed.pos.y + self.camera.translation_offset.y,
                    z: followed.pos.z + self.camera.translation_offset.z,
                };
            },
            None => {},
        }
        proof {
            assert(final(self)@ =~= spec_update_camera_position(old(self)@));
        }
    }
}

/// What the fallback scan settles on really is followable.
pub proof fn lemma_last_followable_is_followable(units: Seq<UnitBundle>)
    ensures
        match spec_last_followable(units) {
            Some(id) => spec_followable(units, id),
            None => true,
        },
    decreases units.len(),
{
    if units.len() > 0 {
        if units.last().can_have_camera {
            assert(units[units.len() - 1].can_have_camera);
        } else {
            lemma_last_followable_is_followable(units.drop_last());
            match spec_last_followable(units.drop_last()) {
                Some(id) => {
                    let j = choose|j: int|
                        0 <= j < units.drop_last().len() && (#[trigger] units.drop_last()[j]).id
                            == id && units.drop_last()[j].can_have_camera;
                    assert(units[j].id == id && units[j].can_have_camera);
                },
                None => {},
            }
        }
    }
}

/// The camera-follow invariant: a tick never leaves the camera on a unit
/// that no longer exists or cannot carry it. Whatever the input, after the
/// death-fallback pass the followed entity is a live followable unit or
/// the camera is detached, so a dangling reference is corrected within the
/// tick in which the unit disappeared.
pub proof fn lemma_camera_never_dangles(w: WorldView, input: TickInput)
    ensures
        ({
            let after = crate::world::spec_tick(w, input);
            match after.camera.entity {
                Some(id) => spec_followable(after.units, id),
                None => true,
            }
        }),
{
    let w21 = w.tick_w21(input);
    let w22 = w.tick_w22(input);
    let after = crate::world::spec_tick(w, input);
    assert(after.units == w22.units && after.camera == w22.camera);
    match w21.camera.entity {
        None => {},
        Some(cur) => {
            if spec_followable(w21.units, cur) {
            } else {
                lemma_last_followable_is_followable(w21.units);
            }
        },
    }
}

/// If the unit at a given position does not carry the camera flag and ids
/// are unique, no unit with its id is followable.
proof fn lemma_not_followable_here(units: Seq<UnitBundle>, id: u64, i: int)
    requires
        0 <= i < units.len(),
        units[i].id == id,
        !units[i].can_have_camera,
        forall|a: int, b: int|
            0 <= a < b < units.len() ==> (#[trigger] units[a]).id != (#[trigger] units[b]).id,
    ensures
        !spec_followable(units, id),
{
    assert forall|j: int|
        0 <= j < units.len() && (#[trigger] units[j]).id == id implies !units[j].can_have_camera by {
        if j != i {
            if j < i {
                assert(units[j].id != units[i].id);
            } else {
                assert(units[i].id != units[j].id);
            }
        }
    }
}

impl Default for CameraFollow {
    fn default() -> (r: CameraFollow)
        ensures
            r == (CameraFollow {
                entity: None,
                previous_entity: None,
                translation_offset: Vec3Fx { x: 0, y: 0, z: 0 },
            }),
    {
        CameraFollow {
            entity: None,
            previous_entity: None,
            translation_offset: Vec3Fx { x: 0, y: 0, z: 0 },
        }
    }
}

} // verus!

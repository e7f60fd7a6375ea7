//! Drag-selection state: the two endpoints of an in-progress drag, the
//! finalized rectangle kept for one tick for the area-heal ability, and the
//! model of the drawn selection rectangle.

use vstd::prelude::*;

verus! {

use crate::{DRAG_EPSILON, HEAL_AREA_AMOUNT};
use crate::ability::{Ability, CurrentAbility};
use crate::geometry::{Vec3Fx, is_between_two_values, spec_is_between, within_epsilon};
use crate::selection::spec_set_selected;
use crate::unit::UnitBundle;
use crate::world::{TickInput, World, WorldView, with_units};

/// A finalized drag rectangle, stored as the two world points the drag
/// spanned.
#[derive(Clone, Copy, Debug, PartialEq, Eq, Structural)]
pub struct DragRect {
    pub start: Vec3Fx,
    pub end: Vec3Fx,
}

/// Transient drag state. Both positions are `None` while no drag is in
/// progress; `last_rectangle` survives one tick for the area-heal ability.
#[derive(Clone, Copy, Debug, PartialEq, Eq, Structural)]
pub struct SelectionState {
    pub initial_position: Option<Vec3Fx>,
    pub current_position: Option<Vec3Fx>,
    pub last_rectangle: Option<DragRect>,
}

impl Default for SelectionState {
    fn default() -> (r: SelectionState)
        ensures
            r == (SelectionState {
                initial_position: None,
                current_position: None,
                last_rectangle: None,
            }),
    {
        SelectionState { initial_position: None, current_position: None, last_rectangle: None }
    }
}

/// The drawn drag rectangle: an axis-aligned ground-plane span between the
/// smallest and largest x/z of the two drag endpoints.
#[derive(Clone, Copy, Debug, PartialEq, Eq, Structural)]
pub struct DragRectangle {
    pub visible: bool,
    pub min_x: i64,
    pub min_z: i64,
    pub max_x: i64,
    pub max_z: i64,
}

impl Default for DragRectangle {
    fn default() -> (r: DragRectangle)
        ensures
            r == (DragRectangle { visible: false, min_x: 0, min_z: 0, max_x: 0, max_z: 0 }),
    {
        DragRectangle { visible: false, min_x: 0, min_z: 0, max_x: 0, max_z: 0 }
    }
}

/// Whether the current mode lets the drag machinery run: plain selection,
/// or rectangle capture for the area heal.
pub open spec fn spec_drag_mode(ability: Ability) -> bool {
    ability == Ability::Select || ability == Ability::HealArea
}

/// The drag-start pass: on a left-press in a drag mode, remember the pick
/// position as the drag origin, or clear both endpoints when there is no
/// pick.
pub open spec fn spec_start_drag_select(w: WorldView, input: TickInput) -> WorldView {
    if !spec_drag_mode(w.ability.ability) || !input.left_pressed {
        w
    } else {
        match input.pick {
            Some(p) => WorldView {
                selection_state: SelectionState {
                    initial_position: Some(p.position),
                    ..w.selection_state
                },
                ..w
            },
            None => WorldView {
                selection_state: SelectionState {
                    initial_position: None,
                    current_position: None,
                    ..w.selection_state
                },
                ..w
            },
        }
    }
}

/// The drag-update pass: while an origin exists and the pick has moved at
/// least `DRAG_EPSILON` from it, grow the drawn rectangle and remember the
/// pick as the drag's current endpoint; a near-zero drag changes nothing
/// (it is a click, and the rectangle must not flicker). With no origin the
/// rectangle is hidden.
pub open spec fn spec_drag_select(w: WorldView, input: TickInput) -> WorldView {
    if !spec_drag_mode(w.ability.ability) {
        w
    } else {
        match w.selection_state.initial_position {
            Some(init) => match input.pick {
                Some(p) => if p.position.spec_dist_sq(init) < DRAG_EPSILON * DRAG_EPSILON {
                    w
                } else {
                    WorldView {
                        drag_rectangle: spec_rectangle_of(init, p.position),
                        selection_state: SelectionState {
                            current_position: Some(p.position),
                            ..w.selection_state
                        },
                        ..w
                    }
                },
                None => w,
            },
            None => WorldView {
                drag_rectangle: DragRectangle { visible: false, ..w.drag_rectangle },
                ..w
            },
        }
    }
}

/// Whether a unit's ground position lies strictly inside the rectangle
/// spanned by two points, on both ground axes.
pub open spec fn spec_inside_rect(pos: Vec3Fx, a: Vec3Fx, b: Vec3Fx) -> bool {
    spec_is_between(pos.x, a.x, b.x) && spec_is_between(pos.z, a.z, b.z)
}

/// The containment pass: in `Select` mode, while both drag endpoints
/// exist, every unit's selection is recomputed from the rectangle.
pub open spec fn spec_select_inside_rectangle(w: WorldView) -> WorldView {
    if w.ability.ability != Ability::Select {
        w
    } else {
        match (w.selection_state.initial_position, w.selection_state.current_position) {
            (Some(init), Some(cur)) => with_units(
                w,
                Seq::new(
                    w.units.len(),
                    |i: int|
                        UnitBundle {
                            selectable: spec_set_selected(
                                w.units[i].selectable,
                                spec_inside_rect(w.units[i].pos, init, cur),
                            ),
                            ..w.units[i]
                        },
                ),
            ),
            _ => w,
        }
    }
}

/// The drag-finish pass: on a left-release in a drag mode, store the
/// finished rectangle for the area heal (only in that mode, and only if the
/// drag produced both endpoints), then reset both endpoints.
pub open spec fn spec_finish_drag_select(w: WorldView, input: TickInput) -> WorldView {
    if !spec_drag_mode(w.ability.ability) || !input.left_released {
        w
    } else {
        let last_rectangle = if w.ability.ability == Ability::HealArea {
            match (w.selection_state.initial_position, w.selection_state.current_position) {
                (Some(init), Some(cur)) => Some(DragRect { start: init, end: cur }),
                _ => w.selection_state.last_rectangle,
            }
        } else {
            w.selection_state.last_rectangle
        };
        WorldView {
            selection_state: SelectionState {
                initial_position: None,
                current_position: None,
                last_rectangle,
            },
            ..w
        }
    }
}

/// The area-heal pass: in `HealArea` mode with a finished rectangle, heal
/// every unit inside it by `HEAL_AREA_AMOUNT`, consume the rectangle, and
/// fall back to `Select` mode.
pub open spec fn spec_heal_area_ability(w: WorldView) -> WorldView {
    if w.ability.ability != Ability::HealArea {
        w
    } else {
        match w.selection_state.last_rectangle {
            None => w,
            Some(r) => WorldView {
                units: Seq::new(
                    w.units.len(),
                    |i: int|
                        if spec_inside_rect(w.units[i].pos, r.start, r.end) {
                            UnitBundle {
                                health: w.units[i].health.spec_heal(HEAL_AREA_AMOUNT as int),
                                ..w.units[i]
                            }
                        } else {
                            w.units[i]
                        },
                ),
                selection_state: SelectionState { last_rectangle: None, ..w.selection_state },
                ability: CurrentAbility { ability: Ability::Select },
                ..w
            },
        }
    }
}

impl World {
    /// Drag start: see `spec_start_drag_select`.
    pub fn start_drag_select(&mut self, input: &TickInput)
        ensures
            final(self)@ == spec_start_drag_select(old(self)@, *input),
    {
        if !(self.ability.ability == Ability::Select) && !(self.ability.ability
            == Ability::HealArea) {
            return ;
        }
        if !input.left_pressed {
            return ;
        }
        match &input.pick {
            Some(p) => {
                self.selection_state.initial_position = Some(p.position);
            },
            None => {
                self.selection_state.initial_position = None;
                self.selection_state.current_position = None;
            },
        }
        proof {
            assert(final(self)@ =~= spec_start_drag_select(old(self)@, *input));
        }
    }

    /// Drag update: see `spec_drag_select`.
    pub fn drag_select(&mut self, input: &TickInput)
        requires
            old(self)@.wf(),
            input.ok(),
        ensures
            final(self)@ == spec_drag_select(old(self)@, *input),
    {
        if !(self.ability.ability == Ability::Select) && !(self.ability.ability
            == Ability::HealArea) {
            return ;
        }
        let init = match self.selection_state.initial_position {
            Some(init) => init,
            None => {
                self.drag_rectangle.visible = false;
                proof {
                    assert(final(self)@ =~= spec_drag_select(old(self)@, *input));
                }
                return ;
            },
        };
        let p = match &input.pick {
            Some(p) => *p,
            None => {
                return ;
            },
        };
        if within_epsilon(&p.position, &init, DRAG_EPSILON) {
            return ;
        }
        self.drag_rectangle = rectangle_of(&init, &p.position);
        self.selection_state.current_position = Some(p.position);
        proof {
            assert(final(self)@ =~= spec_drag_select(old(self)@, *input));
        }
    }

    /// Containment selection: see `spec_select_inside_rectangle`.
    pub fn select_inside_rectangle(&mut self)
        ensures
            final(self)@ == spec_select_inside_rectangle(old(self)@),
    {
        if !(self.ability.ability == Ability::Select) {
            return ;
        }
        let init = match self.selection_state.initial_position {
            Some(v) => v,
            None => {
                return ;
            },
        };
        let cur = match self.selection_state.current_position {
            Some(v) => v,
            None => {
                return ;
            },
        };
        let n = self.units.len();
        let mut i: usize = 0;
        while i < n
            invariant
                n == self@.units.len(),
                i <= n,
                self@ == with_units(old(self)@, self@.units),
                old(self)@.ability.ability == Ability::Select,
                old(self)@.selection_state.initial_position == Some(init),
                old(self)@.selection_state.current_position == Some(cur),
                forall|k: int|
                    0 <= k < i ==> self@.units[k] == (UnitBundle {
                        selectable: spec_set_selected(
                            old(self)@.units[k].selectable,
                            spec_inside_rect(old(self)@.units[k].pos, init, cur),
                        ),
                        ..old(self)@.units[k]
                    }),
                forall|k: int| i <= k < n ==> self@.units[k] == old(self)@.units[k],
            decreases n - i,
        {
            let mut u = self.units[i];
            let inside = is_between_two_values(u.pos.x, init.x, cur.x) && is_between_two_values(
                u.pos.z,
                init.z,
                cur.z,
            );
            u.selectable.set_selected(inside);
            self.units[i] = u;
            i = i + 1;
        }
        proof {
            assert(final(self)@ =~= spec_select_inside_rectangle(old(self)@));
        }
    }

    /// Drag finish: see `spec_finish_drag_select`.
    pub fn finish_drag_select(&mut self, input: &TickInput)
        ensures
            final(self)@ == spec_finish_drag_select(old(self)@, *input),
    {
        if !(self.ability.ability == Ability::Select) && !(self.ability.ability
            == Ability::HealArea) {
            return ;
        }
        if !input.left_released {
            return ;
        }
        if self.ability.ability == Ability::HealArea {
            match (self.selection_state.initial_position, self.selection_state.current_position) {
                (Some(init), Some(cur)) => {
                    self.selection_state.last_rectangle = Some(DragRect { start: init, end: cur });
                },
                _ => {},
            }
        }
        self.selection_state.initial_position = None;
        self.selection_state.current_position = None;
        proof {
            assert(final(self)@ =~= spec_finish_drag_select(old(self)@, *input));
        }
    }

    /// Area heal: see `spec_heal_area_ability`.
    pub fn heal_area_ability(&mut self)
        ensures
            final(self)@ == spec_heal_area_ability(old(self)@),
    {
        if !(self.ability.ability == Ability::HealArea) {
            return ;
        }
        let r = match self.selection_state.last_rectangle {
            Some(r) => r,
            None => {
                return ;
            },
        };
        let n = self.units.len();
        let mut i: usize = 0;
        while i < n
            invariant
                n == self@.units.len(),
                i <= n,
                self@ == with_units(old(self)@, self@.units),
                forall|k: int|
                    0 <= k < i ==> self@.units[k] == (if spec_inside_rect(
                        old(self)@.units[k].pos,
                        r.start,
                        r.end,
                    ) {
                        UnitBundle {
                            health: old(self)@.units[k].health.spec_heal(HEAL_AREA_AMOUNT as int),
                            ..old(self)@.units[k]
                        }
                    } else {
                        old(self)@.units[k]
                    }),
                forall|k: int| i <= k < n ==> self@.units[k] == old(self)@.units[k],
            decreases n - i,
        {
            let mut u = self.units[i];
            let inside = is_between_two_values(u.pos.x, r.start.x, r.end.x)
                && is_between_two_values(u.pos.z, r.start.z, r.end.z);
            if inside {
                if u.health.value <= i16::MAX - HEAL_AREA_AMOUNT {
                    u.health.heal(HEAL_AREA_AMOUNT);
                } else {
                    u.health.previous_value = u.health.value;
                    u.health.value = u.health.max_health;
                }
            }
            self.units[i] = u;
            i = i + 1;
        }
        self.selection_state.last_rectangle = None;
        self.ability.ability = Ability::Select;
        proof {
            assert(final(self)@ =~= spec_heal_area_ability(old(self)@));
        }
    }
}

/// The rectangle shape spanned by two drag endpoints, made visible.
pub open spec fn spec_rectangle_of(a: Vec3Fx, b: Vec3Fx) -> DragRectangle {
    DragRectangle {
        visible: true,
        min_x: if a.x <= b.x {
            a.x
        } else {
            b.x
        },
        min_z: if a.z <= b.z {
            a.z
        } else {
            b.z
        },
        max_x: if a.x <= b.x {
            b.x
        } else {
            a.x
        },
        max_z: if a.z <= b.z {
            b.z
        } else {
            a.z
        },
    }
}

/// Recompute the drawn rectangle from the two drag endpoints, mirroring how
/// the mesh corners are laid out from the coordinate-wise minima and maxima.
pub fn rectangle_of(a: &Vec3Fx, b: &Vec3Fx) -> (r: DragRectangle)
    ensures
        r == spec_rectangle_of(*a, *b),
{
    DragRectangle {
        visible: true,
        min_x: if a.x <= b.x {
            a.x
        } else {
            b.x
        },
        min_z: if a.z <= b.z {
            a.z
        } else {
            b.z
        },
        max_x: if a.x <= b.x {
            b.x
        } else {
            a.x
        },
        max_z: if a.z <= b.z {
            b.z
        } else {
            a.z
        },
    }
}

} // verus!

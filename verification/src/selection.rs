//! Per-unit selection state and the owned selection-ring indicator. The
//! ring's drawn state is refreshed every tick from the hover, highlight and
//! selection flags.

use vstd::prelude::*;

verus! {

use crate::CIRCLE_HEIGHT;
use crate::ability::Ability;
use crate::geometry::Vec3Fx;
use crate::unit::UnitBundle;
use crate::world::{Pick, TickInput, World, WorldView, with_units};

/// Per-unit selection flags. `previously_selected` remembers the flag from
/// before the last write, so that "just selected" transitions are
/// observable by the button bookkeeping.
#[derive(Clone, Copy, Debug, PartialEq, Eq, Structural)]
pub struct Selectable {
    pub selected: bool,
    pub previously_selected: bool,
}

/// What a `set_selected` write leaves behind.
pub open spec fn spec_set_selected(s: Selectable, selected: bool) -> Selectable {
    Selectable { selected, previously_selected: s.selected }
}

impl Selectable {
    pub fn set_selected(&mut self, selected: bool)
        ensures
            *final(self) == spec_set_selected(*old(self), selected),
    {
        self.previously_selected = self.selected;
        self.selected = selected;
    }
}

impl Default for Selectable {
    fn default() -> (r: Selectable)
        ensures
            r == (Selectable { selected: false, previously_selected: false }),
    {
        Selectable { selected: false, previously_selected: false }
    }
}

/// Colour tier of the ring, in descending priority: hover beats the
/// external highlight, which beats plain selection.
#[derive(Clone, Copy, Debug, PartialEq, Eq, Structural)]
pub enum CircleColor {
    Hovered,
    Highlighted,
    Selected,
}

/// The selection-ring indicator owned by a unit's `Selectable`. The flags
/// are written by the hover, selection and UI-highlight passes; the drawn
/// state (`draw_visible`, `color`, `pos`) is derived from them each tick.
#[derive(Clone, Copy, Debug, PartialEq, Eq, Structural)]
pub struct SelectionCircle {
    pub unit_highlighted: bool,
    pub unit_hovered: bool,
    pub unit_selected: bool,
    pub draw_visible: bool,
    pub color: CircleColor,
    pub pos: Vec3Fx,
}

impl SelectionCircle {
    /// The ring should be visible iff the unit is hovered, highlighted or
    /// selected.
    pub open spec fn spec_visible(self) -> bool {
        self.unit_hovered || self.unit_highlighted || self.unit_selected
    }

    pub fn visible(&self) -> (r: bool)
        ensures
            r == self.spec_visible(),
    {
        self.unit_hovered || self.unit_highlighted || self.unit_selected
    }

    /// Colour the drawn state should show for the current flags: hover
    /// first, then the external highlight, then plain selection.
    pub open spec fn spec_color(self) -> CircleColor {
        if self.unit_hovered {
            CircleColor::Hovered
        } else if self.unit_highlighted {
            CircleColor::Highlighted
        } else {
            CircleColor::Selected
        }
    }
}

/// `u` with its ring's hover flag recomputed from the tick's pick: hovered
/// iff the cursor pick belongs to this unit.
pub open spec fn spec_hover_unit(u: UnitBundle, pick: Option<Pick>) -> UnitBundle {
    UnitBundle {
        circle: SelectionCircle {
            unit_hovered: match pick {
                Some(p) => p.unit == Some(u.id),
                None => false,
            },
            ..u.circle
        },
        ..u
    }
}

/// The hover pass over the whole world.
pub open spec fn spec_set_unit_hovered(w: WorldView, input: TickInput) -> WorldView {
    with_units(w, Seq::new(w.units.len(), |i: int| spec_hover_unit(w.units[i], input.pick)))
}

/// What one click in `Select` mode does to one unit: with the modifier
/// held, only the picked unit is (re-)selected; without it, every unit is
/// first deselected and the picked unit selected afterwards, so the picked
/// unit's `previously_selected` reads `false`.
pub open spec fn spec_click_unit(u: UnitBundle, modifier_held: bool, picked: Option<u64>) -> UnitBundle {
    let cleared = if !modifier_held {
        UnitBundle { selectable: spec_set_selected(u.selectable, false), ..u }
    } else {
        u
    };
    if picked == Some(u.id) {
        UnitBundle { selectable: spec_set_selected(cleared.selectable, true), ..cleared }
    } else {
        cleared
    }
}

/// The single-click selection pass: only in `Select` mode, only on a
/// left-click edge, and only when some pick exists.
pub open spec fn spec_select_units(w: WorldView, input: TickInput) -> WorldView {
    if w.ability.ability != Ability::Select || !input.left_pressed {
        w
    } else {
        match input.pick {
            None => w,
            Some(p) => with_units(
                w,
                Seq::new(
                    w.units.len(),
                    |i: int| spec_click_unit(w.units[i], input.modifier_held, p.unit),
                ),
            ),
        }
    }
}

/// `u` with its ring's selection flag mirrored from the selection state.
pub open spec fn spec_mirror_selected(u: UnitBundle) -> UnitBundle {
    UnitBundle {
        circle: SelectionCircle { unit_selected: u.selectable.selected, ..u.circle },
        ..u
    }
}

pub open spec fn spec_set_unit_selected_for_circles(w: WorldView) -> WorldView {
    with_units(w, Seq::new(w.units.len(), |i: int| spec_mirror_selected(w.units[i])))
}

/// `u` with its ring's drawn state recomputed: the colour by the
/// hover-over-highlight-over-selection priority, the visibility as the OR
/// of the three flags.
pub open spec fn spec_refresh_circle(u: UnitBundle) -> UnitBundle {
    UnitBundle {
        circle: SelectionCircle {
            color: u.circle.spec_color(),
            draw_visible: u.circle.spec_visible(),
            ..u.circle
        },
        ..u
    }
}

pub open spec fn spec_change_circle_color(w: WorldView) -> WorldView {
    with_units(w, Seq::new(w.units.len(), |i: int| spec_refresh_circle(w.units[i])))
}

/// `u` with its ring moved under the unit (at ring height) while the ring
/// is visible.
pub open spec fn spec_move_circle(u: UnitBundle) -> UnitBundle {
    if u.circle.spec_visible() {
        UnitBundle {
            circle: SelectionCircle {
                pos: Vec3Fx { x: u.pos.x, y: CIRCLE_HEIGHT, z: u.pos.z },
                ..u.circle
            },
            ..u
        }
    } else {
        u
    }
}

pub open spec fn spec_move_circle_for_selected_units(w: WorldView) -> WorldView {
    with_units(w, Seq::new(w.units.len(), |i: int| spec_move_circle(w.units[i])))
}

impl World {
    /// Hover pass: every tick, each unit's ring learns whether the cursor
    /// pick is on its unit, independent of mode.
    pub fn set_unit_hovered_for_circles(&mut self, input: &TickInput)
        ensures
            final(self)@ == spec_set_unit_hovered(old(self)@, *input),
    {
        let picked: Option<u64> = match &input.pick {
            Some(p) => p.unit,
            None => None,
        };
        let n = self.units.len();
        let mut i: usize = 0;
        while i < n
            invariant
                n == self@.units.len(),
                i <= n,
                self@ == with_units(old(self)@, self@.units),
                picked == match input.pick {
                    Some(p) => p.unit,
                    None => None::<u64>,
                },
                forall|k: int|
                    0 <= k < i ==> self@.units[k] == spec_hover_unit(
                        old(self)@.units[k],
                        input.pick,
                    ),
                forall|k: int| i <= k < n ==> self@.units[k] == old(self)@.units[k],
            decreases n - i,
        {
            let mut u = self.units[i];
            u.circle.unit_hovered = match picked {
                Some(pid) => pid == u.id,
                None => false,
            };
            self.units[i] = u;
            i = i + 1;
        }
        proof {
            assert(final(self)@ =~= spec_set_unit_hovered(old(self)@, *input));
        }
    }

    /// Single-click selection: on a left-click edge in `Select` mode with a
    /// pick present, deselect everything unless the modifier key is held,
    /// then select the picked unit if the pick is on one.
    pub fn select_units(&mut self, input: &TickInput)
        ensures
            final(self)@ == spec_select_units(old(self)@, *input),
    {
        if !(self.ability.ability == Ability::Select) || !input.left_pressed {
            return ;
        }
        let picked: Option<u64> = match &input.pick {
            Some(p) => p.unit,
            None => {
                return ;
            },
        };
        let n = self.units.len();
        let mut i: usize = 0;
        while i < n
            invariant
                n == self@.units.len(),
                i <= n,
                self@ == with_units(old(self)@, self@.units),
                old(self)@.ability.ability == Ability::Select,
                input.left_pressed,
                input.pick is Some,
                picked == input.pick->Some_0.unit,
                forall|k: int|
                    0 <= k < i ==> self@.units[k] == spec_click_unit(
                        old(self)@.units[k],
                        input.modifier_held,
                        picked,
                    ),
                forall|k: int| i <= k < n ==> self@.units[k] == old(self)@.units[k],
            decreases n - i,
        {
            let mut u = self.units[i];
            if !input.modifier_held {
                u.selectable.set_selected(false);
            }
            let is_picked = match picked {
                Some(pid) => pid == u.id,
                None => false,
            };
            if is_picked {
                u.selectable.set_selected(true);
            }
            self.units[i] = u;
            i = i + 1;
        }
        proof {
            assert(final(self)@ =~= spec_select_units(old(self)@, *input));
        }
    }

    /// Mirror each unit's selection flag onto its ring.
    pub fn set_unit_selected_for_circles(&mut self)
        ensures
            final(self)@ == spec_set_unit_selected_for_circles(old(self)@),
    {
        let n = self.units.len();
        let mut i: usize = 0;
        while i < n
            invariant
                n == self@.units.len(),
                i <= n,
                self@ == with_units(old(self)@, self@.units),
                forall|k: int| 0 <= k < i ==> self@.units[k] == spec_mirror_selected(old(self)@.units[k]),
                forall|k: int| i <= k < n ==> self@.units[k] == old(self)@.units[k],
            decreases n - i,
        {
            let mut u = self.units[i];
            u.circle.unit_selected = u.selectable.selected;
            self.units[i] = u;
            i = i + 1;
        }
        proof {
            assert(final(self)@ =~= spec_set_unit_selected_for_circles(old(self)@));
        }
    }

    /// Recompute every ring's colour tier and visibility from its flags.
    /// Afterwards each ring is visible iff its unit is hovered, highlighted
    /// or selected.
    pub fn change_circle_color(&mut self)
        ensures
            final(self)@ == spec_change_circle_color(old(self)@),
            forall|k: int|
                0 <= k < final(self)@.units.len()
                    ==> (#[trigger] final(self)@.units[k]).circle.draw_visible
                    == final(self)@.units[k].circle.spec_visible(),
    {
        let n = self.units.len();
        let mut i: usize = 0;
        while i < n
            invariant
                n == self@.units.len(),
                i <= n,
                self@ == with_units(old(self)@, self@.units),
                forall|k: int| 0 <= k < i ==> self@.units[k] == spec_refresh_circle(old(self)@.units[k]),
                forall|k: int| i <= k < n ==> self@.units[k] == old(self)@.units[k],
            decreases n - i,
        {
            let mut u = self.units[i];
            u.circle.color = if u.circle.unit_hovered {
                CircleColor::Hovered
            } else if u.circle.unit_highlighted {
                CircleColor::Highlighted
            } else {
                CircleColor::Selected
            };
            u.circle.draw_visible = u.circle.unit_hovered || u.circle.unit_highlighted
                || u.circle.unit_selected;
            self.units[i] = u;
            i = i + 1;
        }
        proof {
            assert(final(self)@ =~= spec_change_circle_color(old(self)@));
        }
    }

    /// Keep every visible ring under its unit, at ring height.
    pub fn move_circle_for_selected_units(&mut self)
        ensures
            final(self)@ == spec_move_circle_for_selected_units(old(self)@),
    {
        let n = self.units.len();
        let mut i: usize = 0;
        while i < n
            invariant
                n == self@.units.len(),
                i <= n,
                self@ == with_units(old(self)@, self@.units),
                forall|k: int| 0 <= k < i ==> self@.units[k] == spec_move_circle(old(self)@.units[k]),
                forall|k: int| i <= k < n ==> self@.units[k] == old(self)@.units[k],
            decreases n - i,
        {
            let mut u = self.units[i];
            if u.circle.unit_hovered || u.circle.unit_highlighted || u.circle.unit_selected {
                u.circle.pos = Vec3Fx { x: u.pos.x, y: CIRCLE_HEIGHT, z: u.pos.z };
            }
            self.units[i] = u;
            i = i + 1;
        }
        proof {
            assert(final(self)@ =~= spec_move_circle_for_selected_units(old(self)@));
        }
    }
}

impl Default for SelectionCircle {
    fn default() -> (r: SelectionCircle)
        ensures
            r == (SelectionCircle {
                unit_highlighted: false,
                unit_hovered: false,
                unit_selected: false,
                draw_visible: false,
                color: CircleColor::Selected,
                pos: Vec3Fx { x: 0, y: 0, z: 0 },
            }),
    {
        SelectionCircle {
            unit_highlighted: false,
            unit_hovered: false,
            unit_selected: false,
            draw_visible: false,
            color: CircleColor::Selected,
            pos: Vec3Fx { x: 0, y: 0, z: 0 },
        }
    }
}

} // verus!

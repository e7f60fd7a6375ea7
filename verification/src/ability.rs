//! The process-wide ability mode: exactly one interpretation of player
//! input is active at any tick. One-shot abilities reset the mode back to
//! `Select` after completing.

use vstd::prelude::*;

verus! {

use crate::{GROUND_HEIGHT, HEAL_UNIT_AMOUNT};
use crate::geometry::Vec3Fx;
use crate::ui::{ButtonAction, ButtonId, spec_add_btn, spec_remove_btn};
use crate::unit::UnitBundle;
use crate::world::{TickInput, World, WorldView, with_units};

/// The closed set of interaction modes. `Teleport` carries the id of the
/// unit that will be teleported on the next valid right-click pick.
#[derive(Clone, Copy, Debug, PartialEq, Eq, Structural)]
pub enum Ability {
    Select,
    SwitchCamera,
    SwitchBack,
    Teleport(u64),
    HealUnit,
    HealArea,
}

impl Ability {
    /// Display name of the mode, as shown by the mode readout of the UI.
    pub fn label(&self) -> (r: &'static str)
        ensures
            r@ == self.spec_label(),
    {
        match self {
            Ability::Select => "Select",
            Ability::SwitchCamera => "Switch Camera",
            Ability::SwitchBack => "Switch Back",
            Ability::Teleport(_) => "Teleport",
            Ability::HealUnit => "Heal unit",
            Ability::HealArea => "Heal area",
        }
    }

    pub open spec fn spec_label(self) -> Seq<char> {
        match self {
            Ability::Select => "Select"@,
            Ability::SwitchCamera => "Switch Camera"@,
            Ability::SwitchBack => "Switch Back"@,
            Ability::Teleport(_) => "Teleport"@,
            Ability::HealUnit => "Heal unit"@,
            Ability::HealArea => "Heal area"@,
        }
    }
}

/// The singleton holder of the active mode. Read by every mode-gated
/// system each tick; written by ability completion and by UI callbacks.
#[derive(Clone, Copy, Debug, PartialEq, Eq, Structural)]
pub struct CurrentAbility {
    pub ability: Ability,
}

impl CurrentAbility {
    /// Setter used by the external UI callbacks: they only ever write a
    /// new mode, nothing else.
    pub fn set(&mut self, ability: Ability)
        ensures
            final(self).ability == ability,
    {
        self.ability = ability;
    }
}

impl Default for CurrentAbility {
    fn default() -> (r: CurrentAbility)
        ensures
            r.ability == Ability::Select,
    {
        CurrentAbility { ability: Ability::Select }
    }
}

/// The teleport pass: in `Teleport(id)` mode, a right-click edge completes
/// the one-shot. With a valid pick the carried unit is moved to the pick
/// point at ground height; with or without a pick the mode falls back to
/// `Select`. Left-clicks do nothing in this mode.
pub open spec fn spec_teleport_ability(w: WorldView, input: TickInput) -> WorldView {
    match w.ability.ability {
        Ability::Teleport(id) => if !input.right_pressed {
            w
        } else {
            let moved = match input.pick {
                Some(p) => with_units(
                    w,
                    Seq::new(
                        w.units.len(),
                        |i: int|
                            if w.units[i].id == id {
                                UnitBundle {
                                    pos: Vec3Fx {
                                        x: p.position.x,
                                        y: GROUND_HEIGHT,
                                        z: p.position.z,
                                    },
                                    ..w.units[i]
                                }
                            } else {
                                w.units[i]
                            },
                    ),
                ),
                None => w,
            };
            WorldView { ability: CurrentAbility { ability: Ability::Select }, ..moved }
        },
        _ => w,
    }
}

/// The heal-unit pass: in `HealUnit` mode, a left-click edge on any pick
/// completes the one-shot. If the pick is on a unit, that unit is healed by
/// `HEAL_UNIT_AMOUNT`; either way the mode falls back to `Select`. Without
/// any pick the mode is kept.
pub open spec fn spec_heal_unit_ability(w: WorldView, input: TickInput) -> WorldView {
    if w.ability.ability != Ability::HealUnit || !input.left_pressed {
        w
    } else {
        match input.pick {
            None => w,
            Some(p) => {
                let healed = match p.unit {
                    Some(uid) => with_units(
                        w,
                        Seq::new(
                            w.units.len(),
                            |i: int|
                                if w.units[i].id == uid {
                                    UnitBundle {
                                        health: w.units[i].health.spec_heal(
                                            HEAL_UNIT_AMOUNT as int,
                                        ),
                                        ..w.units[i]
                                    }
                                } else {
                                    w.units[i]
                                },
                        ),
                    ),
                    None => w,
                };
                WorldView { ability: CurrentAbility { ability: Ability::Select }, ..healed }
            },
        }
    }
}

/// What the button bookkeeping does for one unit: a unit that was just
/// selected (selected now, not before) offers its ability buttons; a unit
/// that is not selected has them withdrawn; a unit that stays selected
/// changes nothing.
pub open spec fn spec_unit_buttons_step(
    buttons: Seq<ButtonId>,
    dirty: bool,
    u: UnitBundle,
) -> (Seq<ButtonId>, bool) {
    if u.selectable.selected && !u.selectable.previously_selected {
        let b1 = if u.abilities.teleport {
            spec_add_btn(buttons, dirty, ButtonId { action: ButtonAction::Teleport, unit: Some(u.id) })
        } else {
            (buttons, dirty)
        };
        let b2 = if u.abilities.heal_unit {
            spec_add_btn(b1.0, b1.1, ButtonId { action: ButtonAction::HealUnit, unit: Some(u.id) })
        } else {
            b1
        };
        if u.abilities.heal_area {
            spec_add_btn(b2.0, b2.1, ButtonId { action: ButtonAction::HealArea, unit: Some(u.id) })
        } else {
            b2
        }
    } else if !u.selectable.selected {
        let b1 = if u.abilities.teleport {
            spec_remove_btn(buttons, dirty, ButtonId { action: ButtonAction::Teleport, unit: Some(u.id) })
        } else {
            (buttons, dirty)
        };
        let b2 = if u.abilities.heal_unit {
            spec_remove_btn(b1.0, b1.1, ButtonId { action: ButtonAction::HealUnit, unit: Some(u.id) })
        } else {
            b1
        };
        if u.abilities.heal_area {
            spec_remove_btn(b2.0, b2.1, ButtonId { action: ButtonAction::HealArea, unit: Some(u.id) })
        } else {
            b2
        }
    } else {
        (buttons, dirty)
    }
}

/// The registry image after the bookkeeping has handled the first `k`
/// units.
pub open spec fn spec_buttons_after_selection(
    units: Seq<UnitBundle>,
    k: int,
    buttons: Seq<ButtonId>,
    dirty: bool,
) -> (Seq<ButtonId>, bool)
    decreases k,
{
    if k <= 0 {
        (buttons, dirty)
    } else {
        let prev = spec_buttons_after_selection(units, k - 1, buttons, dirty);
        spec_unit_buttons_step(prev.0, prev.1, units[k - 1])
    }
}

/// The button-bookkeeping pass over the whole world.
pub open spec fn spec_add_ability_buttons(w: WorldView) -> WorldView {
    let b = spec_buttons_after_selection(w.units, w.units.len() as int, w.buttons, w.buttons_dirty);
    WorldView { buttons: b.0, buttons_dirty: b.1, ..w }
}

impl World {
    /// Button bookkeeping: see `spec_add_ability_buttons`. Registers the
    /// ability buttons of units that were selected this tick and withdraws
    /// those of units that are not selected.
    pub fn add_ability_buttons_for_selected_units(&mut self)
        ensures
            final(self)@ == spec_add_ability_buttons(old(self)@),
    {
        let n = self.units.len();
        let mut i: usize = 0;
        while i < n
            invariant
                n == self@.units.len(),
                i <= n,
                self@.units == old(self)@.units,
                self@ == (WorldView {
                    buttons: self@.buttons,
                    buttons_dirty: self@.buttons_dirty,
                    ..old(self)@
                }),
                (self@.buttons, self@.buttons_dirty) == spec_buttons_after_selection(
                    old(self)@.units,
                    i as int,
                    old(self)@.buttons,
                    old(self)@.buttons_dirty,
                ),
            decreases n - i,
        {
            let u = self.units[i];
            if u.selectable.selected && !u.selectable.previously_selected {
                if u.abilities.teleport {
                    let _ = self.buttons.add_button(
                        ButtonId { action: ButtonAction::Teleport, unit: Some(u.id) },
                    );
                }
                if u.abilities.heal_unit {
                    let _ = self.buttons.add_button(
                        ButtonId { action: ButtonAction::HealUnit, unit: Some(u.id) },
                    );
                }
                if u.abilities.heal_area {
                    let _ = self.buttons.add_button(
                        ButtonId { action: ButtonAction::HealArea, unit: Some(u.id) },
                    );
                }
            } else if !u.selectable.selected {
                if u.abilities.teleport {
                    self.buttons.remove_button(
                        ButtonId { action: ButtonAction::Teleport, unit: Some(u.id) },
                    );
                }
                if u.abilities.heal_unit {
                    self.buttons.remove_button(
                        ButtonId { action: ButtonAction::HealUnit, unit: Some(u.id) },
                    );
                }
                if u.abilities.heal_area {
                    self.buttons.remove_button(
                        ButtonId { action: ButtonAction::HealArea, unit: Some(u.id) },
                    );
                }
            }
            i = i + 1;
        }
        proof {
            assert(final(self)@ =~= spec_add_ability_buttons(old(self)@));
        }
    }

    /// Teleport completion: see `spec_teleport_ability`.
    pub fn teleport_ability(&mut self, input: &TickInput)
        ensures
            final(self)@ == spec_teleport_ability(old(self)@, *input),
    {
        let id = match self.ability.ability {
            Ability::Teleport(id) => id,
            _ => {
                return ;
            },
        };
        if !input.right_pressed {
            return ;
        }
        match &input.pick {
            Some(p) => {
                let ghost pick = input.pick;
                let target = Vec3Fx { x: p.position.x, y: GROUND_HEIGHT, z: p.position.z };
                let n = self.units.len();
                let mut i: usize = 0;
                while i < n
                    invariant
                        n == self@.units.len(),
                        i <= n,
                        self@ == with_units(old(self)@, self@.units),
                        pick is Some,
                        target == (Vec3Fx {
                            x: pick->Some_0.position.x,
                            y: GROUND_HEIGHT,
                            z: pick->Some_0.position.z,
                        }),
                        forall|k: int|
                            0 <= k < i ==> self@.units[k] == (if old(self)@.units[k].id == id {
                                UnitBundle { pos: target, ..old(self)@.units[k] }
                            } else {
                                old(self)@.units[k]
                            }),
                        forall|k: int| i <= k < n ==> self@.units[k] == old(self)@.units[k],
                    decreases n - i,
                {
                    let mut u = self.units[i];
                    if u.id == id {
                        u.pos = target;
                    }
                    self.units[i] = u;
                    i = i + 1;
                }
            },
            None => {},
        }
        self.ability.ability = Ability::Select;
        proof {
            assert(final(self)@ =~= spec_teleport_ability(old(self)@, *input));
        }
    }

    /// Heal-unit completion: see `spec_heal_unit_ability`.
    pub fn heal_unit_ability(&mut self, input: &TickInput)
        ensures
            final(self)@ == spec_heal_unit_ability(old(self)@, *input),
    {
        if !(self.ability.ability == Ability::HealUnit) || !input.left_pressed {
            return ;
        }
        let p = match &input.pick {
            Some(p) => *p,
            None => {
                return ;
            },
        };
        match p.unit {
            Some(uid) => {
                let n = self.units.len();
                let mut i: usize = 0;
                while i < n
                    invariant
                        n == self@.units.len(),
                        i <= n,
                        self@ == with_units(old(self)@, self@.units),
                        forall|k: int|
                            0 <= k < i ==> self@.units[k] == (if old(self)@.units[k].id == uid {
                                UnitBundle {
                                    health: old(self)@.units[k].health.spec_heal(
                                        HEAL_UNIT_AMOUNT as int,
                                    ),
                                    ..old(self)@.units[k]
                                }
                            } else {
                                old(self)@.units[k]
                            }),
                        forall|k: int| i <= k < n ==> self@.units[k] == old(self)@.units[k],
                    decreases n - i,
                {
                    let mut u = self.units[i];
                    if u.id == uid {
                        if u.health.value <= i16::MAX - HEAL_UNIT_AMOUNT {
                            u.health.heal(HEAL_UNIT_AMOUNT);
                        } else {
                            u.health.previous_value = u.health.value;
                            u.health.value = u.health.max_health;
                        }
                    }
                    self.units[i] = u;
                    i = i + 1;
                }
            },
            None => {},
        }
        self.ability.ability = Ability::Select;
        proof {
            assert(final(self)@ =~= spec_heal_unit_ability(old(self)@, *input));
        }
    }
}

} // verus!

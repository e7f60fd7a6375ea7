//! Unit health: a current value capped by a maximum, with the previous
//! value remembered so observers can read off the last change.

use vstd::prelude::*;

verus! {

use crate::ui::{ButtonAction, ButtonId};
use crate::unit::UnitBundle;
use crate::world::{World, WorldView, with_units};

/// Health of a unit. The value may drop below zero (the lifecycle pass then
/// marks the unit dead) but never exceeds `max_health`.
#[derive(Clone, Copy, Debug, PartialEq, Eq, Structural)]
pub struct Health {
    pub value: i16,
    pub max_health: i16,
    pub previous_value: i16,
}

impl Health {
    /// Both the current and the remembered previous value respect the cap.
    pub open spec fn wf(self) -> bool {
        self.value <= self.max_health && self.previous_value <= self.max_health
    }

    /// What `damage` leaves behind: the previous value remembers the old
    /// one and the new value is capped by the maximum.
    pub open spec fn spec_damage(self, amount: int) -> Health {
        Health {
            value: if self.value - amount <= self.max_health {
                (self.value - amount) as i16
            } else {
                self.max_health
            },
            max_health: self.max_health,
            previous_value: self.value,
        }
    }

    /// What `heal` leaves behind: the previous value remembers the old one
    /// and the new value is capped by the maximum.
    pub open spec fn spec_heal(self, amount: int) -> Health {
        Health {
            value: if self.value + amount <= self.max_health {
                (self.value + amount) as i16
            } else {
                self.max_health
            },
            max_health: self.max_health,
            previous_value: self.value,
        }
    }

    pub fn new(value: i16) -> (r: Health)
        ensures
            r == (Health { value, max_health: value, previous_value: value }),
            r.wf(),
    {
        Health { value, max_health: value, previous_value: value }
    }

    /// Lower the health value by `value`, never above the maximum. Healing
    /// by a negative amount is clamped the same way, so `wf` is preserved.
    pub fn damage(&mut self, value: i16)
        requires
            i16::MIN <= old(self).value - value <= i16::MAX,
        ensures
            *final(self) == old(self).spec_damage(value as int),
            old(self).wf() ==> final(self).wf(),
    {
        self.previous_value = self.value;
        let lowered: i16 = self.value - value;
        self.value = if lowered <= self.max_health {
            lowered
        } else {
            self.max_health
        };
    }

    /// Raise the health value by `value`, never above the maximum.
    pub fn heal(&mut self, value: i16)
        requires
            i16::MIN <= old(self).value + value <= i16::MAX,
        ensures
            *final(self) == old(self).spec_heal(value as int),
            old(self).wf() ==> final(self).wf(),
    {
        self.previous_value = self.value;
        let raised: i16 = self.value + value;
        self.value = if raised <= self.max_health {
            raised
        } else {
            self.max_health
        };
    }

    /// How much the value moved at the last `damage` or `heal`.
    pub fn difference(&self) -> (r: i16)
        requires
            i16::MIN <= self.value - self.previous_value <= i16::MAX,
        ensures
            r == self.value - self.previous_value,
    {
        self.value - self.previous_value
    }
}

impl Default for Health {
    fn default() -> (r: Health)
        ensures
            r == (Health { value: 3, max_health: 3, previous_value: 3 }),
            r.wf(),
    {
        Health { value: 3, max_health: 3, previous_value: 3 }
    }
}

/// The death-marking pass: every unit whose health value has reached zero
/// is marked dead; the despawn pass removes it in the same tick.
pub open spec fn spec_kill_if_health_0(w: WorldView) -> WorldView {
    with_units(
        w,
        Seq::new(
            w.units.len(),
            |i: int| UnitBundle { dead: w.units[i].dead || w.units[i].health.value <= 0, ..w.units[i] },
        ),
    )
}

/// The units that survive the despawn pass, order kept.
pub open spec fn spec_keep_alive(units: Seq<UnitBundle>) -> Seq<UnitBundle>
    decreases units.len(),
{
    if units.len() == 0 {
        Seq::empty()
    } else {
        let rest = spec_keep_alive(units.drop_last());
        if units.last().dead {
            rest
        } else {
            rest.push(units.last())
        }
    }
}

/// The ability-button ids a unit owns, removed from a registry image when
/// the unit dies.
pub open spec fn spec_remove_unit_buttons(
    buttons: Seq<ButtonId>,
    dirty: bool,
    u: UnitBundle,
) -> (Seq<ButtonId>, bool) {
    let b1 = if u.abilities.teleport {
        crate::ui::spec_remove_btn(buttons, dirty, ButtonId { action: ButtonAction::Teleport, unit: Some(u.id) })
    } else {
        (buttons, dirty)
    };
    let b2 = if u.abilities.heal_unit {
        crate::ui::spec_remove_btn(b1.0, b1.1, ButtonId { action: ButtonAction::HealUnit, unit: Some(u.id) })
    } else {
        b1
    };
    if u.abilities.heal_area {
        crate::ui::spec_remove_btn(b2.0, b2.1, ButtonId { action: ButtonAction::HealArea, unit: Some(u.id) })
    } else {
        b2
    }
}

/// The registry image after the despawn pass has unwound the buttons of
/// the first `k` units that are dead.
pub open spec fn spec_buttons_after_removals(
    units: Seq<UnitBundle>,
    k: int,
    buttons: Seq<ButtonId>,
    dirty: bool,
) -> (Seq<ButtonId>, bool)
    decreases k,
{
    if k <= 0 {
        (buttons, dirty)
    } else {
        let prev = spec_buttons_after_removals(units, k - 1, buttons, dirty);
        if units[k - 1].dead {
            spec_remove_unit_buttons(prev.0, prev.1, units[k - 1])
        } else {
            prev
        }
    }
}

/// The despawn pass: every dead unit's record disappears (its selection
/// ring with it, since the record owns the ring) and its ability buttons
/// are unwound from the registry.
pub open spec fn spec_remove_if_dead(w: WorldView) -> WorldView {
    let buttons = spec_buttons_after_removals(w.units, w.units.len() as int, w.buttons, w.buttons_dirty);
    WorldView {
        units: spec_keep_alive(w.units),
        buttons: buttons.0,
        buttons_dirty: buttons.1,
        ..w
    }
}

impl World {
    /// Death marking: see `spec_kill_if_health_0`.
    pub fn kill_if_health_0(&mut self)
        ensures
            final(self)@ == spec_kill_if_health_0(old(self)@),
    {
        let n = self.units.len();
        let mut i: usize = 0;
        while i < n
            invariant
                n == self@.units.len(),
                i <= n,
                self@ == with_units(old(self)@, self@.units),
                forall|k: int|
                    0 <= k < i ==> self@.units[k] == (UnitBundle {
                        dead: old(self)@.units[k].dead || old(self)@.units[k].health.value <= 0,
                        ..old(self)@.units[k]
                    }),
                forall|k: int| i <= k < n ==> self@.units[k] == old(self)@.units[k],
            decreases n - i,
        {
            let mut u = self.units[i];
            if u.health.value <= 0 {
                u.dead = true;
            }
            self.units[i] = u;
            i = i + 1;
        }
        proof {
            assert(final(self)@ =~= spec_kill_if_health_0(old(self)@));
        }
    }

    /// Despawn: see `spec_remove_if_dead`.
    pub fn remove_if_dead(&mut self)
        requires
            old(self)@.wf(),
        ensures
            final(self)@ == spec_remove_if_dead(old(self)@),
    {
        let n = self.units.len();
        let mut kept: Vec<UnitBundle> = Vec::new();
        let mut i: usize = 0;
        while i < n
            invariant
                n == self@.units.len(),
                i <= n,
                self@.units == old(self)@.units,
                self@ == (WorldView {
                    buttons: self@.buttons,
                    buttons_dirty: self@.buttons_dirty,
                    ..old(self)@
                }),
                self.buttons.wf(),
                kept@ == spec_keep_alive(self@.units.take(i as int)),
                kept@.len() <= i,
                (self@.buttons, self@.buttons_dirty) == spec_buttons_after_removals(
                    old(self)@.units,
                    i as int,
                    old(self)@.buttons,
                    old(self)@.buttons_dirty,
                ),
            decreases n - i,
        {
            let u = self.units[i];
            proof {
                assert(self@.units.take(i + 1).drop_last() =~= self@.units.take(i as int));
                assert(self@.units.take(i + 1).last() == self@.units[i as int]);
            }
            if u.dead {
                if u.abilities.teleport {
                    self.buttons.remove_button(
                        ButtonId { action: ButtonAction::Teleport, unit: Some(u.id) },
                    );
                }
                if u.abilities.heal_unit {
                    self.buttons.remove_button(
                        ButtonId { action: ButtonAction::HealUnit, unit: Some(u.id) },
                    );
                }
                if u.abilities.heal_area {
                    self.buttons.remove_button(
                        ButtonId { action: ButtonAction::HealArea, unit: Some(u.id) },
                    );
                }
            } else {
                kept.push(u);
            }
            i = i + 1;
        }
        proof {
            assert(self@.units.take(n as int) =~= self@.units);
        }
        self.units = kept;
        proof {
            assert(final(self)@ =~= spec_remove_if_dead(old(self)@));
        }
    }
}

} // verus!

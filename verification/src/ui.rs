//! The ability-button registry. Buttons are identified by the action they
//! trigger plus the unit they act on, so the registry can refuse duplicates
//! and unwind a dead unit's buttons. Layout and rendering of the buttons
//! live outside the crate; `dirty` tells that boundary to rebuild.

use vstd::prelude::*;

verus! {

use crate::ability::{Ability, CurrentAbility};
use crate::selection::SelectionCircle;
use crate::unit::UnitBundle;
use crate::world::{World, WorldView, with_units};

/// The action a button triggers when clicked: each one writes a mode into
/// the ability singleton.
#[derive(Clone, Copy, Debug, PartialEq, Eq, Structural)]
pub enum ButtonAction {
    SwitchCamera,
    SwitchBack,
    Teleport,
    HealUnit,
    HealArea,
}

/// Identity of a button: its action and, for unit abilities, the unit it
/// belongs to. The two global camera buttons carry no unit.
#[derive(Clone, Copy, Debug, PartialEq, Eq, Structural)]
pub struct ButtonId {
    pub action: ButtonAction,
    pub unit: Option<u64>,
}

/// Ghost image of the registry.
pub struct ButtonsView {
    pub buttons: Seq<ButtonId>,
    pub dirty: bool,
}

/// The registry of currently offered buttons, in insertion order, with no
/// id occurring twice.
#[derive(Debug)]
pub struct AvailableButtons {
    buttons: Vec<ButtonId>,
    dirty: bool,
}

impl View for AvailableButtons {
    type V = ButtonsView;

    closed spec fn view(&self) -> ButtonsView {
        ButtonsView { buttons: self.buttons@, dirty: self.dirty }
    }
}

/// No id occurs twice in `buttons`.
pub open spec fn spec_buttons_distinct(buttons: Seq<ButtonId>) -> bool {
    forall|i: int, j: int| 0 <= i < j < buttons.len() ==> buttons[i] != buttons[j]
}

/// Whether `buttons` already holds `id`.
pub open spec fn spec_has_button(buttons: Seq<ButtonId>, id: ButtonId) -> bool {
    exists|i: int| 0 <= i < buttons.len() && buttons[i] == id
}

/// `buttons` with every occurrence of `id` removed, order kept.
pub open spec fn spec_remove_id(buttons: Seq<ButtonId>, id: ButtonId) -> Seq<ButtonId>
    decreases buttons.len(),
{
    if buttons.len() == 0 {
        Seq::empty()
    } else {
        let rest = spec_remove_id(buttons.drop_last(), id);
        if buttons.last() == id {
            rest
        } else {
            rest.push(buttons.last())
        }
    }
}

/// What `add_button` leaves of a registry image: unchanged on a duplicate,
/// else the id appended and the registry dirty.
pub open spec fn spec_add_btn(buttons: Seq<ButtonId>, dirty: bool, id: ButtonId) -> (
    Seq<ButtonId>,
    bool,
) {
    if spec_has_button(buttons, id) {
        (buttons, dirty)
    } else {
        (buttons.push(id), true)
    }
}

/// What `remove_button` leaves of a registry image: the id filtered out,
/// dirty iff something was removed (or it already was dirty).
pub open spec fn spec_remove_btn(buttons: Seq<ButtonId>, dirty: bool, id: ButtonId) -> (
    Seq<ButtonId>,
    bool,
) {
    let kept = spec_remove_id(buttons, id);
    (kept, dirty || kept.len() != buttons.len())
}

impl AvailableButtons {
    /// No button id occurs twice.
    pub open spec fn wf(self) -> bool {
        spec_buttons_distinct(self@.buttons)
    }

    /// The registry the world starts with: the two global camera buttons,
    /// marked dirty so the UI boundary draws them.
    pub fn new() -> (r: AvailableButtons)
        ensures
            r@.buttons == seq![
                ButtonId { action: ButtonAction::SwitchCamera, unit: None },
                ButtonId { action: ButtonAction::SwitchBack, unit: None },
            ],
            r@.dirty,
            r.wf(),
    {
        let mut buttons: Vec<ButtonId> = Vec::new();
        buttons.push(ButtonId { action: ButtonAction::SwitchCamera, unit: None });
        buttons.push(ButtonId { action: ButtonAction::SwitchBack, unit: None });
        proof {
            assert(buttons@ =~= seq![
                ButtonId { action: ButtonAction::SwitchCamera, unit: None },
                ButtonId { action: ButtonAction::SwitchBack, unit: None },
            ]);
        }
        AvailableButtons { buttons, dirty: true }
    }

    /// How many buttons the registry currently offers.
    pub fn len(&self) -> (r: usize)
        ensures
            r == self@.buttons.len(),
    {
        self.buttons.len()
    }

    /// The button at `index`, for the UI boundary to lay out.
    pub fn get(&self, index: usize) -> (r: ButtonId)
        requires
            index < self@.buttons.len(),
        ensures
            r == self@.buttons[index as int],
    {
        self.buttons[index]
    }

    /// Whether a button with the given id is currently offered.
    pub fn has_button(&self, id: &ButtonId) -> (r: bool)
        ensures
            r == spec_has_button(self@.buttons, *id),
    {
        let n = self.buttons.len();
        let mut i: usize = 0;
        while i < n
            invariant
                n == self@.buttons.len(),
                forall|k: int| 0 <= k < i ==> self@.buttons[k] != *id,
            decreases n - i,
        {
            if self.buttons[i] == *id {
                return true;
            }
            i = i + 1;
        }
        false
    }

    /// Whether the registry must be re-drawn.
    pub fn is_dirty(&self) -> (r: bool)
        ensures
            r == self@.dirty,
    {
        self.dirty
    }

    /// Acknowledge a re-draw: the boundary calls this once it has rebuilt
    /// the displayed buttons.
    pub fn clear_dirty(&mut self)
        ensures
            final(self)@.buttons == old(self)@.buttons,
            !final(self)@.dirty,
            old(self).wf() ==> final(self).wf(),
    {
        self.dirty = false;
    }

    /// Register a button. Fails, changing nothing, iff the id is already
    /// present; otherwise the button is appended and the registry marked
    /// dirty.
    pub fn add_button(&mut self, id: ButtonId) -> (r: Result<ButtonId, &'static str>)
        ensures
            spec_has_button(old(self)@.buttons, id) ==> r == Err::<ButtonId, &'static str>(
                "Already used ID",
            ) && r->Err_0@ == "Already used ID"@ && *final(self) == *old(self),
            !spec_has_button(old(self)@.buttons, id) ==> r == Ok::<ButtonId, &'static str>(id)
                && final(self)@.buttons == old(self)@.buttons.push(id) && final(self)@.dirty,
            old(self).wf() ==> final(self).wf(),
    {
        let n = self.buttons.len();
        let mut i: usize = 0;
        while i < n
            invariant
                n == self.buttons.len(),
                forall|k: int| 0 <= k < i ==> self.buttons@[k] != id,
            decreases n - i,
        {
            if self.buttons[i] == id {
                return Err("Already used ID");
            }
            i = i + 1;
        }
        self.buttons.push(id);
        self.dirty = true;
        Ok(id)
    }

    /// Drop every button with the given id, keeping the order of the rest;
    /// the registry is marked dirty iff something was removed.
    pub fn remove_button(&mut self, id: ButtonId)
        ensures
            final(self)@.buttons == spec_remove_id(old(self)@.buttons, id),
            final(self)@.dirty == (old(self)@.dirty || final(self)@.buttons.len()
                != old(self)@.buttons.len()),
            old(self).wf() ==> final(self).wf(),
    {
        let n = self.buttons.len();
        let mut kept: Vec<ButtonId> = Vec::new();
        let mut i: usize = 0;
        while i < n
            invariant
                n == self.buttons.len(),
                i <= n,
                kept@ == spec_remove_id(self.buttons@.take(i as int), id),
                kept@.len() <= i,
            decreases n - i,
        {
            let b = self.buttons[i];
            proof {
                assert(self.buttons@.take(i + 1).drop_last() =~= self.buttons@.take(i as int));
                assert(self.buttons@.take(i + 1).last() == self.buttons@[i as int]);
            }
            if !(b == id) {
                kept.push(b);
            }
            i = i + 1;
        }
        proof {
            assert(self.buttons@.take(n as int) =~= self.buttons@);
        }
        if kept.len() != self.buttons.len() {
            self.dirty = true;
        }
        self.buttons = kept;
        proof {
            lemma_remove_id_keeps(old(self)@.buttons, id);
        }
    }
}

/// The mode a button writes into the ability singleton when clicked: the
/// two global buttons switch the camera, a unit button arms its unit's
/// ability. A unit button without a unit (which the bookkeeping never
/// creates) leaves the mode alone.
pub open spec fn spec_press_button(w: WorldView, id: ButtonId) -> WorldView {
    if !spec_has_button(w.buttons, id) {
        w
    } else {
        let ability = match id.action {
            ButtonAction::SwitchCamera => Ability::SwitchCamera,
            ButtonAction::SwitchBack => Ability::SwitchBack,
            ButtonAction::Teleport => match id.unit {
                Some(u) => Ability::Teleport(u),
                None => w.ability.ability,
            },
            ButtonAction::HealUnit => Ability::HealUnit,
            ButtonAction::HealArea => Ability::HealArea,
        };
        WorldView { ability: CurrentAbility { ability }, ..w }
    }
}

/// `w` with the highlight flag of one unit's ring set: what hovering over
/// that unit's ability button does.
pub open spec fn spec_set_unit_highlighted(w: WorldView, id: u64, highlighted: bool) -> WorldView {
    with_units(
        w,
        Seq::new(
            w.units.len(),
            |i: int|
                if w.units[i].id == id {
                    UnitBundle {
                        circle: SelectionCircle { unit_highlighted: highlighted, ..w.units[i].circle },
                        ..w.units[i]
                    }
                } else {
                    w.units[i]
                },
        ),
    )
}

impl World {
    /// Dispatch a click on a displayed button: the UI boundary calls this
    /// with the id of the button that was clicked. A button that is not in
    /// the registry does nothing.
    pub fn press_button(&mut self, id: ButtonId)
        ensures
            final(self)@ == spec_press_button(old(self)@, id),
    {
        if !self.buttons.has_button(&id) {
            return ;
        }
        let ability = match id.action {
            ButtonAction::SwitchCamera => Ability::SwitchCamera,
            ButtonAction::SwitchBack => Ability::SwitchBack,
            ButtonAction::Teleport => match id.unit {
                Some(u) => Ability::Teleport(u),
                None => self.ability.ability,
            },
            ButtonAction::HealUnit => Ability::HealUnit,
            ButtonAction::HealArea => Ability::HealArea,
        };
        self.ability.ability = ability;
        proof {
            assert(final(self)@ =~= spec_press_button(old(self)@, id));
        }
    }

    /// Mirror a button hover onto the ring of the unit the button belongs
    /// to: see `spec_set_unit_highlighted`.
    pub fn set_unit_highlighted(&mut self, id: u64, highlighted: bool)
        ensures
            final(self)@ == spec_set_unit_highlighted(old(self)@, id, highlighted),
    {
        let n = self.units.len();
        let mut i: usize = 0;
        while i < n
            invariant
                n == self@.units.len(),
                i <= n,
                self@ == with_units(old(self)@, self@.units),
                forall|k: int|
                    0 <= k < i ==> self@.units[k] == (if old(self)@.units[k].id == id {
                        UnitBundle {
                            circle: SelectionCircle {
                                unit_highlighted: highlighted,
                                ..old(self)@.units[k].circle
                            },
                            ..old(self)@.units[k]
                        }
                    } else {
                        old(self)@.units[k]
                    }),
                forall|k: int| i <= k < n ==> self@.units[k] == old(self)@.units[k],
            decreases n - i,
        {
            let mut u = self.units[i];
            if u.id == id {
                u.circle.unit_highlighted = highlighted;
            }
            self.units[i] = u;
            i = i + 1;
        }
        proof {
            assert(final(self)@ =~= spec_set_unit_highlighted(old(self)@, id, highlighted));
        }
    }
}

/// Removal keeps every other id that was present and introduces nothing:
/// the facts the well-formedness proof needs.
pub proof fn lemma_remove_id_keeps(buttons: Seq<ButtonId>, id: ButtonId)
    ensures
        forall|i: int|
            0 <= i < spec_remove_id(buttons, id).len() ==> #[trigger] spec_remove_id(
                buttons,
                id,
            )[i] != id && spec_has_button(buttons, spec_remove_id(buttons, id)[i]),
        spec_remove_id(buttons, id).len() <= buttons.len(),
        (forall|i: int, j: int| 0 <= i < j < buttons.len() ==> buttons[i] != buttons[j])
            ==> (forall|i: int, j: int|
            0 <= i < j < spec_remove_id(buttons, id).len() ==> spec_remove_id(buttons, id)[i]
                != spec_remove_id(buttons, id)[j]),
    decreases buttons.len(),
{
    if buttons.len() > 0 {
        lemma_remove_id_keeps(buttons.drop_last(), id);
        assert(forall|i: int|
            0 <= i < buttons.drop_last().len() ==> #[trigger] buttons.drop_last()[i]
                == buttons[i]);
    }
}

} // verus!

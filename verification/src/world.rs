//! The simulation state threaded through every per-tick pass: the units,
//! the ability-mode and camera singletons, the drag state and the button
//! registry. Each pass is an explicit method, so the per-tick update order
//! is visible and testable.

use vstd::prelude::*;

verus! {

use crate::MAX_UNITS;
use crate::ability::{
    Ability, CurrentAbility, spec_add_ability_buttons, spec_buttons_after_selection,
    spec_heal_unit_ability, spec_teleport_ability, spec_unit_buttons_step,
};
use crate::camera::{
    CameraFollow, spec_reset_unit_target_if_it_has_camera, spec_switch_after_current_unit_dies,
    spec_switch_camera_back, spec_switch_camera_to_entity, spec_update_camera_position,
};
use crate::drag_selection::{
    DragRectangle, SelectionState, spec_drag_select, spec_finish_drag_select,
    spec_heal_area_ability, spec_select_inside_rectangle, spec_start_drag_select,
};
use crate::faction::Faction;
use crate::geometry::Vec3Fx;
use crate::health::{
    Health, spec_buttons_after_removals, spec_keep_alive, spec_kill_if_health_0,
    spec_remove_if_dead,
};
use crate::movement::{spec_set_target_for_selected, spec_unit_movement};
use crate::selection::{
    Selectable, SelectionCircle, spec_change_circle_color, spec_move_circle_for_selected_units,
    spec_select_units, spec_set_unit_hovered, spec_set_unit_selected_for_circles,
};
use crate::target_indicator::{TargetIndicator, spec_show_target_indicator};
use crate::ui::{
    AvailableButtons, ButtonId, lemma_remove_id_keeps, spec_add_btn, spec_buttons_distinct,
    spec_has_button, spec_remove_btn,
};
use crate::unit::{TargetPosition, Unit, UnitAbilities, UnitBundle};

/// The topmost world point under the cursor this tick, and the unit it
/// belongs to if the cursor is over one.
#[derive(Clone, Copy, Debug, PartialEq, Eq, Structural)]
pub struct Pick {
    pub position: Vec3Fx,
    pub unit: Option<u64>,
}

/// Everything the input boundary hands the simulation for one tick:
/// edge-triggered mouse state, the level state of the add-to-selection
/// modifier key, and the optional cursor pick.
#[derive(Clone, Copy, Debug, PartialEq, Eq, Structural)]
pub struct TickInput {
    /// The left mouse button was pressed this tick.
    pub left_pressed: bool,
    /// The left mouse button was released this tick.
    pub left_released: bool,
    /// The right mouse button was pressed this tick.
    pub right_pressed: bool,
    /// The add-to-selection modifier key is held down.
    pub modifier_held: bool,
    pub pick: Option<Pick>,
}

impl TickInput {
    /// A pick handed in by the boundary must lie inside the world.
    pub open spec fn ok(self) -> bool {
        match self.pick {
            Some(p) => p.position.in_bounds(),
            None => true,
        }
    }

    /// An idle tick: no edges, no modifier, no pick.
    pub fn none() -> (r: TickInput)
        ensures
            r == (TickInput {
                left_pressed: false,
                left_released: false,
                right_pressed: false,
                modifier_held: false,
                pick: None,
            }),
    {
        TickInput {
            left_pressed: false,
            left_released: false,
            right_pressed: false,
            modifier_held: false,
            pick: None,
        }
    }
}

/// Ghost image of the whole simulation state.
#[verifier::ext_equal]
pub struct WorldView {
    pub units: Seq<UnitBundle>,
    pub ability: CurrentAbility,
    pub camera: CameraFollow,
    pub camera_transform: Vec3Fx,
    pub selection_state: SelectionState,
    pub drag_rectangle: DragRectangle,
    pub target_indicator: TargetIndicator,
    pub buttons: Seq<ButtonId>,
    pub buttons_dirty: bool,
    pub next_id: u64,
}

/// The world's units are few enough to scan pairwise, are all well formed,
/// and carry ids that are unique and below the id counter.
pub open spec fn wf_units(units: Seq<UnitBundle>, next_id: u64) -> bool {
    &&& units.len() <= MAX_UNITS
    &&& forall|i: int| 0 <= i < units.len() ==> (#[trigger] units[i]).wf()
    &&& forall|i: int, j: int|
        0 <= i < j < units.len() ==> (#[trigger] units[i]).id != (#[trigger] units[j]).id
    &&& forall|i: int| 0 <= i < units.len() ==> (#[trigger] units[i]).id < next_id
}

impl WorldView {
    pub open spec fn wf(self) -> bool {
        &&& wf_units(self.units, self.next_id)
        &&& self.camera.translation_offset.in_bounds()
        &&& crate::ui::spec_buttons_distinct(self.buttons)
        &&& match self.selection_state.initial_position {
            Some(p) => p.in_bounds(),
            None => true,
        }
        &&& match self.selection_state.current_position {
            Some(p) => p.in_bounds(),
            None => true,
        }
        &&& match self.selection_state.last_rectangle {
            Some(r) => r.start.in_bounds() && r.end.in_bounds(),
            None => true,
        }
    }

    /// Whether a living unit with this id exists.
    pub open spec fn has_unit(self, id: u64) -> bool {
        exists|i: int| 0 <= i < self.units.len() && (#[trigger] self.units[i]).id == id
    }

    /// The prefixes of the tick composition (see `spec_tick`), named so the
    /// step-by-step proof of `World::tick` can speak about each
    /// intermediate state.
    pub open spec fn tick_w1(self, input: TickInput) -> WorldView {
        spec_set_unit_hovered(self, input)
    }

    pub open spec fn tick_w2(self, input: TickInput) -> WorldView {
        spec_select_units(self.tick_w1(input), input)
    }

    pub open spec fn tick_w3(self, input: TickInput) -> WorldView {
        spec_start_drag_select(self.tick_w2(input), input)
    }

    pub open spec fn tick_w4(self, input: TickInput) -> WorldView {
        spec_drag_select(self.tick_w3(input), input)
    }

    pub open spec fn tick_w5(self, input: TickInput) -> WorldView {
        spec_select_inside_rectangle(self.tick_w4(input))
    }

    pub open spec fn tick_w6(self, input: TickInput) -> WorldView {
        spec_finish_drag_select(self.tick_w5(input), input)
    }

    pub open spec fn tick_w7(self, input: TickInput) -> WorldView {
        spec_heal_area_ability(self.tick_w6(input))
    }

    pub open spec fn tick_w8(self, input: TickInput) -> WorldView {
        spec_heal_unit_ability(self.tick_w7(input), input)
    }

    pub open spec fn tick_w9(self, input: TickInput) -> WorldView {
        spec_add_ability_buttons(self.tick_w8(input))
    }

    pub open spec fn tick_w10(self, input: TickInput) -> WorldView {
        spec_set_target_for_selected(self.tick_w9(input), input)
    }

    pub open spec fn tick_w11(self, input: TickInput) -> WorldView {
        spec_teleport_ability(self.tick_w10(input), input)
    }

    pub open spec fn tick_w12(self, input: TickInput) -> WorldView {
        spec_unit_movement(self.tick_w11(input))
    }

    pub open spec fn tick_w13(self, input: TickInput) -> WorldView {
        spec_show_target_indicator(self.tick_w12(input))
    }

    pub open spec fn tick_w14(self, input: TickInput) -> WorldView {
        spec_set_unit_selected_for_circles(self.tick_w13(input))
    }

    pub open spec fn tick_w15(self, input: TickInput) -> WorldView {
        spec_move_circle_for_selected_units(self.tick_w14(input))
    }

    pub open spec fn tick_w16(self, input: TickInput) -> WorldView {
        spec_change_circle_color(self.tick_w15(input))
    }

    pub open spec fn tick_w17(self, input: TickInput) -> WorldView {
        spec_switch_camera_to_entity(self.tick_w16(input), input)
    }

    pub open spec fn tick_w18(self, input: TickInput) -> WorldView {
        spec_switch_camera_back(self.tick_w17(input))
    }

    pub open spec fn tick_w19(self, input: TickInput) -> WorldView {
        spec_reset_unit_target_if_it_has_camera(self.tick_w18(input))
    }

    pub open spec fn tick_w20(self, input: TickInput) -> WorldView {
        spec_kill_if_health_0(self.tick_w19(input))
    }

    pub open spec fn tick_w21(self, input: TickInput) -> WorldView {
        spec_remove_if_dead(self.tick_w20(input))
    }

    pub open spec fn tick_w22(self, input: TickInput) -> WorldView {
        spec_switch_after_current_unit_dies(self.tick_w21(input))
    }
}

/// The simulation state. All world mutation goes through the per-tick pass
/// methods (and `spawn_unit`), each of which states exactly what it does to
/// the view.
pub struct World {
    pub units: Vec<UnitBundle>,
    pub ability: CurrentAbility,
    pub camera: CameraFollow,
    pub camera_transform: Vec3Fx,
    pub selection_state: SelectionState,
    pub drag_rectangle: DragRectangle,
    pub target_indicator: TargetIndicator,
    pub buttons: AvailableButtons,
    pub next_id: u64,
}

impl View for World {
    type V = WorldView;

    open spec fn view(&self) -> WorldView {
        WorldView {
            units: self.units@,
            ability: self.ability,
            camera: self.camera,
            camera_transform: self.camera_transform,
            selection_state: self.selection_state,
            drag_rectangle: self.drag_rectangle,
            target_indicator: self.target_indicator,
            buttons: self.buttons@.buttons,
            buttons_dirty: self.buttons@.dirty,
            next_id: self.next_id,
        }
    }
}

/// `w` with its unit sequence replaced and everything else kept: the shape
/// every per-unit pass leaves the world in.
pub open spec fn with_units(w: WorldView, units: Seq<UnitBundle>) -> WorldView {
    WorldView { units, ..w }
}

/// One whole simulation tick as a function of the pre-tick view and the
/// tick's input: the composition, in order, of every per-tick pass (the
/// prefixes `tick_w1` .. `tick_w22` name the stages).
pub open spec fn spec_tick(w: WorldView, input: TickInput) -> WorldView {
    spec_update_camera_position(w.tick_w22(input))
}

/// The record a freshly spawned unit starts from: unselected, ring hidden,
/// no destination, alive and drawn.
pub open spec fn spec_new_unit(
    id: u64,
    pos: Vec3Fx,
    unit: Unit,
    health: Health,
    faction: Faction,
    abilities: UnitAbilities,
    can_have_camera: bool,
) -> UnitBundle {
    UnitBundle {
        id,
        pos,
        unit,
        health,
        target: TargetPosition { pos: None },
        selectable: Selectable { selected: false, previously_selected: false },
        circle: SelectionCircle {
            unit_highlighted: false,
            unit_hovered: false,
            unit_selected: false,
            draw_visible: false,
            color: crate::selection::CircleColor::Selected,
            pos: Vec3Fx { x: 0, y: 0, z: 0 },
        },
        faction,
        abilities,
        can_have_camera,
        dead: false,
        visible: true,
    }
}

impl World {
    /// An empty world: no units, `Select` mode, detached camera, no drag in
    /// progress, only the two global camera buttons.
    pub fn new() -> (r: World)
        ensures
            r@.units.len() == 0,
            r@.ability.ability == Ability::Select,
            r@.camera == (CameraFollow {
                entity: None,
                previous_entity: None,
                translation_offset: Vec3Fx { x: 0, y: 0, z: 0 },
            }),
            r@.selection_state == (SelectionState {
                initial_position: None,
                current_position: None,
                last_rectangle: None,
            }),
            !r@.drag_rectangle.visible,
            !r@.target_indicator.visible,
            r@.buttons == seq![
                ButtonId { action: crate::ui::ButtonAction::SwitchCamera, unit: None },
                ButtonId { action: crate::ui::ButtonAction::SwitchBack, unit: None },
            ],
            r@.next_id == 0,
            r@.wf(),
    {
        World {
            units: Vec::new(),
            ability: CurrentAbility { ability: Ability::Select },
            camera: CameraFollow {
                entity: None,
                previous_entity: None,
                translation_offset: Vec3Fx { x: 0, y: 0, z: 0 },
            },
            camera_transform: Vec3Fx { x: 0, y: 0, z: 0 },
            selection_state: SelectionState {
                initial_position: None,
                current_position: None,
                last_rectangle: None,
            },
            drag_rectangle: DragRectangle { visible: false, min_x: 0, min_z: 0, max_x: 0, max_z: 0 },
            target_indicator: TargetIndicator { pos: Vec3Fx { x: 0, y: 0, z: 0 }, visible: false },
            buttons: AvailableButtons::new(),
            next_id: 0,
        }
    }

    /// Create a unit at `pos` and hand back its id. The scene-population
    /// boundary calls this; the record starts unselected with no
    /// destination.
    pub fn spawn_unit(
        &mut self,
        pos: Vec3Fx,
        unit: Unit,
        health: Health,
        faction: Faction,
        abilities: UnitAbilities,
        can_have_camera: bool,
    ) -> (id: u64)
        requires
            old(self)@.units.len() < MAX_UNITS,
            old(self)@.next_id < u64::MAX,
        ensures
            id == old(self)@.next_id,
            final(self)@ == (WorldView {
                units: old(self)@.units.push(
                    spec_new_unit(id, pos, unit, health, faction, abilities, can_have_camera),
                ),
                next_id: (old(self)@.next_id + 1) as u64,
                ..old(self)@
            }),
            old(self)@.wf() && pos.in_bounds() && unit.wf() && health.wf() ==> final(self)@.wf(),
    {
        let id = self.next_id;
        let record = UnitBundle {
            id,
            pos,
            unit,
            health,
            target: TargetPosition::new(),
            selectable: Selectable { selected: false, previously_selected: false },
            circle: SelectionCircle {
                unit_highlighted: false,
                unit_hovered: false,
                unit_selected: false,
                draw_visible: false,
                color: crate::selection::CircleColor::Selected,
                pos: Vec3Fx { x: 0, y: 0, z: 0 },
            },
            faction,
            abilities,
            can_have_camera,
            dead: false,
            visible: true,
        };
        self.units.push(record);
        self.next_id = self.next_id + 1;
        proof {
            assert(final(self)@ =~= (WorldView {
                units: old(self)@.units.push(
                    spec_new_unit(id, pos, unit, health, faction, abilities, can_have_camera),
                ),
                next_id: (old(self)@.next_id + 1) as u64,
                ..old(self)@
            }));
        }
        id
    }

    /// Read access for the boundary and tests: the number of units.
    pub fn unit_count(&self) -> (r: usize)
        ensures
            r == self@.units.len(),
    {
        self.units.len()
    }

    /// The unit record at a position in the unit list.
    pub fn unit_at(&self, index: usize) -> (r: UnitBundle)
        requires
            index < self@.units.len(),
        ensures
            r == self@.units[index as int],
    {
        self.units[index]
    }

    /// One whole simulation tick, the passes in the dependency-respecting
    /// order: hover, selection (click, then the drag machinery), the
    /// one-shot abilities and button bookkeeping, targeting, steering,
    /// the indicator refreshes, camera switching, and finally the
    /// lifecycle passes with the camera death-fallback and transform sync
    /// after any despawn.
    pub fn tick(&mut self, input: &TickInput)
        requires
            old(self)@.wf(),
            input.ok(),
        ensures
            final(self)@ == spec_tick(old(self)@, *input),
            final(self)@.wf(),
    {
        self.set_unit_hovered_for_circles(input);
        proof {
            lemma_set_unit_hovered_wf(old(self)@, *input);
        }
        self.select_units(input);
        proof {
            lemma_select_units_wf(spec_set_unit_hovered(old(self)@, *input), *input);
        }
        self.start_drag_select(input);
        proof {
            lemma_start_drag_select_wf(
                spec_select_units(spec_set_unit_hovered(old(self)@, *input), *input),
                *input,
            );
        }
        self.drag_select(input);
        proof {
            lemma_drag_select_wf(old(self)@.tick_w3(*input), *input);
        }
        self.select_inside_rectangle();
        proof {
            lemma_select_inside_rectangle_wf(old(self)@.tick_w4(*input));
        }
        self.finish_drag_select(input);
        proof {
            lemma_finish_drag_select_wf(old(self)@.tick_w5(*input), *input);
        }
        self.heal_area_ability();
        proof {
            lemma_heal_area_ability_wf(old(self)@.tick_w6(*input));
        }
        self.heal_unit_ability(input);
        proof {
            lemma_heal_unit_ability_wf(old(self)@.tick_w7(*input), *input);
        }
        self.add_ability_buttons_for_selected_units();
        proof {
            lemma_add_ability_buttons_wf(old(self)@.tick_w8(*input));
        }
        self.set_target_for_selected(input);
        proof {
            lemma_set_target_for_selected_wf(old(self)@.tick_w9(*input), *input);
        }
        self.teleport_ability(input);
        proof {
            lemma_teleport_ability_wf(old(self)@.tick_w10(*input), *input);
        }
        self.unit_movement();
        proof {
            lemma_unit_movement_wf(old(self)@.tick_w11(*input));
        }
        self.show_target_indicator();
        proof {
            lemma_show_target_indicator_wf(old(self)@.tick_w12(*input));
        }
        self.set_unit_selected_for_circles();
        proof {
            lemma_set_unit_selected_for_circles_wf(old(self)@.tick_w13(*input));
        }
        self.move_circle_for_selected_units();
        proof {
            lemma_move_circle_wf(old(self)@.tick_w14(*input));
        }
        self.change_circle_color();
        proof {
            lemma_change_circle_color_wf(old(self)@.tick_w15(*input));
        }
        self.switch_camera_to_entity(input);
        proof {
            lemma_switch_camera_to_entity_wf(old(self)@.tick_w16(*input), *input);
        }
        self.switch_camera_back();
        proof {
            lemma_switch_camera_back_wf(old(self)@.tick_w17(*input));
        }
        self.reset_unit_target_if_it_has_camera();
        proof {
            lemma_reset_unit_target_wf(old(self)@.tick_w18(*input));
        }
        self.kill_if_health_0();
        proof {
            lemma_kill_if_health_0_wf(old(self)@.tick_w19(*input));
        }
        self.remove_if_dead();
        proof {
            lemma_remove_if_dead_wf(old(self)@.tick_w20(*input));
        }
        self.switch_after_current_unit_dies();
        proof {
            lemma_switch_after_current_unit_dies_wf(old(self)@.tick_w21(*input));
        }
        self.update_camera_position();
        proof {
            lemma_update_camera_position_wf(old(self)@.tick_w22(*input));
        }
    }

    /// Find the list position of the unit with the given id.
    pub fn find_unit(&self, id: u64) -> (r: Option<usize>)
        ensures
            match r {
                Some(i) => i < self@.units.len() && self@.units[i as int].id == id,
                None => !self@.has_unit(id),
            },
    {
        let n = self.units.len();
        let mut i: usize = 0;
        while i < n
            invariant
                n == self@.units.len(),
                forall|k: int| 0 <= k < i ==> (#[trigger] self@.units[k]).id != id,
            decreases n - i,
        {
            if self.units[i].id == id {
                return Some(i);
            }
            i = i + 1;
        }
        None
    }
}

/// A full tick keeps the world well formed: unit ids stay unique and below
/// the id counter, every record keeps its invariants, and the drag state
/// keeps in-range positions. This is the per-state invariant the system
/// maintains, stated once over the whole tick composition.
pub proof fn lemma_tick_preserves_wf(w: WorldView, input: TickInput)
    requires
        w.wf(),
        input.ok(),
    ensures
        spec_tick(w, input).wf(),
{
    lemma_set_unit_hovered_wf(w, input);
    lemma_select_units_wf(w.tick_w1(input), input);
    lemma_start_drag_select_wf(w.tick_w2(input), input);
    lemma_drag_select_wf(w.tick_w3(input), input);
    lemma_select_inside_rectangle_wf(w.tick_w4(input));
    lemma_finish_drag_select_wf(w.tick_w5(input), input);
    lemma_heal_area_ability_wf(w.tick_w6(input));
    lemma_heal_unit_ability_wf(w.tick_w7(input), input);
    lemma_add_ability_buttons_wf(w.tick_w8(input));
    lemma_set_target_for_selected_wf(w.tick_w9(input), input);
    lemma_teleport_ability_wf(w.tick_w10(input), input);
    lemma_unit_movement_wf(w.tick_w11(input));
    lemma_show_target_indicator_wf(w.tick_w12(input));
    lemma_set_unit_selected_for_circles_wf(w.tick_w13(input));
    lemma_move_circle_wf(w.tick_w14(input));
    lemma_change_circle_color_wf(w.tick_w15(input));
    lemma_switch_camera_to_entity_wf(w.tick_w16(input), input);
    lemma_switch_camera_back_wf(w.tick_w17(input));
    lemma_reset_unit_target_wf(w.tick_w18(input));
    lemma_kill_if_health_0_wf(w.tick_w19(input));
    lemma_remove_if_dead_wf(w.tick_w20(input));
    lemma_switch_after_current_unit_dies_wf(w.tick_w21(input));
    lemma_update_camera_position_wf(w.tick_w22(input));
}

/// Pointwise preservation: a pass that keeps the unit count, every id and
/// every record's well-formedness keeps the unit list well formed.
pub proof fn lemma_wf_units_pointwise(units: Seq<UnitBundle>, units2: Seq<UnitBundle>, next_id: u64)
    requires
        wf_units(units, next_id),
        units2.len() == units.len(),
        forall|i: int| 0 <= i < units.len() ==> (#[trigger] units2[i]).id == units[i].id,
        forall|i: int| 0 <= i < units.len() ==> (#[trigger] units2[i]).wf(),
    ensures
        wf_units(units2, next_id),
{
}

pub proof fn lemma_set_unit_hovered_wf(w: WorldView, input: TickInput)
    requires
        w.wf(),
    ensures
        spec_set_unit_hovered(w, input).wf(),
{
    let v = spec_set_unit_hovered(w, input);
    assert forall|i: int| 0 <= i < w.units.len() implies (#[trigger] v.units[i]).id
        == w.units[i].id && v.units[i].wf() by {
        assert(w.units[i].wf());
    }
    lemma_wf_units_pointwise(w.units, v.units, w.next_id);
}

pub proof fn lemma_select_units_wf(w: WorldView, input: TickInput)
    requires
        w.wf(),
    ensures
        spec_select_units(w, input).wf(),
{
    let v = spec_select_units(w, input);
    if v != w {
        assert forall|i: int| 0 <= i < w.units.len() implies (#[trigger] v.units[i]).id
            == w.units[i].id && v.units[i].wf() by {
            assert(w.units[i].wf());
        }
        lemma_wf_units_pointwise(w.units, v.units, w.next_id);
    }
}

pub proof fn lemma_start_drag_select_wf(w: WorldView, input: TickInput)
    requires
        w.wf(),
        input.ok(),
    ensures
        spec_start_drag_select(w, input).wf(),
{
}

pub proof fn lemma_drag_select_wf(w: WorldView, input: TickInput)
    requires
        w.wf(),
        input.ok(),
    ensures
        spec_drag_select(w, input).wf(),
{
}

pub proof fn lemma_select_inside_rectangle_wf(w: WorldView)
    requires
        w.wf(),
    ensures
        spec_select_inside_rectangle(w).wf(),
{
    let v = spec_select_inside_rectangle(w);
    if v != w {
        assert forall|i: int| 0 <= i < w.units.len() implies (#[trigger] v.units[i]).id
            == w.units[i].id && v.units[i].wf() by {
            assert(w.units[i].wf());
        }
        lemma_wf_units_pointwise(w.units, v.units, w.next_id);
    }
}

pub proof fn lemma_finish_drag_select_wf(w: WorldView, input: TickInput)
    requires
        w.wf(),
    ensures
        spec_finish_drag_select(w, input).wf(),
{
}

pub proof fn lemma_heal_area_ability_wf(w: WorldView)
    requires
        w.wf(),
    ensures
        spec_heal_area_ability(w).wf(),
{
    let v = spec_heal_area_ability(w);
    if v != w {
        assert forall|i: int| 0 <= i < w.units.len() implies (#[trigger] v.units[i]).id
            == w.units[i].id && v.units[i].wf() by {
            assert(w.units[i].wf());
        }
        lemma_wf_units_pointwise(w.units, v.units, w.next_id);
    }
}

pub proof fn lemma_heal_unit_ability_wf(w: WorldView, input: TickInput)
    requires
        w.wf(),
    ensures
        spec_heal_unit_ability(w, input).wf(),
{
    let v = spec_heal_unit_ability(w, input);
    if v != w {
        assert forall|i: int| 0 <= i < w.units.len() implies (#[trigger] v.units[i]).id
            == w.units[i].id && v.units[i].wf() by {
            assert(w.units[i].wf());
        }
        lemma_wf_units_pointwise(w.units, v.units, w.next_id);
    }
}

/// Registering a fresh id keeps the registry duplicate-free.
pub proof fn lemma_add_btn_distinct(buttons: Seq<ButtonId>, dirty: bool, id: ButtonId)
    requires
        spec_buttons_distinct(buttons),
    ensures
        spec_buttons_distinct(spec_add_btn(buttons, dirty, id).0),
{
    if !spec_has_button(buttons, id) {
        let v = buttons.push(id);
        assert forall|i: int, j: int| 0 <= i < j < v.len() implies v[i] != v[j] by {
            if j == v.len() - 1 {
                assert(v[i] == buttons[i]);
            }
        }
    }
}

/// Withdrawing an id keeps the registry duplicate-free.
pub proof fn lemma_remove_btn_distinct(buttons: Seq<ButtonId>, dirty: bool, id: ButtonId)
    requires
        spec_buttons_distinct(buttons),
    ensures
        spec_buttons_distinct(spec_remove_btn(buttons, dirty, id).0),
{
    lemma_remove_id_keeps(buttons, id);
}

/// One unit's button bookkeeping keeps the registry duplicate-free.
pub proof fn lemma_unit_buttons_step_distinct(buttons: Seq<ButtonId>, dirty: bool, u: UnitBundle)
    requires
        spec_buttons_distinct(buttons),
    ensures
        spec_buttons_distinct(spec_unit_buttons_step(buttons, dirty, u).0),
{
    if u.selectable.selected && !u.selectable.previously_selected {
        let b1 = if u.abilities.teleport {
            spec_add_btn(buttons, dirty, ButtonId { action: crate::ui::ButtonAction::Teleport, unit: Some(u.id) })
        } else {
            (buttons, dirty)
        };
        let b2 = if u.abilities.heal_unit {
            spec_add_btn(b1.0, b1.1, ButtonId { action: crate::ui::ButtonAction::HealUnit, unit: Some(u.id) })
        } else {
            b1
        };
        lemma_add_btn_distinct(buttons, dirty, ButtonId { action: crate::ui::ButtonAction::Teleport, unit: Some(u.id) });
        lemma_add_btn_distinct(b1.0, b1.1, ButtonId { action: crate::ui::ButtonAction::HealUnit, unit: Some(u.id) });
        lemma_add_btn_distinct(b2.0, b2.1, ButtonId { action: crate::ui::ButtonAction::HealArea, unit: Some(u.id) });
    } else if !u.selectable.selected {
        let b1 = if u.abilities.teleport {
            spec_remove_btn(buttons, dirty, ButtonId { action: crate::ui::ButtonAction::Teleport, unit: Some(u.id) })
        } else {
            (buttons, dirty)
        };
        let b2 = if u.abilities.heal_unit {
            spec_remove_btn(b1.0, b1.1, ButtonId { action: crate::ui::ButtonAction::HealUnit, unit: Some(u.id) })
        } else {
            b1
        };
        lemma_remove_btn_distinct(buttons, dirty, ButtonId { action: crate::ui::ButtonAction::Teleport, unit: Some(u.id) });
        lemma_remove_btn_distinct(b1.0, b1.1, ButtonId { action: crate::ui::ButtonAction::HealUnit, unit: Some(u.id) });
        lemma_remove_btn_distinct(b2.0, b2.1, ButtonId { action: crate::ui::ButtonAction::HealArea, unit: Some(u.id) });
    }
}

pub proof fn lemma_buttons_after_selection_distinct(
    units: Seq<UnitBundle>,
    k: int,
    buttons: Seq<ButtonId>,
    dirty: bool,
)
    requires
        spec_buttons_distinct(buttons),
    ensures
        spec_buttons_distinct(spec_buttons_after_selection(units, k, buttons, dirty).0),
    decreases k,
{
    if k > 0 {
        lemma_buttons_after_selection_distinct(units, k - 1, buttons, dirty);
        let prev = spec_buttons_after_selection(units, k - 1, buttons, dirty);
        lemma_unit_buttons_step_distinct(prev.0, prev.1, units[k - 1]);
    }
}

pub proof fn lemma_add_ability_buttons_wf(w: WorldView)
    requires
        w.wf(),
    ensures
        spec_add_ability_buttons(w).wf(),
{
    lemma_buttons_after_selection_distinct(w.units, w.units.len() as int, w.buttons, w.buttons_dirty);
}

pub proof fn lemma_set_target_for_selected_wf(w: WorldView, input: TickInput)
    requires
        w.wf(),
        input.ok(),
    ensures
        spec_set_target_for_selected(w, input).wf(),
{
    let v = spec_set_target_for_selected(w, input);
    if v != w {
        assert forall|i: int| 0 <= i < w.units.len() implies (#[trigger] v.units[i]).id
            == w.units[i].id && v.units[i].wf() by {
            assert(w.units[i].wf());
        }
        lemma_wf_units_pointwise(w.units, v.units, w.next_id);
    }
}

pub proof fn lemma_teleport_ability_wf(w: WorldView, input: TickInput)
    requires
        w.wf(),
        input.ok(),
    ensures
        spec_teleport_ability(w, input).wf(),
{
    let v = spec_teleport_ability(w, input);
    if v.units != w.units {
        assert forall|i: int| 0 <= i < w.units.len() implies (#[trigger] v.units[i]).id
            == w.units[i].id && v.units[i].wf() by {
            assert(w.units[i].wf());
        }
        lemma_wf_units_pointwise(w.units, v.units, w.next_id);
    }
}

pub proof fn lemma_unit_movement_wf(w: WorldView)
    requires
        w.wf(),
    ensures
        spec_unit_movement(w).wf(),
{
    let v = spec_unit_movement(w);
    assert forall|i: int| 0 <= i < w.units.len() implies (#[trigger] v.units[i]).id
        == w.units[i].id && v.units[i].wf() by {
        assert(w.units[i].wf());
    }
    lemma_wf_units_pointwise(w.units, v.units, w.next_id);
}

pub proof fn lemma_show_target_indicator_wf(w: WorldView)
    requires
        w.wf(),
    ensures
        spec_show_target_indicator(w).wf(),
{
}

pub proof fn lemma_set_unit_selected_for_circles_wf(w: WorldView)
    requires
        w.wf(),
    ensures
        spec_set_unit_selected_for_circles(w).wf(),
{
    let v = spec_set_unit_selected_for_circles(w);
    assert forall|i: int| 0 <= i < w.units.len() implies (#[trigger] v.units[i]).id
        == w.units[i].id && v.units[i].wf() by {
        assert(w.units[i].wf());
    }
    lemma_wf_units_pointwise(w.units, v.units, w.next_id);
}

pub proof fn lemma_move_circle_wf(w: WorldView)
    requires
        w.wf(),
    ensures
        spec_move_circle_for_selected_units(w).wf(),
{
    let v = spec_move_circle_for_selected_units(w);
    assert forall|i: int| 0 <= i < w.units.len() implies (#[trigger] v.units[i]).id
        == w.units[i].id && v.units[i].wf() by {
        assert(w.units[i].wf());
    }
    lemma_wf_units_pointwise(w.units, v.units, w.next_id);
}

pub proof fn lemma_change_circle_color_wf(w: WorldView)
    requires
        w.wf(),
    ensures
        spec_change_circle_color(w).wf(),
{
    let v = spec_change_circle_color(w);
    assert forall|i: int| 0 <= i < w.units.len() implies (#[trigger] v.units[i]).id
        == w.units[i].id && v.units[i].wf() by {
        assert(w.units[i].wf());
    }
    lemma_wf_units_pointwise(w.units, v.units, w.next_id);
}

pub proof fn lemma_switch_camera_to_entity_wf(w: WorldView, input: TickInput)
    requires
        w.wf(),
    ensures
        spec_switch_camera_to_entity(w, input).wf(),
{
}

pub proof fn lemma_switch_camera_back_wf(w: WorldView)
    requires
        w.wf(),
    ensures
        spec_switch_camera_back(w).wf(),
{
}

pub proof fn lemma_reset_unit_target_wf(w: WorldView)
    requires
        w.wf(),
    ensures
        spec_reset_unit_target_if_it_has_camera(w).wf(),
{
    let v = spec_reset_unit_target_if_it_has_camera(w);
    assert forall|i: int| 0 <= i < w.units.len() implies (#[trigger] v.units[i]).id
        == w.units[i].id && v.units[i].wf() by {
        assert(w.units[i].wf());
    }
    lemma_wf_units_pointwise(w.units, v.units, w.next_id);
}

pub proof fn lemma_kill_if_health_0_wf(w: WorldView)
    requires
        w.wf(),
    ensures
        spec_kill_if_health_0(w).wf(),
{
    let v = spec_kill_if_health_0(w);
    assert forall|i: int| 0 <= i < w.units.len() implies (#[trigger] v.units[i]).id
        == w.units[i].id && v.units[i].wf() by {
        assert(w.units[i].wf());
    }
    lemma_wf_units_pointwise(w.units, v.units, w.next_id);
}

/// The surviving units are an in-order selection of the original ones:
/// every survivor is one of the originals, so well-formedness, id bounds
/// and id uniqueness carry over.
pub proof fn lemma_keep_alive_wf(units: Seq<UnitBundle>, next_id: u64)
    requires
        wf_units(units, next_id),
    ensures
        wf_units(spec_keep_alive(units), next_id),
        spec_keep_alive(units).len() <= units.len(),
        forall|i: int|
            0 <= i < spec_keep_alive(units).len() ==> exists|j: int|
                0 <= j < units.len() && #[trigger] spec_keep_alive(units)[i] == units[j],
    decreases units.len(),
{
    if units.len() > 0 {
        let head = units.drop_last();
        assert(wf_units(head, next_id)) by {
            assert(forall|i: int| 0 <= i < head.len() ==> #[trigger] head[i] == units[i]);
        }
        lemma_keep_alive_wf(head, next_id);
        assert(forall|i: int| 0 <= i < head.len() ==> #[trigger] head[i] == units[i]);
        let keep = spec_keep_alive(units);
        let rest = spec_keep_alive(head);
        if !units.last().dead {
            assert(keep == rest.push(units.last()));
            assert forall|i: int| 0 <= i < keep.len() implies exists|j: int|
                0 <= j < units.len() && #[trigger] keep[i] == units[j] by {
                if i < rest.len() {
                    assert(keep[i] == rest[i]);
                    let j = choose|j: int| 0 <= j < head.len() && rest[i] == head[j];
                    assert(keep[i] == units[j]);
                } else {
                    assert(keep[i] == units[units.len() - 1]);
                }
            }
            assert forall|a: int, b: int| 0 <= a < b < keep.len() implies (
            #[trigger] keep[a]).id != (#[trigger] keep[b]).id by {
                if b == keep.len() - 1 {
                    assert(keep[a] == rest[a]);
                    let j = choose|j: int| 0 <= j < head.len() && rest[a] == head[j];
                    assert(keep[a] == units[j]);
                    assert(units[j].id != units[units.len() - 1].id);
                }
            }
            assert forall|i: int| 0 <= i < keep.len() implies (#[trigger] keep[i]).wf() && keep[i].id
                < next_id by {
                let j = choose|j: int| 0 <= j < units.len() && keep[i] == units[j];
                assert(units[j].wf());
            }
        }
    }
}

pub proof fn lemma_buttons_after_removals_distinct(
    units: Seq<UnitBundle>,
    k: int,
    buttons: Seq<ButtonId>,
    dirty: bool,
)
    requires
        spec_buttons_distinct(buttons),
    ensures
        spec_buttons_distinct(spec_buttons_after_removals(units, k, buttons, dirty).0),
    decreases k,
{
    if k > 0 {
        lemma_buttons_after_removals_distinct(units, k - 1, buttons, dirty);
        let prev = spec_buttons_after_removals(units, k - 1, buttons, dirty);
        if units[k - 1].dead {
            let u = units[k - 1];
            let b1 = if u.abilities.teleport {
                spec_remove_btn(prev.0, prev.1, ButtonId { action: crate::ui::ButtonAction::Teleport, unit: Some(u.id) })
            } else {
                prev
            };
            let b2 = if u.abilities.heal_unit {
                spec_remove_btn(b1.0, b1.1, ButtonId { action: crate::ui::ButtonAction::HealUnit, unit: Some(u.id) })
            } else {
                b1
            };
            lemma_remove_btn_distinct(prev.0, prev.1, ButtonId { action: crate::ui::ButtonAction::Teleport, unit: Some(u.id) });
            lemma_remove_btn_distinct(b1.0, b1.1, ButtonId { action: crate::ui::ButtonAction::HealUnit, unit: Some(u.id) });
            lemma_remove_btn_distinct(b2.0, b2.1, ButtonId { action: crate::ui::ButtonAction::HealArea, unit: Some(u.id) });
        }
    }
}

pub proof fn lemma_remove_if_dead_wf(w: WorldView)
    requires
        w.wf(),
    ensures
        spec_remove_if_dead(w).wf(),
{
    lemma_keep_alive_wf(w.units, w.next_id);
    lemma_buttons_after_removals_distinct(w.units, w.units.len() as int, w.buttons, w.buttons_dirty);
}

pub proof fn lemma_switch_after_current_unit_dies_wf(w: WorldView)
    requires
        w.wf(),
    ensures
        spec_switch_after_current_unit_dies(w).wf(),
{
}

pub proof fn lemma_update_camera_position_wf(w: WorldView)
    requires
        w.wf(),
    ensures
        spec_update_camera_position(w).wf(),
{
}

} // verus!

use rts_core::ability::Ability;
use rts_core::faction::Faction;
use rts_core::geometry::Vec3Fx;
use rts_core::health::Health;
use rts_core::selection::CircleColor;
use rts_core::unit::{Unit, UnitAbilities};
use rts_core::world::{Pick, TickInput, World};
use rts_core::{CIRCLE_HEIGHT, INDICATOR_HEIGHT};

fn idle() -> TickInput {
    TickInput::none()
}

fn left_click(pick: Option<Pick>) -> TickInput {
    TickInput { left_pressed: true, left_released: false, right_pressed: false, modifier_held: false, pick }
}

fn left_click_with_modifier(pick: Option<Pick>) -> TickInput {
    TickInput { left_pressed: true, left_released: false, right_pressed: false, modifier_held: true, pick }
}

fn left_release(pick: Option<Pick>) -> TickInput {
    TickInput { left_pressed: false, left_released: true, right_pressed: false, modifier_held: false, pick }
}

fn hold(pick: Option<Pick>) -> TickInput {
    TickInput { left_pressed: false, left_released: false, right_pressed: false, modifier_held: false, pick }
}

fn right_click(pick: Option<Pick>) -> TickInput {
    TickInput { left_pressed: false, left_released: false, right_pressed: true, modifier_held: false, pick }
}

fn spawn(w: &mut World, x: i64, z: i64, social: i64) -> u64 {
    w.spawn_unit(
        Vec3Fx::new(x, 1000, z),
        Unit { speed: 100, social_distance: social },
        Health::new(3),
        Faction::default(),
        UnitAbilities::default(),
        true,
    )
}

fn unit_index(w: &World, id: u64) -> usize {
    w.find_unit(id).expect("unit should exist")
}

fn ground_pick(x: i64, y: i64, z: i64) -> Option<Pick> {
    Some(Pick { position: Vec3Fx::new(x, y, z), unit: None })
}

fn unit_pick(w: &World, id: u64) -> Option<Pick> {
    let i = unit_index(w, id);
    Some(Pick { position: w.unit_at(i).pos, unit: Some(id) })
}

// A configuration with every pair at or beyond its minimum separation is a
// fixed point of the separation pass: nothing moves.
#[test]
fn separated_units_do_not_move() {
    let mut w = World::new();
    let a = spawn(&mut w, 0, 0, 1000);
    let b = spawn(&mut w, 2000, 0, 1000);
    for _ in 0..5 {
        w.tick(&idle());
    }
    assert_eq!(w.unit_at(unit_index(&w, a)).pos, Vec3Fx::new(0, 1000, 0));
    assert_eq!(w.unit_at(unit_index(&w, b)).pos, Vec3Fx::new(2000, 1000, 0));
}

// A unit with no destination stays destination-free: the arrival check on
// an Idle unit is a no-op.
#[test]
fn idle_unit_stays_idle() {
    let mut w = World::new();
    let u = spawn(&mut w, 0, 0, 1000);
    for _ in 0..10 {
        w.tick(&idle());
        assert!(w.unit_at(unit_index(&w, u)).target.pos.is_none());
    }
}

// A diagonal overlapping pair is pushed apart on both ground axes, each
// component pointing away from the other unit.
#[test]
fn separation_is_diagonal_for_diagonal_overlap() {
    let mut w = World::new();
    let a = spawn(&mut w, 0, 0, 1000);
    let b = spawn(&mut w, 600, 800, 1000);
    // distance 1000 < 2000, direction (3,4)/5
    w.tick(&idle());
    let pa = w.unit_at(unit_index(&w, a)).pos;
    let pb = w.unit_at(unit_index(&w, b)).pos;
    // push magnitude 500 along (-3,-4)/5 and (3,4)/5: components 300, 400
    assert_eq!((pa.x, pa.z), (-300, -400));
    assert_eq!((pb.x, pb.z), (900, 1200));
}

// Crowding inflates the arrival radius: with one neighbour nearby the
// threshold grows from 300 to 1300, so a destination 1.2 units away is
// treated as already reached.
#[test]
fn crowded_unit_arrives_early() {
    let mut w = World::new();
    let a = spawn(&mut w, 0, 0, 1000);
    let _b = spawn(&mut w, 1900, 0, 1000);
    let ia = unit_index(&w, a);
    w.units[ia].target.update_to_vec(&Vec3Fx::new(0, 0, 1200));
    w.tick(&idle());
    assert!(w.unit_at(unit_index(&w, a)).target.pos.is_none());
}

// Click selection: without the modifier the click replaces the selection,
// with it the click only adds.
#[test]
fn click_select_replaces_and_modifier_adds() {
    let mut w = World::new();
    let a = spawn(&mut w, 0, 0, 1000);
    let b = spawn(&mut w, 10000, 0, 1000);
    w.tick(&left_click(unit_pick(&w, a)));
    w.tick(&left_release(None));
    assert!(w.unit_at(unit_index(&w, a)).selectable.selected);
    assert!(!w.unit_at(unit_index(&w, b)).selectable.selected);
    w.tick(&left_click_with_modifier(unit_pick(&w, b)));
    w.tick(&left_release(None));
    assert!(w.unit_at(unit_index(&w, a)).selectable.selected);
    assert!(w.unit_at(unit_index(&w, b)).selectable.selected);
    w.tick(&left_click(unit_pick(&w, a)));
    assert!(w.unit_at(unit_index(&w, a)).selectable.selected);
    assert!(!w.unit_at(unit_index(&w, b)).selectable.selected);
    // a click on empty ground clears the whole selection
    w.tick(&left_release(None));
    w.tick(&left_click(ground_pick(50000, 0, 50000)));
    assert!(!w.unit_at(unit_index(&w, a)).selectable.selected);
}

// The destination marker shows the selected unit's destination at marker
// height, and hides once no selected unit has one.
#[test]
fn target_indicator_follows_selected_destination() {
    let mut w = World::new();
    let u = spawn(&mut w, 0, 0, 1000);
    w.tick(&left_click(unit_pick(&w, u)));
    w.tick(&left_release(None));
    w.tick(&right_click(ground_pick(400000, 0, 300000)));
    assert!(w.target_indicator.visible);
    assert_eq!(w.target_indicator.pos.x, 400000);
    assert_eq!(w.target_indicator.pos.y, INDICATOR_HEIGHT);
    assert_eq!(w.target_indicator.pos.z, 300000);
    // deselect: the marker hides even though the destination lives on
    w.tick(&left_click(ground_pick(0, 0, 0)));
    assert!(!w.unit_at(unit_index(&w, u)).selectable.selected);
    assert!(!w.target_indicator.visible);
}

// The selection ring mirrors hover and selection, keeps the colour
// priority (hover over external highlight over selection), and trails the
// unit.
#[test]
fn circle_flags_colour_and_position() {
    let mut w = World::new();
    let u = spawn(&mut w, 3000, 4000, 1000);
    w.tick(&hold(unit_pick(&w, u)));
    let c = w.unit_at(unit_index(&w, u)).circle;
    assert!(c.unit_hovered && !c.unit_selected);
    assert!(c.draw_visible);
    assert!(c.color == CircleColor::Hovered);
    assert_eq!((c.pos.x, c.pos.y, c.pos.z), (3000, CIRCLE_HEIGHT, 4000));
    w.tick(&left_click(unit_pick(&w, u)));
    w.tick(&left_release(None));
    w.tick(&idle());
    let c = w.unit_at(unit_index(&w, u)).circle;
    assert!(c.unit_selected && !c.unit_hovered);
    assert!(c.draw_visible);
    assert!(c.color == CircleColor::Selected);
    w.set_unit_highlighted(u, true);
    w.tick(&idle());
    let c = w.unit_at(unit_index(&w, u)).circle;
    assert!(c.color == CircleColor::Highlighted);
    // hover wins over the external highlight when both flags are set
    w.tick(&hold(unit_pick(&w, u)));
    let c = w.unit_at(unit_index(&w, u)).circle;
    assert!(c.unit_hovered && c.unit_highlighted);
    assert!(c.color == CircleColor::Hovered);
}

// The followed unit loses destination and selection and is hidden; every
// other unit stays drawn; the camera transform tracks position plus offset.
#[test]
fn follow_locks_out_targeting_and_syncs_transform() {
    let mut w = World::new();
    let a = spawn(&mut w, 1000, 0, 1000);
    let b = spawn(&mut w, 10000, 0, 10000);
    w.camera.translation_offset = Vec3Fx::new(0, 5000, -3000);
    let ia = unit_index(&w, a);
    w.units[ia].target.update_to_vec(&Vec3Fx::new(9000, 0, 9000));
    w.units[ia].selectable.set_selected(true);
    w.ability.set(Ability::SwitchCamera);
    w.tick(&left_click(unit_pick(&w, a)));
    let ua = w.unit_at(unit_index(&w, a));
    assert!(ua.target.pos.is_none());
    assert!(!ua.selectable.selected);
    assert!(!ua.visible);
    assert!(w.unit_at(unit_index(&w, b)).visible);
    // the transform trails the followed unit's position plus the offset
    assert_eq!(
        w.camera_transform,
        Vec3Fx::new(ua.pos.x, ua.pos.y + 5000, ua.pos.z - 3000)
    );
    // switch back restores the earlier target after following b
    w.ability.set(Ability::SwitchCamera);
    w.tick(&left_click(unit_pick(&w, b)));
    assert_eq!(w.camera.entity, Some(b));
    assert_eq!(w.camera.previous_entity, Some(a));
    w.ability.set(Ability::SwitchBack);
    w.tick(&idle());
    assert_eq!(w.camera.entity, Some(a));
    assert_eq!(w.camera.previous_entity, Some(b));
    assert!(w.ability.ability == Ability::Select);
}

// Heal-unit mode: a left-click on a unit heals it by 20 (capped at the
// maximum) and resets the mode; a click with no pick keeps the mode.
#[test]
fn heal_unit_one_shot() {
    let mut w = World::new();
    let u = w.spawn_unit(
        Vec3Fx::new(0, 1000, 0),
        Unit { speed: 100, social_distance: 1000 },
        Health::new(50),
        Faction::default(),
        UnitAbilities::default(),
        true,
    );
    let i = unit_index(&w, u);
    w.units[i].health.damage(30);
    w.ability.set(Ability::HealUnit);
    w.tick(&left_click(None));
    assert!(w.ability.ability == Ability::HealUnit);
    w.tick(&left_click(unit_pick(&w, u)));
    assert_eq!(w.unit_at(unit_index(&w, u)).health.value, 40);
    assert!(w.ability.ability == Ability::Select);
    // healing past the maximum caps there
    w.ability.set(Ability::HealUnit);
    w.tick(&left_click(unit_pick(&w, u)));
    assert_eq!(w.unit_at(unit_index(&w, u)).health.value, 50);
}

// Heal-area mode: finishing a drag stores the rectangle, which is consumed
// in the same tick, healing exactly the units inside by 3.
#[test]
fn heal_area_consumes_rectangle() {
    let mut w = World::new();
    let inside = spawn(&mut w, 5000, 5000, 1000);
    let outside = spawn(&mut w, 20000, 20000, 1000);
    let ii = unit_index(&w, inside);
    w.units[ii].health.damage(2);
    let io = unit_index(&w, outside);
    w.units[io].health.damage(2);
    w.ability.set(Ability::HealArea);
    w.tick(&left_click(ground_pick(0, 0, 0)));
    w.tick(&hold(ground_pick(10000, 0, 10000)));
    w.tick(&left_release(ground_pick(10000, 0, 10000)));
    assert_eq!(w.unit_at(unit_index(&w, inside)).health.value, 3);
    assert_eq!(w.unit_at(unit_index(&w, outside)).health.value, 1);
    assert!(w.ability.ability == Ability::Select);
    assert!(w.selection_state.last_rectangle.is_none());
}

// A unit whose health reaches zero is despawned in the same tick,
// selection ring and all.
#[test]
fn dead_unit_is_removed() {
    let mut w = World::new();
    let a = spawn(&mut w, 0, 0, 1000);
    let b = spawn(&mut w, 10000, 0, 1000);
    let ia = unit_index(&w, a);
    w.units[ia].health.damage(3);
    w.tick(&idle());
    assert!(w.find_unit(a).is_none());
    assert!(w.find_unit(b).is_some());
    assert_eq!(w.unit_count(), 1);
}

use rts_core::ability::Ability;
use rts_core::faction::Faction;
use rts_core::geometry::Vec3Fx;
use rts_core::health::Health;
use rts_core::unit::{Unit, UnitAbilities};
use rts_core::world::{Pick, TickInput, World};

fn idle() -> TickInput {
    TickInput::none()
}

fn left_click(pick: Option<Pick>) -> TickInput {
    TickInput { left_pressed: true, left_released: false, right_pressed: false, modifier_held: false, pick }
}

fn left_release(pick: Option<Pick>) -> TickInput {
    TickInput { left_pressed: false, left_released: true, right_pressed: false, modifier_held: false, pick }
}

fn hold(pick: Option<Pick>) -> TickInput {
    TickInput { left_pressed: false, left_released: false, right_pressed: false, modifier_held: false, pick }
}

fn right_click(pick: Option<Pick>) -> TickInput {
    TickInput { left_pressed: false, left_released: false, right_pressed: true, modifier_held: false, pick }
}

fn spawn(w: &mut World, x: i64, z: i64, social: i64) -> u64 {
    w.spawn_unit(
        Vec3Fx::new(x, 1000, z),
        Unit { speed: 100, social_distance: social },
        Health::new(3),
        Faction::default(),
        UnitAbilities::default(),
        true,
    )
}

fn unit_index(w: &World, id: u64) -> usize {
    w.find_unit(id).expect("unit should exist")
}

fn ground_pick(x: i64, y: i64, z: i64) -> Option<Pick> {
    Some(Pick { position: Vec3Fx::new(x, y, z), unit: None })
}

fn unit_pick(w: &World, id: u64) -> Option<Pick> {
    let i = unit_index(w, id);
    Some(Pick { position: w.unit_at(i).pos, unit: Some(id) })
}

// Two units one world unit apart, each with social distance 1.0: the pair
// distance 1.0 is under the minimum 2.0, so one integration step pushes
// them apart along the x axis with opposite signs.
#[test]
fn scenario_a_pair_pushes_apart() {
    let mut w = World::new();
    let a = spawn(&mut w, 0, 0, 1000);
    let b = spawn(&mut w, 1000, 0, 1000);
    w.tick(&idle());
    let pa = w.unit_at(unit_index(&w, a)).pos;
    let pb = w.unit_at(unit_index(&w, b)).pos;
    // push magnitude: 1000 * (2000 - 1000) / 2000 = 500 steps, away from
    // the other unit
    assert_eq!(pa.x, -500);
    assert_eq!(pb.x, 1500);
    assert_eq!((pa.z, pb.z), (0, 0));
    assert!(pa.x < 0 && pb.x > 1000);
}

// A selected unit given a right-click destination steers there and drops
// the destination exactly once, on arrival.
#[test]
fn scenario_b_destination_reached_and_cleared_once() {
    let mut w = World::new();
    let u = spawn(&mut w, 0, 0, 1000);
    w.tick(&left_click(unit_pick(&w, u)));
    w.tick(&left_release(None));
    assert!(w.unit_at(unit_index(&w, u)).selectable.selected);
    w.tick(&right_click(ground_pick(5000, 0, 3000)));
    assert_eq!(
        w.unit_at(unit_index(&w, u)).target.pos,
        Some(Vec3Fx::new(5000, 0, 3000))
    );
    let mut clears = 0;
    let mut had_target = true;
    for _ in 0..200 {
        w.tick(&idle());
        let now = w.unit_at(unit_index(&w, u)).target.pos.is_some();
        if had_target && !now {
            clears += 1;
        }
        had_target = now;
    }
    assert_eq!(clears, 1);
    assert!(w.unit_at(unit_index(&w, u)).target.pos.is_none());
    // arrived: floored ground distance to the destination is at most the
    // base arrival radius 300
    let p = w.unit_at(unit_index(&w, u)).pos;
    let dx = p.x - 5000;
    let dz = p.z - 3000;
    assert!(dx * dx + dz * dz < 301 * 301);
}

// A drag from (0,0,0) to (10,0,10) in Select mode selects exactly the
// units whose ground coordinates lie strictly inside (0,10) x (0,10).
#[test]
fn scenario_c_drag_rectangle_selects_inside_only() {
    let mut w = World::new();
    let inside = spawn(&mut w, 5000, 5000, 1000);
    let outside = spawn(&mut w, 20000, 20000, 1000);
    let boundary = spawn(&mut w, 0, 5000, 1000);
    w.tick(&left_click(ground_pick(0, 0, 0)));
    w.tick(&hold(ground_pick(10000, 0, 10000)));
    assert!(w.unit_at(unit_index(&w, inside)).selectable.selected);
    assert!(!w.unit_at(unit_index(&w, outside)).selectable.selected);
    assert!(!w.unit_at(unit_index(&w, boundary)).selectable.selected);
    assert!(w.drag_rectangle.visible);
    assert_eq!(
        (w.drag_rectangle.min_x, w.drag_rectangle.min_z, w.drag_rectangle.max_x, w.drag_rectangle.max_z),
        (0, 0, 10000, 10000)
    );
    w.tick(&left_release(ground_pick(10000, 0, 10000)));
    assert!(w.selection_state.initial_position.is_none());
    assert!(w.selection_state.current_position.is_none());
    assert!(w.unit_at(unit_index(&w, inside)).selectable.selected);
}

// A near-zero drag is a click, not a drag: the rectangle never shows.
#[test]
fn scenario_c_near_zero_drag_shows_no_rectangle() {
    let mut w = World::new();
    spawn(&mut w, 5000, 5000, 1000);
    w.tick(&left_click(ground_pick(0, 0, 0)));
    w.tick(&hold(ground_pick(50, 0, 50)));
    assert!(!w.drag_rectangle.visible);
    assert!(w.selection_state.current_position.is_none());
}

// The camera follows a unit; when it dies the camera adopts the previous
// unit if alive, else any remaining followable unit, and never dangles.
#[test]
fn scenario_d_camera_death_fallback() {
    let mut w = World::new();
    let u0 = spawn(&mut w, 0, 0, 1000);
    let u1 = spawn(&mut w, 10000, 0, 1000);
    let u2 = spawn(&mut w, 20000, 0, 1000);
    w.ability.set(Ability::SwitchCamera);
    w.tick(&left_click(unit_pick(&w, u0)));
    assert_eq!(w.camera.entity, Some(u0));
    assert!(w.ability.ability == Ability::Select);
    w.ability.set(Ability::SwitchCamera);
    w.tick(&left_click(unit_pick(&w, u1)));
    assert_eq!(w.camera.entity, Some(u1));
    assert_eq!(w.camera.previous_entity, Some(u0));
    // the followed unit dies: fall back to the remembered previous unit
    let i1 = unit_index(&w, u1);
    w.units[i1].health.damage(3);
    w.tick(&idle());
    assert!(w.find_unit(u1).is_none());
    assert_eq!(w.camera.entity, Some(u0));
    // it dies too, and the remembered unit is already gone: adopt some
    // remaining followable unit
    let i0 = unit_index(&w, u0);
    w.units[i0].health.damage(3);
    w.tick(&idle());
    assert!(w.find_unit(u0).is_none());
    assert_eq!(w.camera.entity, Some(u2));
    // no unit remains at all: the camera detaches rather than dangle
    let i2 = unit_index(&w, u2);
    w.units[i2].health.damage(3);
    w.tick(&idle());
    assert_eq!(w.unit_count(), 0);
    assert_eq!(w.camera.entity, None);
}

// In Teleport mode a left-click does nothing; a right-click with a valid
// pick moves the carried unit to the pick point at ground height and the
// mode falls back to Select.
#[test]
fn scenario_e_teleport_one_shot() {
    let mut w = World::new();
    let u = spawn(&mut w, 0, 0, 1000);
    w.ability.set(Ability::Teleport(u));
    w.tick(&left_click(ground_pick(9000, 0, 9000)));
    assert!(w.ability.ability == Ability::Teleport(u));
    assert_eq!(w.unit_at(unit_index(&w, u)).pos, Vec3Fx::new(0, 1000, 0));
    assert!(!w.unit_at(unit_index(&w, u)).selectable.selected);
    w.tick(&right_click(ground_pick(2000, 0, 3000)));
    assert_eq!(w.unit_at(unit_index(&w, u)).pos, Vec3Fx::new(2000, 1000, 3000));
    assert!(w.ability.ability == Ability::Select);
    // a right-click without a pick still resets the mode, moving nothing
    w.ability.set(Ability::Teleport(u));
    w.tick(&right_click(None));
    assert_eq!(w.unit_at(unit_index(&w, u)).pos, Vec3Fx::new(2000, 1000, 3000));
    assert!(w.ability.ability == Ability::Select);
}

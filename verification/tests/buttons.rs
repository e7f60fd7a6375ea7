use rts_core::ability::Ability;
use rts_core::faction::Faction;
use rts_core::geometry::Vec3Fx;
use rts_core::health::Health;
use rts_core::ui::{AvailableButtons, ButtonAction, ButtonId};
use rts_core::unit::{Unit, UnitAbilities};
use rts_core::world::{Pick, TickInput, World};

fn idle() -> TickInput {
    TickInput::none()
}

fn left_click(pick: Option<Pick>) -> TickInput {
    TickInput { left_pressed: true, left_released: false, right_pressed: false, modifier_held: false, pick }
}

fn left_release() -> TickInput {
    TickInput { left_pressed: false, left_released: true, right_pressed: false, modifier_held: false, pick: None }
}

fn teleport_id(unit: u64) -> ButtonId {
    ButtonId { action: ButtonAction::Teleport, unit: Some(unit) }
}

fn spawn_teleporter(w: &mut World, x: i64, z: i64) -> u64 {
    w.spawn_unit(
        Vec3Fx::new(x, 1000, z),
        Unit { speed: 100, social_distance: 1000 },
        Health::new(3),
        Faction::default(),
        UnitAbilities { teleport: true, heal_unit: false, heal_area: false },
        true,
    )
}

#[test]
fn registry_starts_with_the_camera_buttons() {
    let b = AvailableButtons::new();
    assert_eq!(b.len(), 2);
    assert!(b.get(0) == ButtonId { action: ButtonAction::SwitchCamera, unit: None });
    assert!(b.get(1) == ButtonId { action: ButtonAction::SwitchBack, unit: None });
    assert!(b.is_dirty());
}

#[test]
fn add_button_refuses_duplicates() {
    let mut b = AvailableButtons::new();
    b.clear_dirty();
    assert!(b.add_button(teleport_id(4)).is_ok());
    assert!(b.is_dirty());
    assert_eq!(b.add_button(teleport_id(4)), Err("Already used ID"));
    assert_eq!(b.len(), 3);
}

#[test]
fn remove_button_marks_dirty_only_on_removal() {
    let mut b = AvailableButtons::new();
    b.clear_dirty();
    b.remove_button(teleport_id(9));
    assert!(!b.is_dirty());
    assert_eq!(b.len(), 2);
    b.remove_button(ButtonId { action: ButtonAction::SwitchBack, unit: None });
    assert!(b.is_dirty());
    assert_eq!(b.len(), 1);
    assert!(b.get(0) == ButtonId { action: ButtonAction::SwitchCamera, unit: None });
}

// Selecting a unit offers its ability buttons; deselecting withdraws them.
#[test]
fn selection_registers_and_withdraws_unit_buttons() {
    let mut w = World::new();
    let u = spawn_teleporter(&mut w, 0, 0);
    let pick = Some(Pick { position: Vec3Fx::new(0, 1000, 0), unit: Some(u) });
    w.tick(&left_click(pick));
    assert!(w.buttons.has_button(&teleport_id(u)));
    w.tick(&left_release());
    // click on empty ground: the unit is deselected and its button withdrawn
    w.tick(&left_click(Some(Pick { position: Vec3Fx::new(50000, 0, 50000), unit: None })));
    assert!(!w.buttons.has_button(&teleport_id(u)));
    assert_eq!(w.buttons.len(), 2);
}

// Clicking a unit's teleport button arms Teleport for that unit.
#[test]
fn pressing_buttons_sets_the_mode() {
    let mut w = World::new();
    let u = spawn_teleporter(&mut w, 0, 0);
    let pick = Some(Pick { position: Vec3Fx::new(0, 1000, 0), unit: Some(u) });
    w.tick(&left_click(pick));
    w.tick(&left_release());
    w.press_button(teleport_id(u));
    assert!(w.ability.ability == Ability::Teleport(u));
    // a button that is not offered changes nothing
    w.ability.set(Ability::Select);
    w.press_button(ButtonId { action: ButtonAction::HealArea, unit: Some(u) });
    assert!(w.ability.ability == Ability::Select);
    // the global camera buttons are always offered
    w.press_button(ButtonId { action: ButtonAction::SwitchCamera, unit: None });
    assert!(w.ability.ability == Ability::SwitchCamera);
    w.press_button(ButtonId { action: ButtonAction::SwitchBack, unit: None });
    assert!(w.ability.ability == Ability::SwitchBack);
}

// A dead unit's buttons are unwound together with its record.
#[test]
fn death_withdraws_unit_buttons() {
    let mut w = World::new();
    let u = spawn_teleporter(&mut w, 0, 0);
    let pick = Some(Pick { position: Vec3Fx::new(0, 1000, 0), unit: Some(u) });
    w.tick(&left_click(pick));
    w.tick(&left_release());
    assert!(w.buttons.has_button(&teleport_id(u)));
    let i = w.find_unit(u).unwrap();
    w.units[i].health.damage(3);
    w.tick(&idle());
    assert!(w.find_unit(u).is_none());
    assert!(!w.buttons.has_button(&teleport_id(u)));
}

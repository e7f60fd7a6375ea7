use rts_core::ability::{Ability, CurrentAbility};
use rts_core::faction::{Faction, Factions};
use rts_core::geometry::Vec3Fx;
use rts_core::health::Health;
use rts_core::selection::{Selectable, SelectionCircle};
use rts_core::unit::{TargetPosition, Unit};

#[test]
fn health_damage_and_difference() {
    let mut h = Health::new(10);
    h.damage(4);
    assert_eq!(h.value, 6);
    assert_eq!(h.difference(), -4);
    h.heal(2);
    assert_eq!(h.value, 8);
    assert_eq!(h.difference(), 2);
}

#[test]
fn health_heal_is_capped_by_maximum() {
    let mut h = Health::new(10);
    h.damage(3);
    h.heal(100);
    assert_eq!(h.value, 10);
    // damage by a negative amount is capped the same way
    let mut g = Health::new(5);
    g.damage(-20);
    assert_eq!(g.value, 5);
}

#[test]
fn health_value_can_fall_below_zero() {
    let mut h = Health::new(3);
    h.damage(5);
    assert_eq!(h.value, -2);
    assert_eq!(h.max_health, 3);
}

#[test]
fn health_default_is_three() {
    let h = Health::default();
    assert_eq!((h.value, h.max_health, h.previous_value), (3, 3, 3));
}

#[test]
fn faction_new_keeps_tag() {
    let f = Faction::new(Factions::Aliens);
    assert!(f.faction == Factions::Aliens);
    assert!(Faction::default().faction == Factions::Player);
}

#[test]
fn unit_default_speed_and_social_distance() {
    let u = Unit::default();
    assert_eq!(u.speed, 100);
    assert_eq!(u.social_distance, 1500);
}

#[test]
fn target_position_update_replaces_point() {
    let mut t = TargetPosition::new();
    assert!(t.pos.is_none());
    t.update_to_vec(&Vec3Fx::new(1, 2, 3));
    assert_eq!(t.pos, Some(Vec3Fx::new(1, 2, 3)));
    t.update_to_vec(&Vec3Fx::new(4, 5, 6));
    assert_eq!(t.pos, Some(Vec3Fx::new(4, 5, 6)));
}

#[test]
fn set_selected_remembers_previous_flag() {
    let mut s = Selectable::default();
    s.set_selected(true);
    assert!(s.selected && !s.previously_selected);
    s.set_selected(true);
    assert!(s.selected && s.previously_selected);
    s.set_selected(false);
    assert!(!s.selected && s.previously_selected);
}

#[test]
fn circle_visible_is_or_of_flags() {
    let mut c = SelectionCircle::default();
    assert!(!c.visible());
    c.unit_hovered = true;
    assert!(c.visible());
    c.unit_hovered = false;
    c.unit_highlighted = true;
    assert!(c.visible());
    c.unit_highlighted = false;
    c.unit_selected = true;
    assert!(c.visible());
}

#[test]
fn ability_defaults_and_labels() {
    assert!(CurrentAbility::default().ability == Ability::Select);
    assert_eq!(Ability::Select.label(), "Select");
    assert_eq!(Ability::SwitchCamera.label(), "Switch Camera");
    assert_eq!(Ability::SwitchBack.label(), "Switch Back");
    assert_eq!(Ability::Teleport(7).label(), "Teleport");
    assert_eq!(Ability::HealUnit.label(), "Heal unit");
    assert_eq!(Ability::HealArea.label(), "Heal area");
}

//! Core simulation logic for a small real-time-strategy prototype: unit
//! selection (click and drag rectangle), destination assignment and steering
//! with local separation, a global ability-mode state machine, and a
//! camera-follow mechanism with death fallback.
//!
//! All world geometry uses fixed-point coordinates: one world unit is
//! `SCALE` (1000) coordinate steps, so `1500` stands for a distance of `1.5`.
//! Rendering, input polling and scene population live outside this crate;
//! each simulation tick consumes a plain [`world::TickInput`] describing the
//! frame's mouse/keyboard edges and the current cursor pick.

use vstd::prelude::*;

pub mod ability;
pub mod camera;
pub mod drag_selection;
pub mod faction;
pub mod geometry;
pub mod health;
pub mod movement;
pub mod selection;
pub mod target_indicator;
pub mod ui;
pub mod unit;
pub mod world;

verus! {

/// Coordinate steps per world unit of the fixed-point grid.
pub const SCALE: i64 = 1000;

/// Largest magnitude a world coordinate may take, in coordinate steps.
pub const COORD_LIMIT: i64 = 1_000_000_000;

/// Largest movement speed a unit may have, in coordinate steps per tick.
pub const SPEED_LIMIT: i64 = 1_000_000;

/// Largest social-distance radius a unit may have, in coordinate steps.
pub const SOCIAL_LIMIT: i64 = 1_000_000;

/// Most units a world may hold at once.
pub const MAX_UNITS: usize = 4096;

/// Base arrival radius: a unit with no crowding neighbours drops its
/// destination once its ground-plane distance to it is at most this.
pub const ARRIVAL_BASE: i64 = 300;

/// How much the arrival radius grows per nearby unit, so crowded units do
/// not thrash trying to reach an exact point.
pub const NEIGHBOR_SLACK: i64 = 1000;

/// A drag whose endpoints are closer than this is treated as a click and
/// draws no rectangle.
pub const DRAG_EPSILON: i64 = 100;

/// Height a teleported unit is placed at.
pub const GROUND_HEIGHT: i64 = 1000;

/// Units at or below this height count as standing on the floor, where
/// downward velocity is clamped to zero.
pub const FLOOR_LIMIT: i64 = 1010;

/// Height at which a unit's selection ring is drawn.
pub const CIRCLE_HEIGHT: i64 = 100;

/// Height at which the destination marker is drawn.
pub const INDICATOR_HEIGHT: i64 = 300;

/// Health restored to every unit inside a finished area-heal rectangle.
pub const HEAL_AREA_AMOUNT: i16 = 3;

/// Health restored to the unit clicked in heal-unit mode.
pub const HEAL_UNIT_AMOUNT: i16 = 20;

} // verus!


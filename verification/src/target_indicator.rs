//! The shared marker that shows where the selected units are headed:
//! visible only while at least one selected unit has a live destination.

use vstd::prelude::*;

verus! {

use crate::INDICATOR_HEIGHT;
use crate::geometry::Vec3Fx;
use crate::unit::UnitBundle;
use crate::world::{World, WorldView};

/// Drawn state of the destination marker.
#[derive(Clone, Copy, Debug, PartialEq, Eq, Structural)]
pub struct TargetIndicator {
    pub pos: Vec3Fx,
    pub visible: bool,
}

/// The destination that wins the indicator refresh scan: the destination
/// of the last selected unit (in unit-list order) that has one.
pub open spec fn spec_last_selected_target(units: Seq<UnitBundle>) -> Option<Vec3Fx>
    decreases units.len(),
{
    if units.len() == 0 {
        None
    } else if units.last().selectable.selected && units.last().target.pos is Some {
        units.last().target.pos
    } else {
        spec_last_selected_target(units.drop_last())
    }
}

/// The indicator-refresh pass: the marker is visible iff some selected
/// unit has a destination, and then sits at the winning destination at
/// marker height.
pub open spec fn spec_show_target_indicator(w: WorldView) -> WorldView {
    match spec_last_selected_target(w.units) {
        Some(t) => WorldView {
            target_indicator: TargetIndicator {
                pos: Vec3Fx { x: t.x, y: INDICATOR_HEIGHT, z: t.z },
                visible: true,
            },
            ..w
        },
        None => WorldView {
            target_indicator: TargetIndicator { visible: false, ..w.target_indicator },
            ..w
        },
    }
}

impl World {
    /// Indicator refresh: see `spec_show_target_indicator`.
    pub fn show_target_indicator(&mut self)
        ensures
            final(self)@ == spec_show_target_indicator(old(self)@),
    {
        let n = self.units.len();
        proof {
            assert(self@.units.take(n as int) =~= self@.units);
        }
        let mut i: usize = n;
        let mut winner: Option<Vec3Fx> = None;
        while i > 0 && winner.is_none()
            invariant
                i <= n,
                n == self@.units.len(),
                *self == *old(self),
                winner is None ==> spec_last_selected_target(self@.units)
                    == spec_last_selected_target(self@.units.take(i as int)),
                winner is Some ==> spec_last_selected_target(self@.units) == winner,
            decreases i,
        {
            proof {
                assert(self@.units.take(i as int).drop_last() =~= self@.units.take(i - 1));
                assert(self@.units.take(i as int).last() == self@.units[i - 1]);
            }
            let u = self.units[i - 1];
            if u.selectable.selected {
                match u.target.pos {
                    Some(t) => {
                        winner = Some(t);
                    },
                    None => {},
                }
            }
            i = i - 1;
        }
        proof {
            assert(self@.units.take(0) =~= Seq::<UnitBundle>::empty());
        }
        match winner {
            Some(t) => {
                self.target_indicator = TargetIndicator {
                    pos: Vec3Fx { x: t.x, y: INDICATOR_HEIGHT, z: t.z },
                    visible: true,
                };
            },
            None => {
                self.target_indicator.visible = false;
            },
        }
        proof {
            assert(final(self)@ =~= spec_show_target_indicator(old(self)@));
        }
    }
}

impl Default for TargetIndicator {
    fn default() -> (r: TargetIndicator)
        ensures
            r == (TargetIndicator { pos: Vec3Fx { x: 0, y: 0, z: 0 }, visible: false }),
    {
        TargetIndicator { pos: Vec3Fx { x: 0, y: 0, z: 0 }, visible: false }
    }
}

} // verus!

//! Faction tags: units only avoid and interact with peers, but every unit
//! carries the faction it belongs to.

use vstd::prelude::*;

verus! {

/// The closed set of factions a unit can belong to.
#[derive(Clone, Copy, Debug, PartialEq, Eq, Structural)]
pub enum Factions {
    Player,
    Aliens,
}

impl Default for Factions {
    fn default() -> (r: Factions)
        ensures
            r == Factions::Player,
    {
        Factions::Player
    }
}

/// A unit's faction membership.
#[derive(Clone, Copy, Debug, PartialEq, Eq, Structural)]
pub struct Faction {
    pub faction: Factions,
}

impl Faction {
    pub fn new(faction: Factions) -> (r: Faction)
        ensures
            r.faction == faction,
    {
        Faction { faction }
    }
}

impl Default for Faction {
    fn default() -> (r: Faction)
        ensures
            r.faction == Factions::Player,
    {
        Faction { faction: Factions::Player }
    }
}

} // verus!

//! Static item definitions handed in by the raw-data collaborator, in the
//! shape the spawner and identification systems read.

use vstd::prelude::*;

verus! {

/// Raw weapon data: dice-notation damage and the attribute it swings by.
#[derive(Clone, Debug)]
pub struct Weapon {
    pub range: String,
    pub attribute: String,
    pub base_damage: String,
    pub hit_bonus: i32,
}

/// Raw magic-item data: its power class and how its unidentified name is
/// made.
#[derive(Clone, Debug)]
pub struct MagicItem {
    pub class: String,
    pub naming: String,
    pub cursed: Option<bool>,
}

} // verus!

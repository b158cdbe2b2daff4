//! The kinds of entities of the game.
use vstd::prelude::*;

verus! {

/// The id of an entity on the network.
pub type NetworkEntityId = u64;

/// The kinds of entities.
#[derive(Debug, Clone, Copy, PartialEq, Eq, Structural)]
pub enum EntityType {
    Player,
    Zombie,
    Turret,
    Wall,
    Projectile,
}

impl EntityType {
    /// Whether entities of this kind never move: turrets and walls.
    pub fn is_static(&self) -> (r: bool)
        ensures
            r == (*self == EntityType::Turret || *self == EntityType::Wall),
    {
        match self {
            EntityType::Turret | EntityType::Wall => true,
            _ => false,
        }
    }
}

} // verus!

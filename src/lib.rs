//! Combat, enemy AI and entity-lifecycle logic for a top-down action game.
//!
//! Geometry is kept in integer world units and time in milliseconds, so
//! that every rule of the simulation can be stated and proved exactly.
use vstd::prelude::*;

pub mod combat;
pub mod direction;
pub mod goblin;
pub mod lifecycle;
pub mod names;
pub mod player;
pub mod waves;
pub mod world;

verus! {

/// Largest magnitude of a coordinate or offset handled by the geometry
/// routines; squares of two such values still fit in an `i64`.
pub const COORD_LIMIT: i64 = 1_000_000_000;

/// A coordinate or offset within the supported range.
pub open spec fn coord_ok(v: int) -> bool {
    -(COORD_LIMIT as int) <= v <= COORD_LIMIT as int
}

/// A vector in integer world units.
#[derive(PartialEq, Eq, Structural, Clone, Copy, Debug, Hash)]
pub struct Vec2 {
    pub x: i64,
    pub y: i64,
}

impl Vec2 {
    /// Both components lie in the supported range.
    pub open spec fn in_range(self) -> bool {
        coord_ok(self.x as int) && coord_ok(self.y as int)
    }
}

/// A handle to an entity of the logical entity store. The generation tells
/// a reused slot apart from the entity that held it before.
#[derive(PartialEq, Eq, Structural, Clone, Copy, Debug, Hash)]
pub struct Entity {
    pub id: u32,
    pub generation: u32,
}

} // verus!

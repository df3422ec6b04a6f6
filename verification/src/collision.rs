//! What a collision is with: another collider, or a tile position and the
//! tile entity there, if any. A target holds what tells targets apart:
//! entity ids and tile positions.
use crate::index::TilePosition;
use vstd::prelude::*;

verus! {

/// What a collision is with.
#[derive(Debug, Clone, Copy, PartialEq, Eq, Structural)]
pub enum CollisionTarget {
    /// Another collider, by its entity id.
    Collider { id: u64 },
    /// A tile position, with the tile entity there if there is one.
    Tile { id: Option<u64>, position: TilePosition },
}

/// Whether a collision with `a` stands for one with `b`: the same collider;
/// or the same tile position, where `a` names a tile entity and `b` names
/// none or the same one.
pub open spec fn covers(a: CollisionTarget, b: CollisionTarget) -> bool {
    match (a, b) {
        (CollisionTarget::Collider { id: i }, CollisionTarget::Collider { id: j }) => i == j,
        (
            CollisionTarget::Tile { id: Some(i), position: p },
            CollisionTarget::Tile { id: other, position: q },
        ) => p == q && (other is None || other == Some(i)),
        _ => false,
    }
}

impl CollisionTarget {
    /// Whether a collision with `self` stands for one with `other`; see
    /// [`covers`].
    pub fn contains(&self, other: &Self) -> (r: bool)
        ensures
            r == covers(*self, *other),
    {
        match (self, other) {
            (CollisionTarget::Collider { id: id1 }, CollisionTarget::Collider { id: id2 }) => {
                *id1 == *id2
            },
            (
                CollisionTarget::Tile { id: Some(_), position: pos1 },
                CollisionTarget::Tile { id: None, position: pos2 },
            ) => *pos1 == *pos2,
            (
                CollisionTarget::Tile { id: Some(id1), position: pos1 },
                CollisionTarget::Tile { id: Some(id2), position: pos2 },
            ) => *pos1 == *pos2 && *id1 == *id2,
            _ => false,
        }
    }
}

} // verus!

//! Collision events and what each of them means for the player.

use vstd::prelude::*;

verus! {

/// An entity of the world, by category and index.
#[derive(Clone, Copy, Debug, PartialEq, Eq, Structural)]
pub enum Entity {
    Player,
    RoadMarker(usize),
    Obstacle(usize),
    Collectible(usize),
    Buff,
    /// Anything else that the player can run into.
    Other,
}

/// Two entities that start or stop touching each other.
#[derive(Clone, Copy, Debug, PartialEq, Eq, Structural)]
pub struct Collision {
    pub first: Entity,
    pub second: Entity,
    /// `true` when the two start to overlap, `false` when they part.
    pub begins: bool,
}

/// What a collision means for the player.
#[derive(Clone, Copy, Debug, PartialEq, Eq, Structural)]
pub enum Contact {
    /// The player is not part of it, or the overlap ends: nothing happens.
    Ignored,
    /// The player picks up the buff.
    Buff,
    /// The player picks up the collectible of this index.
    Collectible(usize),
    /// The player runs into anything else.
    Hit,
}

impl Collision {
    /// Whether the player is one of the two.
    pub open spec fn involves_player(self) -> bool {
        self.first == Entity::Player || self.second == Entity::Player
    }

    /// What the collision means: nothing unless the player is part of it and
    /// the overlap begins; else the buff if the buff is part of it; else a
    /// collectible if one is part of it, the second entity before the first;
    /// else a hit.
    pub open spec fn contact(self) -> Contact {
        if !self.involves_player() || !self.begins {
            Contact::Ignored
        } else if self.first == Entity::Buff || self.second == Entity::Buff {
            Contact::Buff
        } else if let Entity::Collectible(index) = self.second {
            Contact::Collectible(index)
        } else if let Entity::Collectible(index) = self.first {
            Contact::Collectible(index)
        } else {
            Contact::Hit
        }
    }

    /// Whether the collision names no collectible beyond the first `count`.
    pub open spec fn within(self, count: nat) -> bool {
        match self.contact() {
            Contact::Collectible(index) => index < count,
            _ => true,
        }
    }

    /// Computes [`Collision::contact`].
    pub fn classify(&self) -> (contact: Contact)
        ensures
            contact == self.contact(),
    {
        let player: bool = matches!(self.first, Entity::Player) || matches!(
            self.second,
            Entity::Player
        );
        if !player || !self.begins {
            return Contact::Ignored;
        }
        if matches!(self.first, Entity::Buff) || matches!(self.second, Entity::Buff) {
            return Contact::Buff;
        }
        if let Entity::Collectible(index) = self.second {
            return Contact::Collectible(index);
        }
        if let Entity::Collectible(index) = self.first {
            return Contact::Collectible(index);
        }
        Contact::Hit
    }
}

/// Whether none of `collisions` names a collectible beyond the first `count`.
pub open spec fn all_within(collisions: Seq<Collision>, count: nat) -> bool {
    forall|i: int| 0 <= i < collisions.len() ==> (#[trigger] collisions[i]).within(count)
}

} // verus!

//! Entities and what ticks.

use vstd::prelude::*;

verus! {

/// Something the server updates every few ticks.
pub trait Tickable {
    /// One update.
    fn tick();

    /// Every how many ticks it is updated.
    fn tick_rate() -> u8;
}

/// Something with an entity id.
pub trait EntityTrait {
    /// The id.
    fn id(&self) -> u128;
}

/// An entity of the world.
pub struct Entity {
    id: u128,
}

impl Entity {
    /// An entity with an id.
    pub fn new(id: u128) -> (e: Self)
        ensures
            e.id_view() == id,
    {
        Entity { id }
    }

    /// The id.
    pub closed spec fn id_view(&self) -> u128 {
        self.id
    }
}

impl Tickable for Entity {
    fn tick() {
    }

    fn tick_rate() -> (r: u8)
        ensures
            r == 3,
    {
        3
    }
}

impl EntityTrait for Entity {
    fn id(&self) -> (r: u128)
        ensures
            r == self.id_view(),
    {
        self.id
    }
}

/// A living entity, with its health.
pub struct Living {
    health: u8,
}

} // verus!

use vstd::prelude::*;
use crate::entity::Entity;

verus! {

/// Minimum time between two damaging chops, in microseconds.
pub const CHOP_COOLDOWN: u64 = 200_000;

/// Store slot of the player's reticle.
pub const RETICLE_SLOT: usize = 0;

/// Store slot of the apple.
pub const APPLE_SLOT: usize = 1;

/// The world: the entity store and the chop cooldown.
#[derive(Debug)]
pub struct State {
    pub entities: Vec<Entity>,
    /// Time left before the axe may damage trees again, in microseconds.
    pub chop_cooldown: u64,
}

/// Every entity of the sequence lies within the simulation's ranges.
pub open spec fn all_wf(entities: Seq<Entity>) -> bool {
    forall|i: int| 0 <= i < entities.len() ==> (#[trigger] entities[i]).wf()
}

impl State {
    pub open spec fn wf(&self) -> bool {
        all_wf(self.entities@)
    }

    pub fn new() -> (r: State)
        ensures
            r.entities@.len() == 0,
            r.chop_cooldown == 0,
    {
        State { entities: Vec::new(), chop_cooldown: 0 }
    }

    /// Appends an entity and returns its slot.
    pub fn add_entity(&mut self, entity: Entity) -> (id: usize)
        requires
            old(self).entities@.len() < usize::MAX,
        ensures
            final(self).entities@ == old(self).entities@.push(entity),
            final(self).chop_cooldown == old(self).chop_cooldown,
            id == old(self).entities@.len(),
    {
        self.entities.push(entity);
        self.entities.len() - 1
    }

    pub fn get_entity(&self, id: usize) -> (r: Option<&Entity>)
        ensures
            id < self.entities@.len() ==> r == Some(&self.entities@[id as int]),
            id >= self.entities@.len() ==> r.is_none(),
    {
        if id < self.entities.len() {
            Some(&self.entities[id])
        } else {
            None
        }
    }
}

impl Default for State {
    fn default() -> (r: State)
        ensures
            r.entities@.len() == 0,
            r.chop_cooldown == 0,
    {
        State::new()
    }
}

} // verus!

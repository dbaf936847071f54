use vstd::prelude::*;
use crate::entity::{Entity, EntityType};
use crate::settings::MAX_FRAME_TIME;
use crate::sprite::{catalog_wf, sprite_index, stepped, switched, Sprite, SpriteData};
use crate::state::{all_wf, State};

verus! {

/// Above this speed (ten world units per second) a man walks.
pub const MIN_WALK_SPEED: i64 = 10_000;

/// The sprite a man shows at a given velocity.
pub open spec fn man_sprite(e: Entity) -> Sprite {
    if e.velocity.len2() > MIN_WALK_SPEED * MIN_WALK_SPEED {
        Sprite::ManWalk
    } else {
        Sprite::ManIdle
    }
}

pub open spec fn with_man_sprite(e: Entity) -> Entity {
    if e.active && e.entity_type == EntityType::Man {
        Entity { sprite_animator: switched(e.sprite_animator, man_sprite(e)), ..e }
    } else {
        e
    }
}

pub open spec fn animated(e: Entity, sprites: Seq<SpriteData>, dt: int) -> Entity {
    if e.active {
        Entity {
            sprite_animator: stepped(e.sprite_animator, sprites[sprite_index(e.sprite_animator.sprite) as int].frames@, dt),
            ..e
        }
    } else {
        e
    }
}

pub open spec fn stump_if_dead(e: Entity) -> Entity {
    if e.active && e.entity_type == EntityType::Tree && e.hp <= 0 {
        Entity { sprite_animator: switched(e.sprite_animator, Sprite::TreeStump), ..e }
    } else {
        e
    }
}

pub fn set_man_sprite_based_on_velocity(state: &mut State)
    requires
        old(state).wf(),
    ensures
        final(state).entities@ == old(state).entities@.map_values(|e: Entity| with_man_sprite(e)),
        final(state).chop_cooldown == old(state).chop_cooldown,
        final(state).wf(),
{
    let n = state.entities.len();
    let mut i: usize = 0;
    while i < n
        invariant
            n == old(state).entities@.len(),
            state.entities@.len() == n,
            state.chop_cooldown == old(state).chop_cooldown,
            old(state).wf(),
            i <= n,
            forall|j: int| 0 <= j < i ==> state.entities@[j] == with_man_sprite(old(state).entities@[j]),
            forall|j: int| i <= j < n ==> state.entities@[j] == old(state).entities@[j],
            old(state).wf() ==> all_wf(state.entities@),
        decreases n - i,
    {
        let mut e = state.entities[i];
        assert(old(state).entities@[i as int].wf());
        if e.active && e.entity_type == EntityType::Man {
            let sprite = if e.velocity.length_squared() > MIN_WALK_SPEED * MIN_WALK_SPEED {
                Sprite::ManWalk
            } else {
                Sprite::ManIdle
            };
            e.sprite_animator.set_sprite(sprite);
        }
        state.entities[i] = e;
        i = i + 1;
    }
    assert(state.entities@ =~= old(state).entities@.map_values(|e: Entity| with_man_sprite(e)));
}

pub fn step_sprites(state: &mut State, sprites: &[SpriteData], dt: u64)
    requires
        old(state).wf(),
        catalog_wf(sprites@),
        dt <= MAX_FRAME_TIME,
    ensures
        final(state).entities@ == old(state).entities@.map_values(|e: Entity| animated(e, sprites@, dt as int)),
        final(state).chop_cooldown == old(state).chop_cooldown,
        final(state).wf(),
{
    let n = state.entities.len();
    let mut i: usize = 0;
    while i < n
        invariant
            n == old(state).entities@.len(),
            state.entities@.len() == n,
            state.chop_cooldown == old(state).chop_cooldown,
            old(state).wf(),
            catalog_wf(sprites@),
            dt <= MAX_FRAME_TIME,
            i <= n,
            forall|j: int| 0 <= j < i ==> state.entities@[j] == animated(old(state).entities@[j], sprites@, dt as int),
            forall|j: int| i <= j < n ==> state.entities@[j] == old(state).entities@[j],
            old(state).wf() ==> all_wf(state.entities@),
        decreases n - i,
    {
        let mut e = state.entities[i];
        assert(old(state).entities@[i as int].wf());
        if e.active {
            e.sprite_animator.step(sprites, dt);
        }
        state.entities[i] = e;
        i = i + 1;
    }
    assert(state.entities@ =~= old(state).entities@.map_values(|e: Entity| animated(e, sprites@, dt as int)));
}

pub fn become_chopped_if_dead_tree(state: &mut State)
    ensures
        final(state).entities@ == old(state).entities@.map_values(|e: Entity| stump_if_dead(e)),
        final(state).chop_cooldown == old(state).chop_cooldown,
        old(state).wf() ==> final(state).wf(),
{
    let n = state.entities.len();
    let mut i: usize = 0;
    while i < n
        invariant
            n == old(state).entities@.len(),
            state.entities@.len() == n,
            state.chop_cooldown == old(state).chop_cooldown,
            i <= n,
            forall|j: int| 0 <= j < i ==> state.entities@[j] == stump_if_dead(old(state).entities@[j]),
            forall|j: int| i <= j < n ==> state.entities@[j] == old(state).entities@[j],
            old(state).wf() ==> all_wf(state.entities@),
        decreases n - i,
    {
        let mut e = state.entities[i];
        if e.active && e.entity_type == EntityType::Tree && e.hp <= 0 {
            e.sprite_animator.set_sprite(Sprite::TreeStump);
        }
        state.entities[i] = e;
        i = i + 1;
    }
    assert(state.entities@ =~= old(state).entities@.map_values(|e: Entity| stump_if_dead(e)));
}

} // verus!

use vstd::prelude::*;
use crate::animation::{
    animated, become_chopped_if_dead_tree, set_man_sprite_based_on_velocity, step_sprites, stump_if_dead,
    with_man_sprite,
};
use crate::audio::SoundEffect;
use crate::entity::Entity;
use crate::interaction::{
    chop_sounds, cooldown_after, determine_reticle_sprite, do_touch_apple, feed_outcome, feed_sounds,
    swing_outcome,
};
use crate::lifecycle::{
    do_following, expired, following_all, is_active, prune_inactive_entities, step_expiring_entities,
};
use crate::motion::{apply_friction, lemma_moved_wf, moved, step_positions, wrap_around_screen};
use crate::settings::{ENTITY_LIMIT, MAX_FRAME_TIME};
use crate::sprite::{catalog_wf, SpriteData};
use crate::state::{State, APPLE_SLOT};

verus! {

/// What the host hands the simulation each frame.
#[derive(Clone, Copy, Debug, PartialEq, Eq, Structural)]
pub struct FrameInput {
    /// Time since the previous frame, in microseconds.
    pub dt: u64,
    /// Whether the primary pointer button is held.
    pub primary_down: bool,
}

/// The store after movement, the men's walk/idle sprites and animation.
pub open spec fn prepared(s: Seq<Entity>, sprites: Seq<SpriteData>, dt: int) -> Seq<Entity> {
    s.map_values(|e: Entity| animated(with_man_sprite(moved(e, dt)), sprites, dt))
}

/// The store after the stump, expiry and prune passes.
pub open spec fn settled(s: Seq<Entity>, dt: int) -> Seq<Entity> {
    s.map_values(|e: Entity| expired(stump_if_dead(e), dt)).filter(|e: Entity| is_active(e))
}

/// One frame: movement and animation, the apple check (whatever scale and
/// place it drew), following, the reticle pass (whatever logs it threw), then
/// stumps, expiry and pruning. Sound requests are appended in that order.
pub open spec fn frame_outcome(
    s: Seq<Entity>,
    cooldown: u64,
    sprites: Seq<SpriteData>,
    input: FrameInput,
    s2: Seq<Entity>,
    cooldown2: u64,
    sounds_added: Seq<SoundEffect>,
) -> bool {
    let a = prepared(s, sprites, input.dt as int);
    exists|b: Seq<Entity>, c: Seq<Entity>|
        {
            &&& #[trigger] feed_outcome(a, b)
            &&& #[trigger] swing_outcome(following_all(b), c, input.primary_down, cooldown)
            &&& s2 == settled(c, input.dt as int)
            &&& cooldown2 == cooldown_after(following_all(b), input.primary_down, cooldown, input.dt)
            &&& sounds_added == feed_sounds(a) + chop_sounds(following_all(b), input.primary_down, cooldown)
        }
}

/// Runs one frame of the simulation. Slot 0 holds the reticle and slot 1
/// the apple.
pub fn step(state: &mut State, sprites: &[SpriteData], input: &FrameInput, sounds: &mut Vec<SoundEffect>)
    requires
        old(state).wf(),
        APPLE_SLOT < old(state).entities@.len() < ENTITY_LIMIT,
        catalog_wf(sprites@),
        input.dt <= MAX_FRAME_TIME,
    ensures
        final(state).wf(),
        exists|added: Seq<SoundEffect>|
            final(sounds)@ == old(sounds)@ + added && #[trigger] frame_outcome(
                old(state).entities@,
                old(state).chop_cooldown,
                sprites@,
                *input,
                final(state).entities@,
                final(state).chop_cooldown,
                added,
            ),
{
    let dt = input.dt;
    let ghost s0 = old(state).entities@;
    let ghost c0 = old(state).chop_cooldown;
    let ghost sounds0 = old(sounds)@;
    apply_friction(state, dt);
    step_positions(state, dt);
    wrap_around_screen(state);
    proof {
        assert(state.entities@ =~= s0.map_values(|e: Entity| moved(e, dt as int)));
        assert forall|j: int| 0 <= j < state.entities@.len() implies (#[trigger] state.entities@[j]).wf() by {
            assert(s0[j].wf());
            lemma_moved_wf(s0[j], dt as int);
        }
    }
    set_man_sprite_based_on_velocity(state);
    step_sprites(state, sprites, dt);
    let ghost a = state.entities@;
    assert(a =~= prepared(s0, sprites@, dt as int));
    do_touch_apple(state, sounds);
    let ghost b = state.entities@;
    let ghost sounds1 = sounds@;
    do_following(state);
    let ghost fb = state.entities@;
    determine_reticle_sprite(state, input.primary_down, dt, sounds);
    let ghost c = state.entities@;
    let ghost c1 = state.chop_cooldown;
    become_chopped_if_dead_tree(state);
    step_expiring_entities(state, dt);
    prune_inactive_entities(state);
    proof {
        assert(c.map_values(|e: Entity| stump_if_dead(e)).map_values(|e: Entity| expired(e, dt as int))
            =~= c.map_values(|e: Entity| expired(stump_if_dead(e), dt as int)));
        let added = feed_sounds(a) + chop_sounds(fb, input.primary_down, c0);
        assert(sounds@ =~= sounds0 + added);
        assert(frame_outcome(s0, c0, sprites@, *input, state.entities@, state.chop_cooldown, added));
    }
}

} // verus!

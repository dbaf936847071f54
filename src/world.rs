use vstd::prelude::*;
use crate::entity::{Entity, EntityType};
use crate::geometry::{Vec2i, Vec2u};
use crate::interaction::on_screen;
use crate::random::random_in;
use crate::settings::{SCREEN_HEIGHT, SCREEN_WIDTH};
use crate::sprite::{catalog_wf, sprite_index, Sprite, SpriteData};
use crate::state::{all_wf, State, APPLE_SLOT, RETICLE_SLOT};

verus! {

/// Number of trees planted in a new world.
pub const NUM_TREES: usize = 20;

/// Largest sprite width or height, in pixels, that a new world accepts.
pub const MAX_SPRITE_PIXELS: u32 = 65_536;

/// Render scale of the reticle and the apple, in thousandths.
pub const MARKER_SCALE: u64 = 5000;

/// Render scale of the first man, in thousandths.
pub const MAN_SCALE: u64 = 6000;

/// Smallest render scale of a tree, in thousandths.
pub const TREE_MIN_SCALE: u64 = 10_000;

/// Render scales of trees stay below this, in thousandths.
pub const TREE_MAX_SCALE: u64 = 15_000;

/// Where the reticle starts.
pub const RETICLE_START_X: i64 = 50_000;

/// Where the reticle starts.
pub const RETICLE_START_Y: i64 = 200_000;

/// The world size of a sprite of `pixels` drawn at `scale` (thousandths).
pub open spec fn scaled_size(pixels: Vec2u, scale: u64) -> Vec2i {
    Vec2i { x: (pixels.x * scale) as i64, y: (pixels.y * scale) as i64 }
}

fn scale_size(pixels: Vec2u, scale: u64) -> (r: Vec2i)
    requires
        pixels.x <= MAX_SPRITE_PIXELS,
        pixels.y <= MAX_SPRITE_PIXELS,
        scale < TREE_MAX_SCALE,
    ensures
        r == scaled_size(pixels, scale),
        0 <= r.x <= 1_000_000_000,
        0 <= r.y <= 1_000_000_000,
{
    assert((pixels.x as int) * (scale as int) <= 65_536 * 15_000) by (nonlinear_arith)
        requires
            pixels.x <= 65_536,
            scale < 15_000,
    ;
    assert((pixels.y as int) * (scale as int) <= 65_536 * 15_000) by (nonlinear_arith)
        requires
            pixels.y <= 65_536,
            scale < 15_000,
    ;
    assert((pixels.x as int) * (scale as int) >= 0 && (pixels.y as int) * (scale as int) >= 0) by (nonlinear_arith);
    Vec2i { x: (pixels.x as i64) * (scale as i64), y: (pixels.y as i64) * (scale as i64) }
}

fn sprite_entity(kind: EntityType, position: Vec2i, sprite: Sprite, scale: u64, sprites: &[SpriteData]) -> (r: Entity)
    requires
        catalog_wf(sprites@),
        forall|k: int| 0 <= k < sprites@.len() ==> (#[trigger] sprites@[k]).size.x <= MAX_SPRITE_PIXELS
            && sprites@[k].size.y <= MAX_SPRITE_PIXELS,
        scale < TREE_MAX_SCALE,
        position.wf_position(),
    ensures
        r.wf(),
        r.entity_type == kind,
        r.position == position,
        r.size == scaled_size(sprites@[sprite_index(sprite) as int].size, scale),
        r.sprite_animator.sprite == sprite,
        r.sprite_animator.current_frame == 0,
        r.sprite_animator.scale == scale,
        r.follows.is_none(),
        r.active,
{
    let size = scale_size(sprites[sprite.index()].size, scale);
    let mut e = Entity::new(kind, position, size, sprite);
    e.sprite_animator.scale = scale;
    e
}

fn random_screen_point() -> (r: Vec2i)
    ensures
        on_screen(r),
{
    Vec2i { x: random_in(0, SCREEN_WIDTH), y: random_in(0, SCREEN_HEIGHT) }
}

/// A new world: the reticle in slot 0, the apple somewhere on screen in slot
/// 1, then trees of random scale and frame at random places, then one man in
/// the middle of the screen who follows the apple. Entity sizes are the
/// catalog sizes times the render scales.
pub fn new_world(sprites: &[SpriteData]) -> (r: State)
    requires
        catalog_wf(sprites@),
        forall|k: int| 0 <= k < sprites@.len() ==> (#[trigger] sprites@[k]).size.x <= MAX_SPRITE_PIXELS
            && sprites@[k].size.y <= MAX_SPRITE_PIXELS,
    ensures
        r.wf(),
        r.chop_cooldown == 0,
        r.entities@.len() == NUM_TREES + 3,
        r.entities@[RETICLE_SLOT as int].entity_type == EntityType::Reticle,
        r.entities@[RETICLE_SLOT as int].position == Vec2i::new_spec(RETICLE_START_X, RETICLE_START_Y),
        r.entities@[RETICLE_SLOT as int].sprite_animator.sprite == Sprite::Reticle,
        r.entities@[APPLE_SLOT as int].entity_type == EntityType::Apple,
        on_screen(r.entities@[APPLE_SLOT as int].position),
        forall|i: int|
            2 <= i < NUM_TREES + 2 ==> {
                &&& (#[trigger] r.entities@[i]).entity_type == EntityType::Tree
                &&& on_screen(r.entities@[i].position)
                &&& TREE_MIN_SCALE <= r.entities@[i].sprite_animator.scale < TREE_MAX_SCALE
                &&& r.entities@[i].sprite_animator.current_frame < sprites@[sprite_index(Sprite::Tree) as int].frames@.len()
                &&& r.entities@[i].size == scaled_size(sprites@[sprite_index(Sprite::Tree) as int].size, r.entities@[i].sprite_animator.scale)
            },
        r.entities@[NUM_TREES + 2].entity_type == EntityType::Man,
        r.entities@[NUM_TREES + 2].position == Vec2i::new_spec(500_000, 500_000),
        r.entities@[NUM_TREES + 2].follows == Some(APPLE_SLOT),
        forall|i: int| 0 <= i < r.entities@.len() ==> (#[trigger] r.entities@[i]).active,
{
    let mut state = State::new();
    let reticle = sprite_entity(
        EntityType::Reticle,
        Vec2i::new(RETICLE_START_X, RETICLE_START_Y),
        Sprite::Reticle,
        MARKER_SCALE,
        sprites,
    );
    state.add_entity(reticle);
    let apple = sprite_entity(EntityType::Apple, random_screen_point(), Sprite::Apple, MARKER_SCALE, sprites);
    state.add_entity(apple);
    let mut k: usize = 0;
    while k < NUM_TREES
        invariant
            catalog_wf(sprites@),
            forall|j: int| 0 <= j < sprites@.len() ==> (#[trigger] sprites@[j]).size.x <= MAX_SPRITE_PIXELS
                && sprites@[j].size.y <= MAX_SPRITE_PIXELS,
            k <= NUM_TREES,
            state.entities@.len() == k + 2,
            state.chop_cooldown == 0,
            all_wf(state.entities@),
            state.entities@[RETICLE_SLOT as int] == reticle,
            state.entities@[APPLE_SLOT as int] == apple,
            forall|i: int|
                2 <= i < k + 2 ==> {
                    &&& (#[trigger] state.entities@[i]).entity_type == EntityType::Tree
                    &&& on_screen(state.entities@[i].position)
                    &&& TREE_MIN_SCALE <= state.entities@[i].sprite_animator.scale < TREE_MAX_SCALE
                    &&& state.entities@[i].sprite_animator.current_frame < sprites@[sprite_index(Sprite::Tree) as int].frames@.len()
                    &&& state.entities@[i].size == scaled_size(sprites@[sprite_index(Sprite::Tree) as int].size, state.entities@[i].sprite_animator.scale)
                },
            forall|i: int| 0 <= i < state.entities@.len() ==> (#[trigger] state.entities@[i]).active,
        decreases NUM_TREES - k,
    {
        let scale = random_in(TREE_MIN_SCALE as i64, TREE_MAX_SCALE as i64) as u64;
        let mut tree = sprite_entity(EntityType::Tree, random_screen_point(), Sprite::Tree, scale, sprites);
        tree.sprite_animator.randomize_frame(sprites);
        state.add_entity(tree);
        k = k + 1;
    }
    let mut man = sprite_entity(
        EntityType::Man,
        Vec2i::new(SCREEN_WIDTH / 2, SCREEN_HEIGHT / 2),
        Sprite::ManIdle,
        MAN_SCALE,
        sprites,
    );
    man.follows = Some(APPLE_SLOT);
    state.add_entity(man);
    state
}

} // verus!

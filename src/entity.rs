use vstd::prelude::*;
use crate::geometry::{Bounds, Vec2i};
use crate::settings::{POSITION_LIMIT, SIZE_LIMIT, SPEED_LIMIT, TIME_LIMIT};
use crate::sprite::{Sprite, SpriteAnimator};

verus! {

#[derive(Clone, Copy, Debug, PartialEq, Eq, Structural)]
pub enum EntityType {
    Man,
    Tree,
    Reticle,
    Apple,
    Log,
}

/// One simulated object. `position` is the feet anchor: the bottom centre of
/// the sprite.
#[derive(Clone, Copy, Debug)]
pub struct Entity {
    pub entity_type: EntityType,
    pub position: Vec2i,
    pub size: Vec2i,
    pub velocity: Vec2i,
    pub sprite_animator: SpriteAnimator,
    /// Store index of the entity this one seeks, if any.
    pub follows: Option<usize>,
    pub hp: i64,
    /// Velocity damping, in thousandths per second.
    pub friction: Option<u32>,
    /// Time left before the entity is deactivated, in microseconds.
    pub expire_in: Option<u64>,
    pub active: bool,
}

/// The box of an entity: centred horizontally on its position, with its
/// bottom edge at the position.
pub open spec fn bounds_of(e: Entity) -> Bounds {
    Bounds {
        top_left: Vec2i {
            x: (e.position.x - e.size.x / 2) as i64,
            y: (e.position.y - e.size.y) as i64,
        },
        bottom_right: Vec2i { x: (e.position.x + e.size.x / 2) as i64, y: e.position.y },
    }
}

impl Entity {
    /// The ranges within which the simulation keeps every entity.
    pub open spec fn wf(self) -> bool {
        &&& -POSITION_LIMIT <= self.position.x <= POSITION_LIMIT
        &&& -POSITION_LIMIT <= self.position.y <= POSITION_LIMIT
        &&& 0 <= self.size.x <= SIZE_LIMIT
        &&& 0 <= self.size.y <= SIZE_LIMIT
        &&& -SPEED_LIMIT <= self.velocity.x <= SPEED_LIMIT
        &&& -SPEED_LIMIT <= self.velocity.y <= SPEED_LIMIT
        &&& self.sprite_animator.current_time <= TIME_LIMIT
    }

    pub fn new(entity_type: EntityType, position: Vec2i, size: Vec2i, sprite: Sprite) -> (r: Entity)
        ensures
            r.entity_type == entity_type,
            r.position == position,
            r.size == size,
            r.velocity == Vec2i::spec_zero(),
            r.sprite_animator == SpriteAnimator::spec_new(sprite),
            r.follows.is_none(),
            r.hp == 100,
            r.friction.is_none(),
            r.expire_in.is_none(),
            r.active,
    {
        Entity {
            entity_type,
            position,
            size,
            velocity: Vec2i::zero(),
            sprite_animator: SpriteAnimator::new(sprite),
            follows: None,
            hp: 100,
            friction: None,
            expire_in: None,
            active: true,
        }
    }

    pub fn get_bounds(&self) -> (r: Bounds)
        requires
            self.wf(),
        ensures
            r == bounds_of(*self),
    {
        let half_w: i64 = self.size.x / 2;
        Bounds {
            top_left: Vec2i { x: self.position.x - half_w, y: self.position.y - self.size.y },
            bottom_right: Vec2i { x: self.position.x + half_w, y: self.position.y },
        }
    }
}

} // verus!

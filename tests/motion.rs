use woodland::entity::{Entity, EntityType};
use woodland::geometry::{intersects, isqrt, Vec2i};
use woodland::motion::{apply_friction, place_reticle, step_positions, wrap_around_screen};
use woodland::settings::{SCREEN_HEIGHT, SCREEN_WIDTH, UNIT};
use woodland::sprite::Sprite;
use woodland::state::State;

fn at(x: i64, y: i64) -> Entity {
    Entity::new(EntityType::Log, Vec2i::new(x, y), Vec2i::new(16_000, 16_000), Sprite::Log)
}

fn world(entities: Vec<Entity>) -> State {
    let mut s = State::new();
    for e in entities {
        s.add_entity(e);
    }
    s
}

fn move_frame(s: &mut State, dt: u64) {
    apply_friction(s, dt);
    step_positions(s, dt);
    wrap_around_screen(s);
}

#[test]
fn wrap_past_right_edge() {
    let mut s = world(vec![at(SCREEN_WIDTH + 1, 500_000), at(SCREEN_WIDTH + UNIT, 500_000)]);
    wrap_around_screen(&mut s);
    assert_eq!(s.entities[0].position, Vec2i::new(1, 500_000));
    assert_eq!(s.entities[1].position, Vec2i::new(UNIT, 500_000));
}

#[test]
fn wrap_past_left_and_top_edges() {
    let mut s = world(vec![at(-1, -UNIT), at(0, SCREEN_HEIGHT)]);
    wrap_around_screen(&mut s);
    assert_eq!(s.entities[0].position, Vec2i::new(SCREEN_WIDTH - 1, SCREEN_HEIGHT - UNIT));
    assert_eq!(s.entities[1].position, Vec2i::new(0, 0));
}

#[test]
fn wrap_leaves_inactive_entities() {
    let mut e = at(-5, -5);
    e.active = false;
    let mut s = world(vec![e]);
    wrap_around_screen(&mut s);
    assert_eq!(s.entities[0].position, Vec2i::new(-5, -5));
}

#[test]
fn positions_integrate_velocity() {
    let mut e = at(100_000, 100_000);
    e.velocity = Vec2i::new(1_000_000, -500_000);
    let mut s = world(vec![e]);
    step_positions(&mut s, 16_000);
    assert_eq!(s.entities[0].position, Vec2i::new(116_000, 92_000));
}

#[test]
fn positions_round_toward_zero() {
    let mut e = at(100_000, 100_000);
    e.velocity = Vec2i::new(1_999, -1_999);
    let mut s = world(vec![e]);
    step_positions(&mut s, 1_000);
    assert_eq!(s.entities[0].position, Vec2i::new(100_001, 99_999));
}

#[test]
fn friction_scales_velocity() {
    let mut e = at(0, 0);
    e.velocity = Vec2i::new(30_000, -4_000);
    e.friction = Some(500);
    let mut s = world(vec![e]);
    apply_friction(&mut s, 100_000);
    assert_eq!(s.entities[0].velocity, Vec2i::new(28_500, -3_800));
}

#[test]
fn friction_stops_slow_entities() {
    let mut e = at(0, 0);
    e.velocity = Vec2i::new(1_000, 0);
    e.friction = Some(500);
    let mut s = world(vec![e]);
    apply_friction(&mut s, 100_000);
    assert_eq!(s.entities[0].velocity, Vec2i::new(0, 0));
}

#[test]
fn friction_factor_never_negative() {
    let mut e = at(0, 0);
    e.velocity = Vec2i::new(900_000, 900_000);
    e.friction = Some(2_000);
    let mut s = world(vec![e]);
    apply_friction(&mut s, 600_000);
    assert_eq!(s.entities[0].velocity, Vec2i::new(0, 0));
}

#[test]
fn no_friction_keeps_velocity() {
    let mut e = at(0, 0);
    e.velocity = Vec2i::new(500, 0);
    let mut s = world(vec![e]);
    apply_friction(&mut s, 100_000);
    assert_eq!(s.entities[0].velocity, Vec2i::new(500, 0));
}

#[test]
fn drift_over_many_frames_wraps() {
    let mut e = at(900_000, 300_000);
    e.velocity = Vec2i::new(250_000, -100_000);
    let mut s = world(vec![e]);
    for _ in 0..5 {
        move_frame(&mut s, 1_000_000);
    }
    assert_eq!(s.entities[0].position, Vec2i::new((900_000 + 5 * 250_000) % SCREEN_WIDTH, (300_000 - 500_000 + SCREEN_HEIGHT) % SCREEN_HEIGHT));
    assert_eq!(s.entities[0].velocity, Vec2i::new(250_000, -100_000));
}

#[test]
fn drift_over_frames_matches_velocity_times_time() {
    let mut e = at(10_000, 20_000);
    e.velocity = Vec2i::new(60_000, 30_000);
    let mut s = world(vec![e]);
    for _ in 0..10 {
        move_frame(&mut s, 50_000);
    }
    // 60 units/s and 30 units/s over half a second.
    assert_eq!(s.entities[0].position, Vec2i::new(40_000, 35_000));
}

#[test]
fn reticle_follows_pointer() {
    let mut s = world(vec![at(0, 0), at(5, 5)]);
    place_reticle(&mut s, Vec2i::new(123_000, 456_000));
    assert_eq!(s.entities[0].position, Vec2i::new(123_000, 456_000));
    assert_eq!(s.entities[1].position, Vec2i::new(5, 5));
}

#[test]
fn integer_square_root() {
    assert_eq!(isqrt(0), 0);
    assert_eq!(isqrt(15), 3);
    assert_eq!(isqrt(16), 4);
    assert_eq!(isqrt(2_500_000_000), 50_000);
    assert_eq!(isqrt(u64::MAX), 0xFFFF_FFFF);
}

#[test]
fn bounds_touching_edges_do_not_intersect() {
    let a = Entity::new(EntityType::Tree, Vec2i::new(100_000, 100_000), Vec2i::new(20_000, 10_000), Sprite::Tree);
    let b = Entity::new(EntityType::Man, Vec2i::new(120_000, 100_000), Vec2i::new(20_000, 10_000), Sprite::ManIdle);
    let c = Entity::new(EntityType::Man, Vec2i::new(119_999, 100_000), Vec2i::new(20_000, 10_000), Sprite::ManIdle);
    assert!(!a.get_bounds().intersects(&b.get_bounds()));
    assert!(a.get_bounds().intersects(&c.get_bounds()));
    let bounds = a.get_bounds();
    assert_eq!(bounds.top_left, Vec2i::new(90_000, 90_000));
    assert_eq!(bounds.bottom_right, Vec2i::new(110_000, 100_000));
}

#[test]
fn new_entity_defaults() {
    let e = Entity::new(EntityType::Tree, Vec2i::new(1, 2), Vec2i::new(3, 4), Sprite::Tree);
    assert_eq!(e.hp, 100);
    assert_eq!(e.velocity, Vec2i::new(0, 0));
    assert!(e.active);
    assert!(e.follows.is_none());
    assert!(e.friction.is_none());
    assert!(e.expire_in.is_none());
    assert_eq!(e.sprite_animator.sprite, Sprite::Tree);
}

#[test]
fn store_slots_and_lookup() {
    let mut s = State::default();
    assert_eq!(s.add_entity(at(0, 0)), 0);
    assert_eq!(s.add_entity(at(7, 0)), 1);
    assert_eq!(s.get_entity(1).unwrap().position, Vec2i::new(7, 0));
    assert!(s.get_entity(2).is_none());
    assert_eq!(s.chop_cooldown, 0);
}

#[test]
fn corner_boxes_intersect_strictly() {
    let a_tl = Vec2i::new(0, 0);
    let a_br = Vec2i::new(10, 10);
    assert!(intersects(a_tl, a_br, Vec2i::new(9, 9), Vec2i::new(20, 20)));
    assert!(!intersects(a_tl, a_br, Vec2i::new(10, 0), Vec2i::new(20, 10)));
    assert!(!intersects(a_tl, a_br, Vec2i::new(0, 10), Vec2i::new(10, 20)));
}

use woodland::animation::become_chopped_if_dead_tree;
use woodland::audio::SoundEffect;
use woodland::entity::{Entity, EntityType};
use woodland::geometry::{Vec2i, Vec2u};
use woodland::interaction::{
    determine_reticle_sprite, do_touch_apple, feed_man_chain, find_man_touching_apple, random_log_velocities,
    spawn_logs, LOG_LIFETIME,
};
use woodland::settings::{SCREEN_HEIGHT, SCREEN_WIDTH};
use woodland::sprite::{Frame, Sprite, SpriteAnimator, SpriteData};
use woodland::state::{State, CHOP_COOLDOWN};
use woodland::step::{step, FrameInput};

fn make(kind: EntityType, x: i64, y: i64, w: i64, h: i64, sprite: Sprite) -> Entity {
    Entity::new(kind, Vec2i::new(x, y), Vec2i::new(w, h), sprite)
}

fn reticle(x: i64, y: i64) -> Entity {
    make(EntityType::Reticle, x, y, 10_000, 10_000, Sprite::Reticle)
}

fn apple(x: i64, y: i64) -> Entity {
    make(EntityType::Apple, x, y, 10_000, 10_000, Sprite::Apple)
}

fn man(x: i64, y: i64) -> Entity {
    make(EntityType::Man, x, y, 12_000, 24_000, Sprite::ManIdle)
}

fn tree(x: i64, y: i64) -> Entity {
    make(EntityType::Tree, x, y, 40_000, 80_000, Sprite::Tree)
}

fn world(entities: Vec<Entity>) -> State {
    let mut s = State::new();
    for e in entities {
        s.add_entity(e);
    }
    s
}

fn catalog() -> Vec<SpriteData> {
    Sprite::all()
        .into_iter()
        .map(|_| SpriteData {
            frames: vec![
                Frame { sample_position: Vec2u { x: 0, y: 0 }, duration: 100_000 },
                Frame { sample_position: Vec2u { x: 8, y: 0 }, duration: 100_000 },
                Frame { sample_position: Vec2u { x: 16, y: 0 }, duration: 100_000 },
            ],
            size: Vec2u { x: 8, y: 8 },
        })
        .collect()
}

fn axe_on_frame(s: &mut State, frame: usize) {
    s.entities[0].sprite_animator =
        SpriteAnimator { sprite: Sprite::AxeCutting, current_frame: frame, current_time: 0, scale: 1000 };
}

fn chopping_world() -> State {
    world(vec![reticle(300_000, 300_000), apple(800_000, 800_000), tree(300_000, 320_000)])
}

#[test]
fn apple_eaten_spawns_one_follower_and_moves_apple() {
    let mut s = world(vec![reticle(50_000, 200_000), apple(500_000, 500_000), man(500_000, 500_000)]);
    let mut sounds = vec![];
    do_touch_apple(&mut s, &mut sounds);
    assert_eq!(s.entities.len(), 4);
    let new_man = &s.entities[3];
    assert_eq!(new_man.entity_type, EntityType::Man);
    assert_eq!(new_man.follows, Some(2));
    assert_eq!(new_man.position, Vec2i::new(500_000, 500_000));
    let scale = new_man.sprite_animator.scale;
    assert!((4000..10_000).contains(&scale));
    assert_eq!(new_man.size, Vec2i::new(2 * scale as i64, 4 * scale as i64));
    assert_eq!(new_man.sprite_animator.sprite, Sprite::ManIdle);
    assert_eq!(new_man.hp, 10);
    assert_ne!(s.entities[1].position, Vec2i::new(500_000, 500_000));
    let p = s.entities[1].position;
    assert!(0 <= p.x && p.x < SCREEN_WIDTH && 0 <= p.y && p.y < SCREEN_HEIGHT);
    assert_eq!(sounds, vec![SoundEffect::UiConfirm]);
}

#[test]
fn apple_eaten_within_a_frame() {
    let mut s = world(vec![reticle(50_000, 200_000), apple(500_000, 500_000), man(500_000, 500_000)]);
    let mut sounds = vec![];
    let sprites = catalog();
    step(&mut s, &sprites, &FrameInput { dt: 16_000, primary_down: false }, &mut sounds);
    let men = s.entities.iter().filter(|e| e.entity_type == EntityType::Man).count();
    assert_eq!(men, 2);
    assert_eq!(s.entities.len(), 4);
    assert_ne!(s.entities[1].position, Vec2i::new(500_000, 500_000));
    assert_eq!(sounds, vec![SoundEffect::UiConfirm]);
}

#[test]
fn feeding_with_given_draws_is_exact() {
    let mut s = world(vec![
        reticle(50_000, 200_000),
        apple(500_000, 500_000),
        man(500_000, 505_000),
        man(100_000, 100_000),
        tree(700_000, 700_000),
    ]);
    let mut sounds = vec![SoundEffect::Step1];
    let eaten = feed_man_chain(&mut s, 5000, Vec2i::new(1_000, 2_000), &mut sounds);
    assert!(eaten);
    assert_eq!(s.entities.len(), 6);
    assert_eq!(s.entities[1].position, Vec2i::new(1_000, 2_000));
    let new_man = &s.entities[5];
    assert_eq!(new_man.follows, Some(3));
    assert_eq!(new_man.position, Vec2i::new(100_000, 100_000));
    assert_eq!(new_man.size, Vec2i::new(10_000, 20_000));
    assert_eq!(new_man.sprite_animator.scale, 5000);
    assert_eq!(sounds, vec![SoundEffect::Step1, SoundEffect::UiConfirm]);
}

#[test]
fn at_most_one_man_spawns_per_frame() {
    let mut s = world(vec![
        reticle(50_000, 200_000),
        apple(500_000, 500_000),
        man(500_000, 500_000),
        man(501_000, 500_000),
    ]);
    let mut sounds = vec![];
    assert_eq!(find_man_touching_apple(&s), Some(2));
    do_touch_apple(&mut s, &mut sounds);
    assert_eq!(s.entities.len(), 5);
    assert_eq!(s.entities[4].follows, Some(3));
    assert_eq!(sounds.len(), 1);
}

#[test]
fn no_man_at_the_apple_changes_nothing() {
    let mut s = world(vec![reticle(50_000, 200_000), apple(500_000, 500_000), man(100_000, 100_000)]);
    let mut sounds = vec![];
    assert_eq!(find_man_touching_apple(&s), None);
    let eaten = feed_man_chain(&mut s, 5000, Vec2i::new(1, 2), &mut sounds);
    assert!(!eaten);
    do_touch_apple(&mut s, &mut sounds);
    assert_eq!(s.entities.len(), 3);
    assert_eq!(s.entities[1].position, Vec2i::new(500_000, 500_000));
    assert!(sounds.is_empty());
}

#[test]
fn chops_within_cooldown_damage_once() {
    let mut s = chopping_world();
    let mut sounds = vec![];
    for frame in 0..3 {
        axe_on_frame(&mut s, if frame == 0 || frame == 2 { 2 } else { 0 });
        determine_reticle_sprite(&mut s, true, 50_000, &mut sounds);
    }
    assert_eq!(s.entities[2].hp, 99);
    assert_eq!(sounds, vec![SoundEffect::BaseballBatSwing]);
    let logs = s.entities.len() - 3;
    assert!((2..=3).contains(&logs));
}

#[test]
fn chops_after_cooldown_damage_twice() {
    let mut s = chopping_world();
    let mut sounds = vec![];
    for frame in 0..7 {
        axe_on_frame(&mut s, if frame == 0 || frame == 6 { 2 } else { 0 });
        determine_reticle_sprite(&mut s, true, 50_000, &mut sounds);
    }
    assert_eq!(s.entities[2].hp, 98);
    assert_eq!(sounds, vec![SoundEffect::BaseballBatSwing, SoundEffect::BaseballBatSwing]);
    let logs = s.entities.len() - 3;
    assert!((4..=6).contains(&logs));
}

#[test]
fn chop_sets_cooldown_and_throws_logs() {
    let mut s = chopping_world();
    let mut sounds = vec![];
    axe_on_frame(&mut s, 2);
    determine_reticle_sprite(&mut s, true, 20_000, &mut sounds);
    assert_eq!(s.chop_cooldown, CHOP_COOLDOWN - 20_000);
    assert_eq!(s.entities[0].sprite_animator.sprite, Sprite::AxeCutting);
    assert_eq!(s.entities[0].sprite_animator.current_frame, 2);
    for log in &s.entities[3..] {
        assert_eq!(log.entity_type, EntityType::Log);
        assert_eq!(log.position, Vec2i::new(300_000, 320_000));
        assert_eq!(log.expire_in, Some(LOG_LIFETIME));
        assert_eq!(log.friction, Some(500));
        assert_eq!(log.size, Vec2i::new(16_000, 16_000));
        assert!(log.velocity.x % 1000 == 0 && -30_000 <= log.velocity.x && log.velocity.x < 30_000);
        assert!(log.velocity.y % 1000 == 0 && -5_000 <= log.velocity.y && log.velocity.y < 5_000);
    }
}

#[test]
fn spent_tree_keeps_zero_hp() {
    let mut s = chopping_world();
    s.entities[2].hp = 0;
    let mut sounds = vec![];
    axe_on_frame(&mut s, 2);
    determine_reticle_sprite(&mut s, true, 20_000, &mut sounds);
    assert_eq!(s.entities[2].hp, 0);
    become_chopped_if_dead_tree(&mut s);
    assert_eq!(s.entities[2].sprite_animator.sprite, Sprite::TreeStump);
}

#[test]
fn reticle_sprite_follows_tree_and_button() {
    let mut s = chopping_world();
    let mut sounds = vec![];
    determine_reticle_sprite(&mut s, false, 10_000, &mut sounds);
    assert_eq!(s.entities[0].sprite_animator.sprite, Sprite::AxeIdle);
    determine_reticle_sprite(&mut s, true, 10_000, &mut sounds);
    assert_eq!(s.entities[0].sprite_animator.sprite, Sprite::AxeCutting);
    assert_eq!(s.entities[0].sprite_animator.current_frame, 0);
    assert_eq!(s.entities[2].hp, 100);
    s.entities[0].position = Vec2i::new(600_000, 100_000);
    determine_reticle_sprite(&mut s, true, 10_000, &mut sounds);
    assert_eq!(s.entities[0].sprite_animator.sprite, Sprite::Reticle);
    assert!(sounds.is_empty());
}

#[test]
fn cooldown_runs_down_without_chopping() {
    let mut s = chopping_world();
    s.chop_cooldown = 30_000;
    let mut sounds = vec![];
    s.entities[0].position = Vec2i::new(600_000, 100_000);
    determine_reticle_sprite(&mut s, false, 20_000, &mut sounds);
    assert_eq!(s.chop_cooldown, 10_000);
    determine_reticle_sprite(&mut s, false, 20_000, &mut sounds);
    assert_eq!(s.chop_cooldown, 0);
}

#[test]
fn spawn_logs_appends_in_order() {
    let mut s = chopping_world();
    let velocities = vec![Vec2i::new(1_000, 0), Vec2i::new(-2_000, 3_000)];
    spawn_logs(&mut s, Vec2i::new(7_000, 8_000), &velocities);
    assert_eq!(s.entities.len(), 5);
    assert_eq!(s.entities[3].velocity, Vec2i::new(1_000, 0));
    assert_eq!(s.entities[4].velocity, Vec2i::new(-2_000, 3_000));
    assert_eq!(s.entities[4].position, Vec2i::new(7_000, 8_000));
    assert_eq!(s.entities[4].sprite_animator.sprite, Sprite::Log);
    assert_eq!(s.entities[4].sprite_animator.scale, 6000);
    assert_eq!(s.entities[4].hp, 10);
}

#[test]
fn log_velocities_are_drawn_in_range() {
    let mut distinct = std::collections::HashSet::new();
    for _ in 0..50 {
        let v = random_log_velocities();
        assert!(v.len() == 2 || v.len() == 3);
        for w in &v {
            assert!(w.x % 1000 == 0 && -30_000 <= w.x && w.x < 30_000);
            assert!(w.y % 1000 == 0 && -5_000 <= w.y && w.y < 5_000);
            distinct.insert((w.x, w.y));
        }
    }
    assert!(distinct.len() > 1);
}

#[test]
fn living_tree_is_not_a_stump() {
    let mut s = chopping_world();
    s.entities[2].hp = 1;
    become_chopped_if_dead_tree(&mut s);
    assert_eq!(s.entities[2].sprite_animator.sprite, Sprite::Tree);
    s.entities[2].hp = -3;
    become_chopped_if_dead_tree(&mut s);
    assert_eq!(s.entities[2].sprite_animator.sprite, Sprite::TreeStump);
}

use woodland::entity::EntityType;
use woodland::geometry::{Vec2i, Vec2u};
use woodland::interaction::{determine_reticle_sprite, find_man_touching_apple};
use woodland::settings::{SCREEN_HEIGHT, SCREEN_WIDTH};
use woodland::sprite::{Frame, Sprite, SpriteData};
use woodland::step::{step, FrameInput};
use woodland::world::{new_world, NUM_TREES};

fn catalog() -> Vec<SpriteData> {
    Sprite::all()
        .into_iter()
        .map(|s| SpriteData {
            frames: vec![
                Frame { sample_position: Vec2u { x: 0, y: 0 }, duration: 100_000 },
                Frame { sample_position: Vec2u { x: 16, y: 0 }, duration: 100_000 },
                Frame { sample_position: Vec2u { x: 32, y: 0 }, duration: 100_000 },
            ],
            size: if s == Sprite::Tree { Vec2u { x: 32, y: 48 } } else { Vec2u { x: 8, y: 16 } },
        })
        .collect()
}

fn on_screen(p: Vec2i) -> bool {
    0 <= p.x && p.x < SCREEN_WIDTH && 0 <= p.y && p.y < SCREEN_HEIGHT
}

#[test]
fn new_world_layout() {
    let sprites = catalog();
    let s = new_world(&sprites);
    assert_eq!(s.entities.len(), NUM_TREES + 3);
    assert_eq!(s.chop_cooldown, 0);
    assert_eq!(s.entities[0].entity_type, EntityType::Reticle);
    assert_eq!(s.entities[0].position, Vec2i::new(50_000, 200_000));
    assert_eq!(s.entities[0].size, Vec2i::new(8 * 5000, 16 * 5000));
    assert_eq!(s.entities[1].entity_type, EntityType::Apple);
    assert!(on_screen(s.entities[1].position));
    for tree in &s.entities[2..NUM_TREES + 2] {
        assert_eq!(tree.entity_type, EntityType::Tree);
        assert!(on_screen(tree.position));
        let scale = tree.sprite_animator.scale;
        assert!((10_000..15_000).contains(&scale));
        assert_eq!(tree.size, Vec2i::new(32 * scale as i64, 48 * scale as i64));
        assert!(tree.sprite_animator.current_frame < 3);
    }
    let man = &s.entities[NUM_TREES + 2];
    assert_eq!(man.entity_type, EntityType::Man);
    assert_eq!(man.position, Vec2i::new(SCREEN_WIDTH / 2, SCREEN_HEIGHT / 2));
    assert_eq!(man.follows, Some(1));
    assert!(s.entities.iter().all(|e| e.active));
}

#[test]
fn new_world_runs_frames() {
    let sprites = catalog();
    let mut s = new_world(&sprites);
    let mut sounds = vec![];
    for _ in 0..200 {
        step(&mut s, &sprites, &FrameInput { dt: 7_000, primary_down: true }, &mut sounds);
    }
    assert!(s.entities.len() >= NUM_TREES + 3);
    assert_eq!(s.entities[0].entity_type, EntityType::Reticle);
    assert!(s.entities.iter().all(|e| e.active));
}

#[test]
fn inactive_entities_take_no_part() {
    let sprites = catalog();
    let mut s = new_world(&sprites);
    let apple_at = s.entities[1].position;
    let mut man = s.entities[NUM_TREES + 2];
    man.position = apple_at;
    man.active = false;
    s.add_entity(man);
    assert_eq!(find_man_touching_apple(&s), None);

    let tree_at = s.entities[2].position;
    s.entities[0].position = Vec2i::new(tree_at.x, tree_at.y - 1_000);
    for e in s.entities[2..NUM_TREES + 2].iter_mut() {
        e.active = false;
    }
    let mut sounds = vec![];
    determine_reticle_sprite(&mut s, true, 10_000, &mut sounds);
    assert_eq!(s.entities[0].sprite_animator.sprite, Sprite::Reticle);
}

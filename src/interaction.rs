use vstd::prelude::*;
use crate::audio::SoundEffect;
use crate::entity::{bounds_of, Entity, EntityType};
use crate::geometry::{boxes_intersect, Vec2i};
use crate::random::random_in;
use crate::settings::{ENTITY_LIMIT, SCREEN_HEIGHT, SCREEN_WIDTH, UNIT};
use crate::sprite::{switched, Sprite, SpriteAnimator};
use crate::state::{all_wf, State, APPLE_SLOT, CHOP_COOLDOWN, RETICLE_SLOT};

verus! {

/// Smallest render scale of a new man, in thousandths.
pub const MAN_MIN_SCALE: u64 = 4000;

/// Render scales of new men stay below this, in thousandths.
pub const MAN_MAX_SCALE: u64 = 10_000;

/// Width of a man at unit scale, in world units.
pub const MAN_BASE_WIDTH: i64 = 2;

/// Height of a man at unit scale, in world units.
pub const MAN_BASE_HEIGHT: i64 = 4;

/// Hit points of a spawned man or log.
pub const SPAWN_HP: i64 = 10;

/// A point on the screen.
pub open spec fn on_screen(p: Vec2i) -> bool {
    0 <= p.x < SCREEN_WIDTH && 0 <= p.y < SCREEN_HEIGHT
}

pub open spec fn is_man(e: Entity) -> bool {
    e.active && e.entity_type == EntityType::Man
}

/// Entity `i` is an active man whose box overlaps that of the active apple.
pub open spec fn touches_apple(s: Seq<Entity>, i: int) -> bool {
    &&& 0 <= i < s.len()
    &&& APPLE_SLOT < s.len()
    &&& is_man(s[i])
    &&& s[APPLE_SLOT as int].active
    &&& boxes_intersect(bounds_of(s[i]), bounds_of(s[APPLE_SLOT as int]))
}

pub open spec fn apple_touched(s: Seq<Entity>) -> bool {
    exists|i: int| touches_apple(s, i)
}

/// Slot of the last active man among the first `n` entities, or -1.
pub open spec fn last_man_before(s: Seq<Entity>, n: int) -> int
    decreases n,
{
    if n <= 0 {
        -1
    } else if is_man(s[n - 1]) {
        n - 1
    } else {
        last_man_before(s, n - 1)
    }
}

/// A man that joins the chain behind the man in `slot`, at its position.
pub open spec fn new_follower(leader: Entity, slot: int, scale: u64) -> Entity {
    Entity {
        entity_type: EntityType::Man,
        position: leader.position,
        size: Vec2i { x: (MAN_BASE_WIDTH * scale) as i64, y: (MAN_BASE_HEIGHT * scale) as i64 },
        velocity: Vec2i::spec_zero(),
        sprite_animator: SpriteAnimator { sprite: Sprite::ManIdle, current_frame: 0, current_time: 0, scale },
        follows: Some(slot as usize),
        hp: SPAWN_HP,
        friction: None,
        expire_in: None,
        active: true,
    }
}

/// The store after the apple check, given the scale drawn for a new man and
/// the new place of the apple: when a man touches the apple, a new man
/// follows the last man and the apple moves; otherwise nothing changes.
pub open spec fn fed(s: Seq<Entity>, scale: u64, apple_position: Vec2i) -> Seq<Entity> {
    if apple_touched(s) {
        let m = last_man_before(s, s.len() as int);
        s.update(APPLE_SLOT as int, Entity { position: apple_position, ..s[APPLE_SLOT as int] }).push(
            new_follower(s[m], m, scale),
        )
    } else {
        s
    }
}

pub open spec fn feed_sounds(s: Seq<Entity>) -> Seq<SoundEffect> {
    if apple_touched(s) {
        seq![SoundEffect::UiConfirm]
    } else {
        seq![]
    }
}

/// The outcomes of the apple check whatever scale and place were drawn.
pub open spec fn feed_outcome(s: Seq<Entity>, s2: Seq<Entity>) -> bool {
    exists|scale: u64, p: Vec2i|
        MAN_MIN_SCALE <= scale < MAN_MAX_SCALE && on_screen(p) && s2 == #[trigger] fed(s, scale, p)
}

/// Whatever the draws, the apple check adds at most one entity: when a man
/// touches the apple, exactly one new man, placed at the last man's position
/// and following that man, and the apple moves to the drawn place; otherwise
/// the store is unchanged.
pub proof fn lemma_feeding_adds_one_man(s: Seq<Entity>, scale: u64, p: Vec2i)
    ensures
        apple_touched(s) ==> {
            let s2 = fed(s, scale, p);
            let m = last_man_before(s, s.len() as int);
            &&& s2.len() == s.len() + 1
            &&& 0 <= m < s.len()
            &&& s2[s.len() as int].entity_type == EntityType::Man
            &&& s2[s.len() as int].follows == Some(m as usize)
            &&& s2[s.len() as int].position == s[m].position
            &&& s2[APPLE_SLOT as int].position == p
        },
        !apple_touched(s) ==> fed(s, scale, p) == s,
{
    if apple_touched(s) {
        let i = choose|i: int| touches_apple(s, i);
        lemma_last_man_bounds(s, s.len() as int);
        assert(last_man_before(s, s.len() as int) >= i);
    }
}

proof fn lemma_last_man_bounds(s: Seq<Entity>, n: int)
    requires
        0 <= n <= s.len(),
    ensures
        -1 <= last_man_before(s, n) < n,
        last_man_before(s, n) >= 0 ==> is_man(s[last_man_before(s, n)]),
        forall|i: int| last_man_before(s, n) < i < n ==> !is_man(#[trigger] s[i]),
    decreases n,
{
    if n > 0 {
        lemma_last_man_bounds(s, n - 1);
    }
}

/// The first man that touches the apple, if any.
pub fn find_man_touching_apple(state: &State) -> (r: Option<usize>)
    requires
        state.wf(),
        state.entities@.len() > APPLE_SLOT,
    ensures
        r.is_some() == apple_touched(state.entities@),
        r.is_some() ==> touches_apple(state.entities@, r.unwrap() as int),
        r.is_some() ==> forall|j: int| 0 <= j < r.unwrap() ==> !touches_apple(state.entities@, j),
{
    let n = state.entities.len();
    let apple = state.entities[APPLE_SLOT];
    assert(state.entities@[APPLE_SLOT as int].wf());
    if !apple.active {
        return None;
    }
    let apple_bounds = apple.get_bounds();
    let mut i: usize = 0;
    while i < n
        invariant
            n == state.entities@.len(),
            state.wf(),
            APPLE_SLOT < n,
            apple == state.entities@[APPLE_SLOT as int],
            apple.active,
            apple_bounds == bounds_of(apple),
            i <= n,
            forall|j: int| 0 <= j < i ==> !touches_apple(state.entities@, j),
        decreases n - i,
    {
        let e = &state.entities[i];
        assert(state.entities@[i as int].wf());
        if e.active && e.entity_type == EntityType::Man && e.get_bounds().intersects(&apple_bounds) {
            assert(touches_apple(state.entities@, i as int));
            return Some(i);
        }
        i = i + 1;
    }
    None
}

fn find_last_man(entities: &Vec<Entity>) -> (r: Option<usize>)
    ensures
        match r {
            Some(m) => m == last_man_before(entities@, entities@.len() as int),
            None => last_man_before(entities@, entities@.len() as int) == -1,
        },
{
    let mut i: usize = entities.len();
    while i > 0
        invariant
            i <= entities@.len(),
            last_man_before(entities@, entities@.len() as int) == last_man_before(entities@, i as int),
        decreases i,
    {
        if entities[i - 1].active && entities[i - 1].entity_type == EntityType::Man {
            return Some(i - 1);
        }
        i = i - 1;
    }
    None
}

/// The apple check with a given scale for the new man and a given new place
/// for the apple. Returns whether a man touched the apple.
pub fn feed_man_chain(
    state: &mut State,
    scale: u64,
    apple_position: Vec2i,
    sounds: &mut Vec<SoundEffect>,
) -> (eaten: bool)
    requires
        old(state).wf(),
        APPLE_SLOT < old(state).entities@.len() < usize::MAX,
        scale < MAN_MAX_SCALE,
        apple_position.wf_position(),
    ensures
        final(state).wf(),
        eaten == apple_touched(old(state).entities@),
        final(state).entities@ == fed(old(state).entities@, scale, apple_position),
        final(state).chop_cooldown == old(state).chop_cooldown,
        final(sounds)@ == old(sounds)@ + feed_sounds(old(state).entities@),
{
    let found = find_man_touching_apple(state);
    if found.is_none() {
        assert(old(sounds)@ + feed_sounds(old(state).entities@) =~= old(sounds)@);
        return false;
    }
    sounds.push(SoundEffect::UiConfirm);
    let ghost s = old(state).entities@;
    proof {
        lemma_last_man_bounds(s, s.len() as int);
        assert(touches_apple(s, found.unwrap() as int));
        assert(last_man_before(s, s.len() as int) >= found.unwrap());
    }
    let m = match find_last_man(&state.entities) {
        Some(m) => m,
        None => {
            assert(false);
            0
        },
    };
    let leader = state.entities[m];
    let size = Vec2i { x: MAN_BASE_WIDTH * (scale as i64), y: MAN_BASE_HEIGHT * (scale as i64) };
    let man = Entity {
        entity_type: EntityType::Man,
        position: leader.position,
        size,
        velocity: Vec2i::zero(),
        sprite_animator: SpriteAnimator { sprite: Sprite::ManIdle, current_frame: 0, current_time: 0, scale },
        follows: Some(m),
        hp: SPAWN_HP,
        friction: None,
        expire_in: None,
        active: true,
    };
    let mut apple = state.entities[APPLE_SLOT];
    apple.position = apple_position;
    state.entities[APPLE_SLOT] = apple;
    assert(s[m as int].wf());
    assert(s[APPLE_SLOT as int].wf());
    state.entities.push(man);
    assert(all_wf(state.entities@)) by {
        assert forall|j: int| 0 <= j < state.entities@.len() implies (#[trigger] state.entities@[j]).wf() by {
            if j < s.len() && j != APPLE_SLOT {
                assert(s[j].wf());
            }
        }
    }
    assert(sounds@ =~= old(sounds)@ + feed_sounds(s));
    assert(state.entities@ =~= fed(s, scale, apple_position));
    true
}

/// Draws a point on the screen.
fn random_screen_position() -> (r: Vec2i)
    ensures
        on_screen(r),
{
    Vec2i { x: random_in(0, SCREEN_WIDTH), y: random_in(0, SCREEN_HEIGHT) }
}

/// The apple check: when a man touches the apple, a new man of random scale
/// joins the end of the chain and the apple moves to a random place.
pub fn do_touch_apple(state: &mut State, sounds: &mut Vec<SoundEffect>)
    requires
        old(state).wf(),
        APPLE_SLOT < old(state).entities@.len() < usize::MAX,
    ensures
        final(state).wf(),
        final(state).entities@.len() <= old(state).entities@.len() + 1,
        feed_outcome(old(state).entities@, final(state).entities@),
        final(state).chop_cooldown == old(state).chop_cooldown,
        final(sounds)@ == old(sounds)@ + feed_sounds(old(state).entities@),
{
    if find_man_touching_apple(state).is_none() {
        let p = Vec2i { x: 0, y: 0 };
        assert(state.entities@ == fed(old(state).entities@, MAN_MIN_SCALE, p));
        assert(sounds@ =~= old(sounds)@ + feed_sounds(old(state).entities@));
        return;
    }
    let scale = random_in(MAN_MIN_SCALE as i64, MAN_MAX_SCALE as i64) as u64;
    let position = random_screen_position();
    feed_man_chain(state, scale, position, sounds);
}

/// The axe animation frame on which a swing lands.
pub const IMPACT_FRAME: usize = 2;

/// Lifetime of a log, in microseconds.
pub const LOG_LIFETIME: u64 = 5_000_000;

/// Friction of a log, in thousandths per second.
pub const LOG_FRICTION: u32 = 500;

/// Width and height of a log.
pub const LOG_SIZE: i64 = 16_000;

/// Render scale of a log, in thousandths.
pub const LOG_SCALE: u64 = 6000;

/// Logs fly off sideways slower than this, in world units per second.
pub const LOG_MAX_SPEED_X: i64 = 30;

/// Logs fly off vertically slower than this, in world units per second.
pub const LOG_MAX_SPEED_Y: i64 = 5;

/// Entity `i` is an active tree under the active reticle.
pub open spec fn chop_target(s: Seq<Entity>, i: int) -> bool {
    &&& 1 <= i < s.len()
    &&& s[RETICLE_SLOT as int].active
    &&& s[i].active
    &&& s[i].entity_type == EntityType::Tree
    &&& boxes_intersect(bounds_of(s[RETICLE_SLOT as int]), bounds_of(s[i]))
}

pub open spec fn over_tree(s: Seq<Entity>) -> bool {
    exists|i: int| chop_target(s, i)
}

/// The reticle sprite: plain away from trees, an idle axe over a tree, a
/// swinging axe over a tree while the button is held.
pub open spec fn reticle_sprite(over: bool, clicking: bool) -> Sprite {
    if !over {
        Sprite::Reticle
    } else if clicking {
        Sprite::AxeCutting
    } else {
        Sprite::AxeIdle
    }
}

pub open spec fn aimed_reticle(s: Seq<Entity>, clicking: bool) -> Entity {
    let r = s[RETICLE_SLOT as int];
    if r.active {
        Entity { sprite_animator: switched(r.sprite_animator, reticle_sprite(over_tree(s), clicking)), ..r }
    } else {
        r
    }
}

/// A swing lands: over a tree, button held, the axe on its impact frame, and
/// the cooldown spent.
pub open spec fn chops(s: Seq<Entity>, clicking: bool, cooldown: u64) -> bool {
    &&& over_tree(s)
    &&& clicking
    &&& aimed_reticle(s, clicking).sprite_animator.current_frame == IMPACT_FRAME
    &&& cooldown == 0
}

/// The cooldown after the frame: reset by a landing swing, then reduced by
/// the frame time, never below zero.
pub open spec fn cooldown_after(s: Seq<Entity>, clicking: bool, cooldown: u64, dt: u64) -> u64 {
    let c = if chops(s, clicking, cooldown) { CHOP_COOLDOWN } else { cooldown };
    if c > dt {
        (c - dt) as u64
    } else {
        0
    }
}

pub open spec fn chop_sounds(s: Seq<Entity>, clicking: bool, cooldown: u64) -> Seq<SoundEffect> {
    if chops(s, clicking, cooldown) {
        seq![SoundEffect::BaseballBatSwing]
    } else {
        seq![]
    }
}

/// A tree that takes a hit loses one hit point, unless it has none left.
pub open spec fn damaged(e: Entity) -> Entity {
    if e.hp > 0 {
        Entity { hp: (e.hp - 1) as i64, ..e }
    } else {
        e
    }
}

/// Entity `i` (of those present before the swing) after the reticle pass.
pub open spec fn after_swing(s: Seq<Entity>, clicking: bool, cooldown: u64, i: int) -> Entity {
    if i == RETICLE_SLOT {
        aimed_reticle(s, clicking)
    } else if chops(s, clicking, cooldown) && chop_target(s, i) {
        damaged(s[i])
    } else {
        s[i]
    }
}

/// A log velocity: whole world units per second, below the log speeds.
pub open spec fn log_velocity_ok(v: Vec2i) -> bool {
    &&& (v.x as int) % (UNIT as int) == 0
    &&& (v.y as int) % (UNIT as int) == 0
    &&& -LOG_MAX_SPEED_X * UNIT <= v.x < LOG_MAX_SPEED_X * UNIT
    &&& -LOG_MAX_SPEED_Y * UNIT <= v.y < LOG_MAX_SPEED_Y * UNIT
}

pub open spec fn log_entity(at: Vec2i, velocity: Vec2i) -> Entity {
    Entity {
        entity_type: EntityType::Log,
        position: at,
        size: Vec2i { x: LOG_SIZE, y: LOG_SIZE },
        velocity,
        sprite_animator: SpriteAnimator { sprite: Sprite::Log, current_frame: 0, current_time: 0, scale: LOG_SCALE },
        follows: None,
        hp: SPAWN_HP,
        friction: Some(LOG_FRICTION),
        expire_in: Some(LOG_LIFETIME),
        active: true,
    }
}

/// The logs thrown off the chopped trees among the first `n` entities, tree
/// by tree in store order, with `draws[t]` the velocities drawn for tree `t`.
pub open spec fn thrown_logs(s: Seq<Entity>, draws: Seq<Seq<Vec2i>>, n: int) -> Seq<Entity>
    decreases n,
{
    if n <= 0 {
        seq![]
    } else {
        thrown_logs(s, draws, n - 1) + if chop_target(s, n - 1) {
            draws[n - 1].map_values(|v: Vec2i| log_entity(s[n - 1].position, v))
        } else {
            seq![]
        }
    }
}

/// Velocity draws of the kind the reticle pass makes: two or three log
/// velocities for each tree under the reticle.
pub open spec fn draws_ok(s: Seq<Entity>, draws: Seq<Seq<Vec2i>>) -> bool {
    &&& draws.len() == s.len()
    &&& forall|t: int|
        0 <= t < s.len() && #[trigger] chop_target(s, t) ==> {
            &&& 2 <= draws[t].len() <= 3
            &&& forall|k: int| 0 <= k < draws[t].len() ==> log_velocity_ok(#[trigger] draws[t][k])
        }
}

/// The store after the reticle pass, given the log velocities drawn: the
/// reticle takes its sprite; a landing swing damages each tree under the
/// reticle and appends its logs; nothing else changes.
pub open spec fn swung(s: Seq<Entity>, clicking: bool, cooldown: u64, draws: Seq<Seq<Vec2i>>) -> Seq<Entity> {
    Seq::new(s.len(), |i: int| after_swing(s, clicking, cooldown, i)) + if chops(s, clicking, cooldown) {
        thrown_logs(s, draws, s.len() as int)
    } else {
        seq![]
    }
}

/// The outcomes of the reticle pass whatever log velocities were drawn.
pub open spec fn swing_outcome(s: Seq<Entity>, s2: Seq<Entity>, clicking: bool, cooldown: u64) -> bool {
    exists|draws: Seq<Seq<Vec2i>>| draws_ok(s, draws) && s2 == #[trigger] swung(s, clicking, cooldown, draws)
}

/// Draws the velocities of the two or three logs a chopped tree throws off.
pub fn random_log_velocities() -> (r: Vec<Vec2i>)
    ensures
        2 <= r@.len() <= 3,
        forall|k: int| 0 <= k < r@.len() ==> log_velocity_ok(#[trigger] r@[k]),
{
    let count = random_in(2, 4);
    let mut r: Vec<Vec2i> = Vec::new();
    let mut k: i64 = 0;
    while k < count
        invariant
            2 <= count <= 3,
            0 <= k <= count,
            r@.len() == k,
            forall|j: int| 0 <= j < r@.len() ==> log_velocity_ok(#[trigger] r@[j]),
        decreases count - k,
    {
        let vx = random_in(-LOG_MAX_SPEED_X, LOG_MAX_SPEED_X);
        let vy = random_in(-LOG_MAX_SPEED_Y, LOG_MAX_SPEED_Y);
        let v = Vec2i { x: vx * UNIT, y: vy * UNIT };
        assert(((vx as int) * 1000) % 1000 == 0) by (nonlinear_arith);
        assert(((vy as int) * 1000) % 1000 == 0) by (nonlinear_arith);
        r.push(v);
        k = k + 1;
    }
    r
}

/// Appends one log at `at` for each of the given velocities, in order.
pub fn spawn_logs(state: &mut State, at: Vec2i, velocities: &Vec<Vec2i>)
    requires
        old(state).entities@.len() + velocities@.len() <= usize::MAX,
    ensures
        final(state).entities@ == old(state).entities@ + velocities@.map_values(|v: Vec2i| log_entity(at, v)),
        final(state).chop_cooldown == old(state).chop_cooldown,
{
    let mut k: usize = 0;
    while k < velocities.len()
        invariant
            k <= velocities@.len(),
            old(state).entities@.len() + velocities@.len() <= usize::MAX,
            state.chop_cooldown == old(state).chop_cooldown,
            state.entities@ == old(state).entities@ + velocities@.subrange(0, k as int).map_values(
                |v: Vec2i| log_entity(at, v),
            ),
        decreases velocities@.len() - k,
    {
        let log = Entity {
            entity_type: EntityType::Log,
            position: at,
            size: Vec2i { x: LOG_SIZE, y: LOG_SIZE },
            velocity: velocities[k],
            sprite_animator: SpriteAnimator { sprite: Sprite::Log, current_frame: 0, current_time: 0, scale: LOG_SCALE },
            follows: None,
            hp: SPAWN_HP,
            friction: Some(LOG_FRICTION),
            expire_in: Some(LOG_LIFETIME),
            active: true,
        };
        state.entities.push(log);
        assert(velocities@.subrange(0, k as int + 1) =~= velocities@.subrange(0, k as int).push(velocities@[k as int]));
        k = k + 1;
        assert(state.entities@ =~= old(state).entities@ + velocities@.subrange(0, k as int).map_values(
            |v: Vec2i| log_entity(at, v),
        ));
    }
    assert(velocities@.subrange(0, k as int) =~= velocities@);
}

fn is_chop_target(entities: &Vec<Entity>, i: usize) -> (r: bool)
    requires
        1 <= i < entities@.len(),
        entities@[RETICLE_SLOT as int].wf(),
        entities@[i as int].wf(),
    ensures
        r == chop_target(entities@, i as int),
{
    let reticle = &entities[RETICLE_SLOT];
    let e = &entities[i];
    reticle.active && e.active && e.entity_type == EntityType::Tree && reticle.get_bounds().intersects(
        &e.get_bounds(),
    )
}

fn reticle_over_tree(entities: &Vec<Entity>) -> (r: bool)
    requires
        entities@.len() > RETICLE_SLOT,
        all_wf(entities@),
    ensures
        r == over_tree(entities@),
{
    let mut i: usize = 1;
    while i < entities.len()
        invariant
            1 <= i <= entities@.len(),
            all_wf(entities@),
            forall|j: int| 0 <= j < i ==> !chop_target(entities@, j),
        decreases entities@.len() - i,
    {
        assert(entities@[RETICLE_SLOT as int].wf() && entities@[i as int].wf());
        if is_chop_target(entities, i) {
            return true;
        }
        i = i + 1;
    }
    false
}

/// The logs of the first `n` entities depend only on the first `n` draws.
proof fn lemma_thrown_logs_prefix(s: Seq<Entity>, d1: Seq<Seq<Vec2i>>, d2: Seq<Seq<Vec2i>>, n: int)
    requires
        0 <= n <= d1.len(),
        n <= d2.len(),
        forall|t: int| 0 <= t < n ==> d1[t] == d2[t],
    ensures
        thrown_logs(s, d1, n) == thrown_logs(s, d2, n),
    decreases n,
{
    if n > 0 {
        lemma_thrown_logs_prefix(s, d1, d2, n - 1);
    }
}

/// Logs thrown off a tree in range keep the store within range.
proof fn lemma_log_wf(at: Vec2i, v: Vec2i)
    requires
        at.wf_position(),
        log_velocity_ok(v),
    ensures
        log_entity(at, v).wf(),
{
}

/// The reticle pass: picks the reticle sprite from whether it is over a tree
/// and whether the button is held; a swing that lands on the impact frame
/// once the cooldown is spent damages every tree under the reticle and
/// throws logs off it. The cooldown runs down by the frame time.
pub fn determine_reticle_sprite(state: &mut State, clicking: bool, dt: u64, sounds: &mut Vec<SoundEffect>)
    requires
        old(state).wf(),
        RETICLE_SLOT < old(state).entities@.len() <= ENTITY_LIMIT,
    ensures
        swing_outcome(old(state).entities@, final(state).entities@, clicking, old(state).chop_cooldown),
        final(state).chop_cooldown == cooldown_after(old(state).entities@, clicking, old(state).chop_cooldown, dt),
        final(sounds)@ == old(sounds)@ + chop_sounds(old(state).entities@, clicking, old(state).chop_cooldown),
        final(state).wf(),
        final(state).entities@.len() <= 4 * old(state).entities@.len(),
{
    let ghost s0 = old(state).entities@;
    let ghost c0 = old(state).chop_cooldown;
    let n = state.entities.len();
    let over = reticle_over_tree(&state.entities);
    let mut reticle = state.entities[RETICLE_SLOT];
    let mut chop = false;
    if reticle.active {
        let sprite = if !over {
            Sprite::Reticle
        } else if clicking {
            Sprite::AxeCutting
        } else {
            Sprite::AxeIdle
        };
        reticle.sprite_animator.set_sprite(sprite);
        state.entities[RETICLE_SLOT] = reticle;
        chop = over && clicking && reticle.sprite_animator.current_frame == IMPACT_FRAME && state.chop_cooldown == 0;
    }
    assert(chop == chops(s0, clicking, c0));
    assert(state.entities@[RETICLE_SLOT as int] == aimed_reticle(s0, clicking));
    assert(bounds_of(state.entities@[RETICLE_SLOT as int]) == bounds_of(s0[RETICLE_SLOT as int]));
    assert(s0[RETICLE_SLOT as int].wf());
    let ghost mut draws: Seq<Seq<Vec2i>> = seq![seq![]];
    if chop {
        state.chop_cooldown = CHOP_COOLDOWN;
        sounds.push(SoundEffect::BaseballBatSwing);
        let mut i: usize = 1;
        assert(thrown_logs(s0, draws, 0) == Seq::<Entity>::empty());
        assert(thrown_logs(s0, draws, 1) =~= Seq::<Entity>::empty());
        assert(state.entities@.subrange(n as int, state.entities@.len() as int) =~= Seq::<Entity>::empty());
        while i < n
            invariant
                n == s0.len(),
                s0 == old(state).entities@,
                all_wf(s0),
                n <= ENTITY_LIMIT,
                chops(s0, clicking, c0),
                1 <= i <= n,
                n <= state.entities@.len() <= n + 3 * i,
                draws.len() == i,
                forall|t: int|
                    0 <= t < i && #[trigger] chop_target(s0, t) ==> {
                        &&& 2 <= draws[t].len() <= 3
                        &&& forall|k: int| 0 <= k < draws[t].len() ==> log_velocity_ok(#[trigger] draws[t][k])
                    },
                state.entities@.subrange(n as int, state.entities@.len() as int) == thrown_logs(s0, draws, i as int),
                state.entities@[RETICLE_SLOT as int] == aimed_reticle(s0, clicking),
                forall|j: int| 1 <= j < i ==> state.entities@[j] == #[trigger] after_swing(s0, clicking, c0, j),
                forall|j: int| i <= j < n ==> state.entities@[j] == s0[j],
                all_wf(state.entities@),
                state.chop_cooldown == CHOP_COOLDOWN,
                sounds@ == old(sounds)@ + chop_sounds(s0, clicking, c0),
            decreases n - i,
        {
            proof {
                assert(state.entities@[RETICLE_SLOT as int].wf());
                assert(state.entities@[i as int].wf());
                assert(bounds_of(aimed_reticle(s0, clicking)) == bounds_of(s0[RETICLE_SLOT as int]));
            }
            let target = is_chop_target(&state.entities, i);
            assert(target == chop_target(s0, i as int));
            let ghost old_draws = draws;
            if target {
                let mut tree = state.entities[i];
                if tree.hp > 0 {
                    tree.hp = tree.hp - 1;
                }
                state.entities[i] = tree;
                assert(state.entities@[i as int] == after_swing(s0, clicking, c0, i as int));
                let velocities = random_log_velocities();
                let ghost before = state.entities@;
                spawn_logs(state, tree.position, &velocities);
                proof {
                    draws = draws.push(velocities@);
                    assert(thrown_logs(s0, draws, i as int) == thrown_logs(s0, old_draws, i as int)) by {
                        lemma_thrown_logs_prefix(s0, old_draws, draws, i as int);
                    }
                    assert(state.entities@.subrange(n as int, state.entities@.len() as int) =~= before.subrange(
                        n as int,
                        before.len() as int,
                    ) + velocities@.map_values(|v: Vec2i| log_entity(s0[i as int].position, v)));
                    assert forall|j: int| 0 <= j < state.entities@.len() implies (
                    #[trigger] state.entities@[j]).wf() by {
                        if j >= before.len() {
                            let v = velocities@[j - before.len()];
                            assert(s0[i as int].wf());
                            lemma_log_wf(tree.position, v);
                        } else {
                            assert(state.entities@[j] == before[j]);
                            if j == i {
                                assert(s0[i as int].wf());
                            }
                        }
                    }
                }
            } else {
                assert(state.entities@[i as int] == after_swing(s0, clicking, c0, i as int));
                proof {
                    draws = draws.push(seq![]);
                    lemma_thrown_logs_prefix(s0, old_draws, draws, i as int);
                    assert(thrown_logs(s0, draws, i + 1) =~= thrown_logs(s0, draws, i as int));
                }
            }
            i = i + 1;
        }
        assert(state.entities@ =~= swung(s0, clicking, c0, draws));
    } else {
        proof {
            draws = Seq::new(n as nat, |t: int| seq![Vec2i::spec_zero(), Vec2i::spec_zero()]);
        }
        assert(sounds@ =~= old(sounds)@ + chop_sounds(s0, clicking, c0));
        assert(state.entities@ =~= swung(s0, clicking, c0, draws));
        assert forall|j: int| 0 <= j < state.entities@.len() implies (#[trigger] state.entities@[j]).wf() by {
            assert(s0[j].wf());
        }
    }
    assert(draws_ok(s0, draws));
    if state.chop_cooldown > dt {
        state.chop_cooldown = state.chop_cooldown - dt;
    } else {
        state.chop_cooldown = 0;
    }
}

} // verus!

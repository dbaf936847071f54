use vstd::prelude::*;
use vstd::arithmetic::div_mod::{
    lemma_add_mod_noop, lemma_mod_add_multiples_vanish, lemma_mod_bound, lemma_mod_sub_multiples_vanish,
    lemma_mod_twice, lemma_small_mod,
};
use crate::entity::Entity;
use crate::geometry::{div_toward_zero, lemma_scale_bound, trunc_div, Vec2i};
use crate::settings::{MAX_FRAME_TIME, POSITION_LIMIT, SCREEN_HEIGHT, SCREEN_WIDTH, SECOND, SPEED_LIMIT};
use crate::state::{all_wf, State};

verus! {

/// Denominator of a friction factor: friction (thousandths per second)
/// times frame time (microseconds).
pub const FRICTION_SCALE: i64 = 1_000_000_000;

/// Below this speed (one world unit per second) a damped entity stops.
pub const STOP_SPEED: i64 = 1000;

/// A velocity component scaled by `1 - f * dt`, rounded toward zero.
pub open spec fn damped_component(c: int, f: int, dt: int) -> int {
    trunc_div(c * (FRICTION_SCALE - f * dt), FRICTION_SCALE as int)
}

/// A velocity after one frame of friction `f`: scaled by `max(0, 1 - f * dt)`,
/// and snapped to zero once slower than `STOP_SPEED`.
pub open spec fn damped(v: Vec2i, f: int, dt: int) -> Vec2i {
    if f * dt >= FRICTION_SCALE {
        Vec2i::spec_zero()
    } else {
        let w = Vec2i {
            x: damped_component(v.x as int, f, dt) as i64,
            y: damped_component(v.y as int, f, dt) as i64,
        };
        if w.len2() < STOP_SPEED * STOP_SPEED {
            Vec2i::spec_zero()
        } else {
            w
        }
    }
}

pub open spec fn with_friction(e: Entity, dt: int) -> Entity {
    if e.active && e.friction.is_some() {
        Entity { velocity: damped(e.velocity, e.friction.unwrap() as int, dt), ..e }
    } else {
        e
    }
}

/// Distance covered in `dt` microseconds at velocity `v`, rounded toward zero.
pub open spec fn displacement(v: int, dt: int) -> int {
    trunc_div(v * dt, SECOND as int)
}

pub open spec fn integrated(e: Entity, dt: int) -> Entity {
    if e.active {
        Entity {
            position: Vec2i {
                x: (e.position.x + displacement(e.velocity.x as int, dt)) as i64,
                y: (e.position.y + displacement(e.velocity.y as int, dt)) as i64,
            },
            ..e
        }
    } else {
        e
    }
}

/// A coordinate brought back into `[0, w)` by one addition or subtraction of
/// `w`, when it lies outside.
pub open spec fn wrap_coord(p: int, w: int) -> int {
    if p < 0 {
        p + w
    } else if p >= w {
        p - w
    } else {
        p
    }
}

pub open spec fn wrapped(e: Entity) -> Entity {
    if e.active {
        Entity {
            position: Vec2i {
                x: wrap_coord(e.position.x as int, SCREEN_WIDTH as int) as i64,
                y: wrap_coord(e.position.y as int, SCREEN_HEIGHT as int) as i64,
            },
            ..e
        }
    } else {
        e
    }
}

/// An entity after the three movement passes of a frame.
pub open spec fn moved(e: Entity, dt: int) -> Entity {
    wrapped(integrated(with_friction(e, dt), dt))
}

fn damp_velocity(v: Vec2i, f: u32, dt: u64) -> (r: Vec2i)
    requires
        -SPEED_LIMIT <= v.x <= SPEED_LIMIT,
        -SPEED_LIMIT <= v.y <= SPEED_LIMIT,
        dt <= MAX_FRAME_TIME,
    ensures
        r == damped(v, f as int, dt as int),
        -SPEED_LIMIT <= r.x <= SPEED_LIMIT,
        -SPEED_LIMIT <= r.y <= SPEED_LIMIT,
{
    assert((f as int) * (dt as int) <= 0xFFFF_FFFFint * 1_000_000int) by (nonlinear_arith)
        requires
            f <= 0xFFFF_FFFFu32,
            dt <= 1_000_000,
    ;
    assert((f as int) * (dt as int) >= 0) by (nonlinear_arith);
    let k: i64 = (f as i64) * (dt as i64);
    if k >= FRICTION_SCALE {
        return Vec2i::zero();
    }
    let num: i64 = FRICTION_SCALE - k;
    proof {
        lemma_scale_bound(v.x as int, num as int, FRICTION_SCALE as int);
        lemma_scale_bound(v.y as int, num as int, FRICTION_SCALE as int);
        assert(-1_000_000_000_000_000int <= (v.x as int) * (num as int) <= 1_000_000_000_000_000int) by (nonlinear_arith)
            requires
                -1_000_000 <= v.x <= 1_000_000,
                0 <= num <= 1_000_000_000,
        ;
        assert(-1_000_000_000_000_000int <= (v.y as int) * (num as int) <= 1_000_000_000_000_000int) by (nonlinear_arith)
            requires
                -1_000_000 <= v.y <= 1_000_000,
                0 <= num <= 1_000_000_000,
        ;
    }
    let w = Vec2i {
        x: div_toward_zero(v.x * num, FRICTION_SCALE),
        y: div_toward_zero(v.y * num, FRICTION_SCALE),
    };
    assert(-1_000_000 <= w.x <= 1_000_000);
    assert(-1_000_000 <= w.y <= 1_000_000);
    if w.length_squared() < STOP_SPEED * STOP_SPEED {
        Vec2i::zero()
    } else {
        w
    }
}

pub fn apply_friction(state: &mut State, dt: u64)
    requires
        old(state).wf(),
        dt <= MAX_FRAME_TIME,
    ensures
        final(state).entities@ == old(state).entities@.map_values(|e: Entity| with_friction(e, dt as int)),
        final(state).chop_cooldown == old(state).chop_cooldown,
        final(state).wf(),
{
    let n = state.entities.len();
    let mut i: usize = 0;
    while i < n
        invariant
            n == old(state).entities@.len(),
            state.entities@.len() == n,
            state.chop_cooldown == old(state).chop_cooldown,
            old(state).wf(),
            dt <= MAX_FRAME_TIME,
            i <= n,
            forall|j: int| 0 <= j < i ==> state.entities@[j] == with_friction(old(state).entities@[j], dt as int),
            forall|j: int| i <= j < n ==> state.entities@[j] == old(state).entities@[j],
            all_wf(state.entities@),
        decreases n - i,
    {
        let mut e = state.entities[i];
        assert(old(state).entities@[i as int].wf());
        if e.active {
            if let Some(f) = e.friction {
                e.velocity = damp_velocity(e.velocity, f, dt);
            }
        }
        state.entities[i] = e;
        i = i + 1;
    }
    assert(state.entities@ =~= old(state).entities@.map_values(|e: Entity| with_friction(e, dt as int)));
}

fn displace(p: i64, v: i64, dt: u64) -> (r: i64)
    requires
        -POSITION_LIMIT <= p <= POSITION_LIMIT,
        -SPEED_LIMIT <= v <= SPEED_LIMIT,
        dt <= MAX_FRAME_TIME,
    ensures
        r == p + displacement(v as int, dt as int),
        -SPEED_LIMIT <= displacement(v as int, dt as int) <= SPEED_LIMIT,
{
    proof {
        lemma_scale_bound(v as int, dt as int, SECOND as int);
        assert(-1_000_000_000_000int <= (v as int) * (dt as int) <= 1_000_000_000_000int) by (nonlinear_arith)
            requires
                -1_000_000 <= v <= 1_000_000,
                0 <= dt <= 1_000_000,
        ;
    }
    p + div_toward_zero(v * (dt as i64), SECOND as i64)
}

pub fn step_positions(state: &mut State, dt: u64)
    requires
        old(state).wf(),
        dt <= MAX_FRAME_TIME,
    ensures
        final(state).entities@ == old(state).entities@.map_values(|e: Entity| integrated(e, dt as int)),
        final(state).chop_cooldown == old(state).chop_cooldown,
{
    let n = state.entities.len();
    let mut i: usize = 0;
    while i < n
        invariant
            n == old(state).entities@.len(),
            state.entities@.len() == n,
            state.chop_cooldown == old(state).chop_cooldown,
            old(state).wf(),
            dt <= MAX_FRAME_TIME,
            i <= n,
            forall|j: int| 0 <= j < i ==> state.entities@[j] == integrated(old(state).entities@[j], dt as int),
            forall|j: int| i <= j < n ==> state.entities@[j] == old(state).entities@[j],
        decreases n - i,
    {
        let mut e = state.entities[i];
        assert(old(state).entities@[i as int].wf());
        if e.active {
            e.position = Vec2i {
                x: displace(e.position.x, e.velocity.x, dt),
                y: displace(e.position.y, e.velocity.y, dt),
            };
        }
        state.entities[i] = e;
        i = i + 1;
    }
    assert(state.entities@ =~= old(state).entities@.map_values(|e: Entity| integrated(e, dt as int)));
}

fn wrap(p: i64, w: i64) -> (r: i64)
    requires
        w > 0,
    ensures
        r == wrap_coord(p as int, w as int),
{
    if p < 0 {
        p + w
    } else if p >= w {
        p - w
    } else {
        p
    }
}

pub fn wrap_around_screen(state: &mut State)
    ensures
        final(state).entities@ == old(state).entities@.map_values(|e: Entity| wrapped(e)),
        final(state).chop_cooldown == old(state).chop_cooldown,
{
    let n = state.entities.len();
    let mut i: usize = 0;
    while i < n
        invariant
            n == old(state).entities@.len(),
            state.entities@.len() == n,
            state.chop_cooldown == old(state).chop_cooldown,
            i <= n,
            forall|j: int| 0 <= j < i ==> state.entities@[j] == wrapped(old(state).entities@[j]),
            forall|j: int| i <= j < n ==> state.entities@[j] == old(state).entities@[j],
        decreases n - i,
    {
        let mut e = state.entities[i];
        if e.active {
            e.position = Vec2i { x: wrap(e.position.x, SCREEN_WIDTH), y: wrap(e.position.y, SCREEN_HEIGHT) };
        }
        state.entities[i] = e;
        i = i + 1;
    }
    assert(state.entities@ =~= old(state).entities@.map_values(|e: Entity| wrapped(e)));
}

/// The movement passes keep an entity within the simulation's ranges: one
/// frame moves it at most a screen's width, and wrapping takes it back.
pub proof fn lemma_moved_wf(e: Entity, dt: int)
    requires
        e.wf(),
        0 <= dt <= MAX_FRAME_TIME,
    ensures
        moved(e, dt).wf(),
        with_friction(e, dt).wf(),
{
    let f = with_friction(e, dt);
    if e.active && e.friction.is_some() {
        let k = e.friction.unwrap() as int;
        if k * dt < FRICTION_SCALE {
            assert(k * dt >= 0) by (nonlinear_arith)
                requires
                    k >= 0,
                    dt >= 0,
            ;
            lemma_scale_bound(e.velocity.x as int, FRICTION_SCALE - k * dt, FRICTION_SCALE as int);
            lemma_scale_bound(e.velocity.y as int, FRICTION_SCALE - k * dt, FRICTION_SCALE as int);
        }
    }
    assert(f.wf());
    lemma_scale_bound(f.velocity.x as int, dt, SECOND as int);
    lemma_scale_bound(f.velocity.y as int, dt, SECOND as int);
}

/// Over `k` frames of the movement passes.
pub open spec fn moved_frames(e: Entity, dt: int, k: nat) -> Entity
    decreases k,
{
    if k == 0 {
        e
    } else {
        moved(moved_frames(e, dt, (k - 1) as nat), dt)
    }
}

/// Without friction, `k` frames of movement carry an on-screen entity by `k`
/// times the distance of one frame (velocity times frame time, rounded toward
/// zero to the position grid), modulo the screen's dimensions; its velocity
/// does not change.
pub proof fn lemma_drift_over_frames(e: Entity, dt: int, k: nat)
    requires
        e.wf(),
        e.active,
        e.friction.is_none(),
        0 <= dt <= MAX_FRAME_TIME,
        0 <= e.position.x < SCREEN_WIDTH,
        0 <= e.position.y < SCREEN_HEIGHT,
    ensures
        moved_frames(e, dt, k).velocity == e.velocity,
        moved_frames(e, dt, k).position.x
            == (e.position.x + k * displacement(e.velocity.x as int, dt)) % (SCREEN_WIDTH as int),
        moved_frames(e, dt, k).position.y
            == (e.position.y + k * displacement(e.velocity.y as int, dt)) % (SCREEN_HEIGHT as int),
        moved_frames(e, dt, k) == (Entity { position: moved_frames(e, dt, k).position, ..e }),
    decreases k,
{
    let dx = displacement(e.velocity.x as int, dt);
    let dy = displacement(e.velocity.y as int, dt);
    lemma_scale_bound(e.velocity.x as int, dt, SECOND as int);
    lemma_scale_bound(e.velocity.y as int, dt, SECOND as int);
    if k == 0 {
        assert((e.position.x as int) % (SCREEN_WIDTH as int) == e.position.x) by {
            lemma_small_mod(e.position.x as nat, SCREEN_WIDTH as nat);
        }
        assert((e.position.y as int) % (SCREEN_HEIGHT as int) == e.position.y) by {
            lemma_small_mod(e.position.y as nat, SCREEN_HEIGHT as nat);
        }
    } else {
        let km1 = (k - 1) as nat;
        lemma_drift_over_frames(e, dt, km1);
        let prev = moved_frames(e, dt, km1);
        let w = SCREEN_WIDTH as int;
        let h = SCREEN_HEIGHT as int;
        let px = e.position.x + km1 * dx;
        let py = e.position.y + km1 * dy;
        lemma_mod_bound(px, w);
        lemma_mod_bound(py, h);
        lemma_wrap_mod(px, dx, w);
        lemma_wrap_mod(py, dy, h);
        assert(px + dx == e.position.x + k * dx) by (nonlinear_arith)
            requires
                px == e.position.x + km1 * dx,
                km1 + 1 == k,
        ;
        assert(py + dy == e.position.y + k * dy) by (nonlinear_arith)
            requires
                py == e.position.y + km1 * dy,
                km1 + 1 == k,
        ;
    }
}

/// Adding `d` (at most `w` in absolute value) to a coordinate in `[0, w)`
/// and wrapping once gives the sum modulo `w`.
proof fn lemma_wrap_mod(p: int, d: int, w: int)
    requires
        w > 0,
        -w <= d <= w,
    ensures
        wrap_coord(p % w + d, w) == (p + d) % w,
{
    lemma_mod_bound(p, w);
    let q = p % w + d;
    lemma_add_mod_noop(p, d, w);
    // (p + d) % w == (p % w + d % w) % w; relate to q % w
    lemma_add_mod_noop(p % w, d, w);
    lemma_mod_twice(p, w);
    if q < 0 {
        lemma_mod_add_multiples_vanish(q, w);
        lemma_small_mod((q + w) as nat, w as nat);
    } else if q >= w {
        lemma_mod_sub_multiples_vanish(q, w);
        lemma_small_mod((q - w) as nat, w as nat);
    } else {
        lemma_small_mod(q as nat, w as nat);
    }
}

/// Moves the reticle to the pointer.
pub fn place_reticle(state: &mut State, pointer: Vec2i)
    requires
        old(state).entities@.len() >= 1,
    ensures
        final(state).entities@ == old(state).entities@.update(0, Entity { position: pointer, ..old(state).entities@[0] }),
        final(state).chop_cooldown == old(state).chop_cooldown,
{
    let mut e = state.entities[0];
    e.position = pointer;
    state.entities[0] = e;
}

} // verus!

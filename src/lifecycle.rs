use vstd::prelude::*;
use crate::entity::Entity;
use crate::geometry::{
    div_toward_zero, floor_sqrt, isqrt, is_sqrt, length_squared, lemma_component_le_sqrt,
    lemma_trunc_div_bound, trunc_div, Vec2i,
};
use crate::state::{all_wf, State};

verus! {

/// Within this distance (ten world units) a follower holds position.
pub const FOLLOW_DISTANCE: i64 = 10_000;

/// Speed at which a follower closes in (a thousand world units per second).
pub const CHASE_SPEED: i64 = 1_000_000;

/// The velocity of a follower whose target lies at offset `(dx, dy)`: full
/// chase speed toward the target outside the dead band, rest within it.
pub open spec fn chase_velocity(dx: int, dy: int) -> Vec2i {
    let n = length_squared(dx, dy);
    if n > FOLLOW_DISTANCE * FOLLOW_DISTANCE {
        let r = floor_sqrt(n);
        Vec2i { x: trunc_div(dx * CHASE_SPEED, r) as i64, y: trunc_div(dy * CHASE_SPEED, r) as i64 }
    } else {
        Vec2i::spec_zero()
    }
}

/// Entity `i` of `s` after the following pass: the reticle slot is left
/// alone, a reference past the end of the store is cleared, and a follower
/// steers toward its target.
#[verifier::opaque]
pub open spec fn followed(s: Seq<Entity>, i: int) -> Entity {
    let e = s[i];
    if i >= 1 && e.active && e.follows.is_some() {
        let t = e.follows.unwrap() as int;
        if t >= s.len() {
            Entity { follows: None, ..e }
        } else {
            Entity {
                velocity: chase_velocity(
                    s[t].position.x - e.position.x,
                    s[t].position.y - e.position.y,
                ),
                ..e
            }
        }
    } else {
        e
    }
}

pub open spec fn following_all(s: Seq<Entity>) -> Seq<Entity> {
    Seq::new(s.len(), |i: int| followed(s, i))
}

fn chase(from: Vec2i, to: Vec2i) -> (r: Vec2i)
    requires
        from.wf_position(),
        to.wf_position(),
    ensures
        r == chase_velocity(to.x - from.x, to.y - from.y),
        -CHASE_SPEED <= r.x <= CHASE_SPEED,
        -CHASE_SPEED <= r.y <= CHASE_SPEED,
{
    let d = Vec2i { x: to.x - from.x, y: to.y - from.y };
    let n = d.length_squared();
    if n > FOLLOW_DISTANCE * FOLLOW_DISTANCE {
        let r = isqrt(n as u64);
        proof {
            lemma_component_le_sqrt(d.x as int, d.y as int, r as int);
            assert(r > 0) by (nonlinear_arith)
                requires
                    is_sqrt(n as int, r as int),
                    n > 100_000_000,
            ;
            let c = CHASE_SPEED as int;
            assert(-(c * r) <= d.x * c <= c * r && -(c * r) <= d.y * c <= c * r) by (nonlinear_arith)
                requires
                    -r <= d.x <= r,
                    -r <= d.y <= r,
                    c >= 0,
            ;
            lemma_trunc_div_bound(d.x * c, r as int, c);
            lemma_trunc_div_bound(d.y * c, r as int, c);
            assert(-2_000_000_000_000_000int <= d.x * c <= 2_000_000_000_000_000int) by (nonlinear_arith)
                requires
                    -2_000_000_000 <= d.x <= 2_000_000_000,
                    c == 1_000_000,
            ;
            assert(-2_000_000_000_000_000int <= d.y * c <= 2_000_000_000_000_000int) by (nonlinear_arith)
                requires
                    -2_000_000_000 <= d.y <= 2_000_000_000,
                    c == 1_000_000,
            ;
        }
        Vec2i {
            x: div_toward_zero(d.x * CHASE_SPEED, r as i64),
            y: div_toward_zero(d.y * CHASE_SPEED, r as i64),
        }
    } else {
        Vec2i::zero()
    }
}

/// The following pass reads only the length of the store, the entity
/// itself and the positions of the others.
proof fn lemma_followed_reads(a: Seq<Entity>, b: Seq<Entity>, i: int)
    requires
        a.len() == b.len(),
        0 <= i < a.len(),
        a[i] == b[i],
        forall|j: int| 0 <= j < a.len() ==> a[j].position == b[j].position,
    ensures
        followed(a, i) == followed(b, i),
{
    reveal(followed);
}

fn follow_one(entities: &Vec<Entity>, i: usize) -> (r: Entity)
    requires
        1 <= i < entities@.len(),
        forall|j: int| 0 <= j < entities@.len() ==> (#[trigger] entities@[j]).position.wf_position(),
    ensures
        r == followed(entities@, i as int),
        r.position == entities@[i as int].position,
        entities@[i as int].wf() ==> r.wf(),
{
    reveal(followed);
    let mut e = entities[i];
    if e.active {
        if let Some(t) = e.follows {
            if t >= entities.len() {
                e.follows = None;
            } else {
                let target = entities[t].position;
                e.velocity = chase(e.position, target);
            }
        }
    }
    e
}

pub fn do_following(state: &mut State)
    requires
        old(state).wf(),
    ensures
        final(state).entities@ == following_all(old(state).entities@),
        final(state).chop_cooldown == old(state).chop_cooldown,
        final(state).wf(),
{
    let n = state.entities.len();
    if n == 0 {
        assert(state.entities@ =~= following_all(old(state).entities@));
        return;
    }
    let mut i: usize = 1;
    assert(followed(old(state).entities@, 0) == old(state).entities@[0]) by {
        reveal(followed);
    }
    while i < n
        invariant
            n == old(state).entities@.len(),
            state.entities@.len() == n,
            state.chop_cooldown == old(state).chop_cooldown,
            old(state).wf(),
            1 <= i <= n,
            forall|j: int| 0 <= j < i ==> state.entities@[j] == followed(old(state).entities@, j),
            forall|j: int| i <= j < n ==> state.entities@[j] == old(state).entities@[j],
            forall|j: int| 0 <= j < n ==> state.entities@[j].position == old(state).entities@[j].position,
            all_wf(state.entities@),
        decreases n - i,
    {
        proof {
            assert forall|j: int| 0 <= j < n implies (#[trigger] state.entities@[j]).position.wf_position() by {
                assert(old(state).entities@[j].wf());
            }
            lemma_followed_reads(state.entities@, old(state).entities@, i as int);
        }
        assert(state.entities@[i as int].wf());
        let e = follow_one(&state.entities, i);
        state.entities[i] = e;
        i = i + 1;
    }
    assert(state.entities@ =~= following_all(old(state).entities@));
}

pub open spec fn expired(e: Entity, dt: int) -> Entity {
    if e.active && e.expire_in.is_some() {
        let t = e.expire_in.unwrap() as int;
        if t <= dt {
            Entity { active: false, expire_in: None, ..e }
        } else {
            Entity { expire_in: Some((t - dt) as u64), ..e }
        }
    } else {
        e
    }
}

/// Counts down expiring entities; one whose time runs out within this frame
/// is deactivated and its countdown cleared.
pub fn step_expiring_entities(state: &mut State, dt: u64)
    ensures
        final(state).entities@ == old(state).entities@.map_values(|e: Entity| expired(e, dt as int)),
        final(state).chop_cooldown == old(state).chop_cooldown,
        old(state).wf() ==> final(state).wf(),
{
    let n = state.entities.len();
    let mut i: usize = 0;
    while i < n
        invariant
            n == old(state).entities@.len(),
            state.entities@.len() == n,
            state.chop_cooldown == old(state).chop_cooldown,
            i <= n,
            forall|j: int| 0 <= j < i ==> state.entities@[j] == expired(old(state).entities@[j], dt as int),
            forall|j: int| i <= j < n ==> state.entities@[j] == old(state).entities@[j],
            old(state).wf() ==> all_wf(state.entities@),
        decreases n - i,
    {
        let mut e = state.entities[i];
        if e.active {
            if let Some(t) = e.expire_in {
                if t <= dt {
                    e.active = false;
                    e.expire_in = None;
                } else {
                    e.expire_in = Some(t - dt);
                }
            }
        }
        state.entities[i] = e;
        i = i + 1;
    }
    assert(state.entities@ =~= old(state).entities@.map_values(|e: Entity| expired(e, dt as int)));
}

pub open spec fn is_active(e: Entity) -> bool {
    e.active
}

/// Removes every inactive entity, keeping the order of the others.
pub fn prune_inactive_entities(state: &mut State)
    ensures
        final(state).entities@ == old(state).entities@.filter(|e: Entity| is_active(e)),
        final(state).chop_cooldown == old(state).chop_cooldown,
        old(state).wf() ==> final(state).wf(),
{
    let ghost all = state.entities@;
    let n = state.entities.len();
    let mut kept: Vec<Entity> = Vec::new();
    let mut i: usize = 0;
    while i < n
        invariant
            n == all.len(),
            state.entities@ == all,
            i <= n,
            kept@ == all.subrange(0, i as int).filter(|e: Entity| is_active(e)),
            all_wf(all) ==> all_wf(kept@),
        decreases n - i,
    {
        let e = state.entities[i];
        proof {
            assert(all.subrange(0, i as int + 1) =~= all.subrange(0, i as int).push(e));
            all.subrange(0, i as int).lemma_filter_push(e, |e: Entity| is_active(e));
        }
        if e.active {
            kept.push(e);
        }
        assert(all_wf(all) ==> all[i as int].wf());
        i = i + 1;
    }
    assert(all.subrange(0, n as int) =~= all);
    state.entities = kept;
}

} // verus!

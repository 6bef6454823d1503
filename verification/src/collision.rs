//! The collision system: every tick, the ball's box is tested against
//! every collider's box.  Each overlap emits a collision notification and
//! conditionally reflects the ball; a struck enemy is destroyed, scores,
//! requests a sound cue and spawns a particle burst; a struck hazard emits
//! a game-over notification.  Every collider is processed independently,
//! so two colliders struck in the same tick may each reflect the ball —
//! that is the intended per-obstacle semantics, not a nearest-contact
//! resolution.
use vstd::prelude::*;

use crate::entity::{Entity, Kind, entity_wf, is_collider, particle_entity};
use crate::entity::{
    MAX_LIFE_SCORE, PARTICLE_MAX, PARTICLE_MIN, PARTICLE_OFFSET_X, PARTICLE_OFFSET_Y,
    SCORE_PER_ENEMY,
};
use crate::game::{Game, bump_counter, lemma_sat_bump_chain, sat_bump, wf};
use crate::geom::{Side, Vec2i, collide, collide_spec, in_pos_range, in_scale_range, in_vel_range,
    reflect, reflect_spec};
use crate::entity::collider_kind;
use crate::particles::spawn_particles;
use crate::store::{
    all_wf, count_kind, count_kind_upto, ids_below, ids_strictly_sorted, lemma_count_kind_push,
    lemma_count_upto_absent, lemma_count_upto_congruent, lemma_count_upto_le,
};

verus! {

/// The classified overlap of the ball's box against one record: `None`
/// for non-colliders and for colliders whose box does not overlap.
pub open spec fn collider_hit(e: Entity, bpos: Vec2i, bsize: Vec2i) -> Option<Side> {
    if is_collider(e.kind) {
        collide_spec(bpos, bsize, e.pos, e.scale)
    } else {
        None
    }
}

/// Whether the ball destroys this record: an enemy whose box it overlaps.
pub open spec fn destroyed_by_ball(e: Entity, bpos: Vec2i, bsize: Vec2i) -> bool {
    e.kind == Kind::Enemy && collider_hit(e, bpos, bsize) is Some
}

/// One collider's effect on the ball velocity.
pub open spec fn hit_step(e: Entity, bpos: Vec2i, bsize: Vec2i, v: Vec2i) -> Vec2i {
    match collider_hit(e, bpos, bsize) {
        Some(side) => reflect_spec(v, side),
        None => v,
    }
}

/// The ball velocity after the first `n` records have been processed in
/// store order, each overlap applying its conditional reflection in turn.
pub open spec fn vel_after_upto(s: Seq<Entity>, bpos: Vec2i, bsize: Vec2i, v0: Vec2i, n: int) -> Vec2i
    decreases n,
{
    if n <= 0 {
        v0
    } else {
        hit_step(s[n - 1], bpos, bsize, vel_after_upto(s, bpos, bsize, v0, n - 1))
    }
}

/// The ball velocity after the whole pass.
pub open spec fn vel_after(s: Seq<Entity>, bpos: Vec2i, bsize: Vec2i, v0: Vec2i) -> Vec2i {
    vel_after_upto(s, bpos, bsize, v0, s.len() as int)
}

/// Overlaps among the first `n` records.
pub open spec fn count_hits_upto(s: Seq<Entity>, bpos: Vec2i, bsize: Vec2i, n: int) -> nat
    decreases n,
{
    if n <= 0 {
        0
    } else {
        count_hits_upto(s, bpos, bsize, n - 1) + (if collider_hit(s[n - 1], bpos, bsize) is Some {
            1nat
        } else {
            0nat
        })
    }
}

pub open spec fn count_hits(s: Seq<Entity>, bpos: Vec2i, bsize: Vec2i) -> nat {
    count_hits_upto(s, bpos, bsize, s.len() as int)
}

/// Enemies destroyed among the first `n` records.
pub open spec fn count_enemy_hits_upto(s: Seq<Entity>, bpos: Vec2i, bsize: Vec2i, n: int) -> nat
    decreases n,
{
    if n <= 0 {
        0
    } else {
        count_enemy_hits_upto(s, bpos, bsize, n - 1) + (if destroyed_by_ball(
            s[n - 1],
            bpos,
            bsize,
        ) {
            1nat
        } else {
            0nat
        })
    }
}

pub open spec fn count_enemy_hits(s: Seq<Entity>, bpos: Vec2i, bsize: Vec2i) -> nat {
    count_enemy_hits_upto(s, bpos, bsize, s.len() as int)
}

/// Hazard contacts among the first `n` records.
pub open spec fn count_hazard_hits_upto(s: Seq<Entity>, bpos: Vec2i, bsize: Vec2i, n: int) -> nat
    decreases n,
{
    if n <= 0 {
        0
    } else {
        count_hazard_hits_upto(s, bpos, bsize, n - 1) + (if s[n - 1].kind == Kind::Lava
            && collider_hit(s[n - 1], bpos, bsize) is Some {
            1nat
        } else {
            0nat
        })
    }
}

pub open spec fn count_hazard_hits(s: Seq<Entity>, bpos: Vec2i, bsize: Vec2i) -> nat {
    count_hazard_hits_upto(s, bpos, bsize, s.len() as int)
}

/// The first `n` records with the destroyed enemies gone, in order.
pub open spec fn surviving_upto(s: Seq<Entity>, bpos: Vec2i, bsize: Vec2i, n: int) -> Seq<Entity>
    decreases n,
{
    if n <= 0 {
        Seq::empty()
    } else {
        let rest = surviving_upto(s, bpos, bsize, n - 1);
        if destroyed_by_ball(s[n - 1], bpos, bsize) {
            rest
        } else {
            rest.push(s[n - 1])
        }
    }
}

/// The whole store with the destroyed enemies gone.
pub open spec fn surviving(s: Seq<Entity>, bpos: Vec2i, bsize: Vec2i) -> Seq<Entity> {
    surviving_upto(s, bpos, bsize, s.len() as int)
}

/// A record with its velocity replaced.
pub open spec fn with_vel(e: Entity, v: Vec2i) -> Entity {
    Entity { vel: v, ..e }
}

/// Index of the first ball among the first `n` records, `-1` when none.
pub open spec fn ball_index_upto(s: Seq<Entity>, n: int) -> int
    decreases n,
{
    if n <= 0 {
        -1
    } else if ball_index_upto(s, n - 1) >= 0 {
        ball_index_upto(s, n - 1)
    } else if s[n - 1].kind == Kind::Ball {
        n - 1
    } else {
        -1
    }
}

/// Index of the first ball of the store, `-1` when none.
pub open spec fn ball_index(s: Seq<Entity>) -> int {
    ball_index_upto(s, s.len() as int)
}

/// A first ball at `b` pins `ball_index_upto` exactly.
pub proof fn lemma_ball_index_char(s: Seq<Entity>, b: int, n: int)
    requires
        0 <= b < s.len(),
        s[b].kind == Kind::Ball,
        forall|j: int| 0 <= j < b ==> (#[trigger] s[j]).kind != Kind::Ball,
        0 <= n <= s.len(),
    ensures
        ball_index_upto(s, n) == if n <= b {
            -1int
        } else {
            b
        },
    decreases n,
{
    if n > 0 {
        lemma_ball_index_char(s, b, n - 1);
    }
}

/// A store without a ball has no ball index.
pub proof fn lemma_ball_index_none(s: Seq<Entity>, n: int)
    requires
        0 <= n <= s.len(),
        forall|j: int| 0 <= j < n ==> (#[trigger] s[j]).kind != Kind::Ball,
    ensures
        ball_index_upto(s, n) == -1,
    decreases n,
{
    if n > 0 {
        lemma_ball_index_none(s, n - 1);
    }
}

/// Destroyed records are enemies, so the destroyed count is bounded by the
/// enemy count.
pub proof fn lemma_count_enemy_hits_le(s: Seq<Entity>, bpos: Vec2i, bsize: Vec2i, n: int)
    requires
        0 <= n <= s.len(),
    ensures
        count_enemy_hits_upto(s, bpos, bsize, n) <= count_kind_upto(s, Kind::Enemy, n),
    decreases n,
{
    if n > 0 {
        lemma_count_enemy_hits_le(s, bpos, bsize, n - 1);
    }
}

/// The surviving store is the old store minus the destroyed enemies: it
/// stays well formed, keeps identifier order, keeps every ball, and loses
/// exactly the destroyed enemies.
pub proof fn lemma_surviving_props(s: Seq<Entity>, bpos: Vec2i, bsize: Vec2i, hi: u64, n: int)
    requires
        0 <= n <= s.len(),
        all_wf(s),
        ids_strictly_sorted(s),
        ids_below(s, hi),
    ensures
        surviving_upto(s, bpos, bsize, n).len() == n - count_enemy_hits_upto(s, bpos, bsize, n),
        all_wf(surviving_upto(s, bpos, bsize, n)),
        ids_strictly_sorted(surviving_upto(s, bpos, bsize, n)),
        ids_below(surviving_upto(s, bpos, bsize, n), hi),
        forall|j: int|
            0 <= j < surviving_upto(s, bpos, bsize, n).len() ==> exists|i: int|
                0 <= i < n && #[trigger] surviving_upto(s, bpos, bsize, n)[j] == s[i],
        count_kind(surviving_upto(s, bpos, bsize, n), Kind::Ball) == count_kind_upto(
            s,
            Kind::Ball,
            n,
        ),
        count_kind(surviving_upto(s, bpos, bsize, n), Kind::Enemy) == count_kind_upto(
            s,
            Kind::Enemy,
            n,
        ) - count_enemy_hits_upto(s, bpos, bsize, n),
    decreases n,
{
    lemma_count_enemy_hits_le(s, bpos, bsize, n);
    if n > 0 {
        lemma_surviving_props(s, bpos, bsize, hi, n - 1);
        let rest = surviving_upto(s, bpos, bsize, n - 1);
        let r = surviving_upto(s, bpos, bsize, n);
        if !destroyed_by_ball(s[n - 1], bpos, bsize) {
            lemma_count_kind_push(rest, s[n - 1], Kind::Ball);
            lemma_count_kind_push(rest, s[n - 1], Kind::Enemy);
            assert forall|j: int| 0 <= j < r.len() implies exists|i: int|
                0 <= i < n && #[trigger] r[j] == s[i] by {
                if j < rest.len() {
                    assert(r[j] == rest[j]);
                    let i = choose|i: int| 0 <= i < n - 1 && #[trigger] rest[j] == s[i];
                    assert(r[j] == s[i]);
                } else {
                    assert(r[j] == s[n - 1]);
                }
            }
            assert forall|x: int, y: int| 0 <= x < y < r.len() implies r[x].id < r[y].id by {
                if y < rest.len() {
                    assert(rest[x].id < rest[y].id);
                } else {
                    let i = choose|i: int| 0 <= i < n - 1 && #[trigger] rest[x] == s[i];
                    assert(s[i].id < s[n - 1].id);
                }
            }
        }
    }
}

/// One pass of the collision system over the whole store, for the single
/// ball (the first ball record, if any; with no ball nothing happens).
/// Every collider overlapping the ball's box registers one collision
/// event and applies its conditional reflection to the ball's velocity,
/// in store order.  Each overlapped enemy is destroyed — exactly the
/// overlapped enemies leave the store, everything else stays in order —
/// and adds its worth to the score, requests one sound cue, and spawns a
/// burst of 2 to 6 particles near its position.  Each overlapped hazard
/// emits one game-over notification.
#[verifier::rlimit(50)]
pub fn check_for_collisions(g: &mut Game)
    requires
        wf(*old(g)),
        old(g).next_id + 6 * count_kind(old(g).entities@, Kind::Enemy) <= u64::MAX,
    ensures
        wf(*final(g)),
        final(g).state == old(g).state,
        final(g).score >= old(g).score,
        ball_index(old(g).entities@) < 0 ==> *final(g) == *old(g),
        ball_index(old(g).entities@) >= 0 ==> ({
            let s = old(g).entities@;
            let ball = s[ball_index(s)];
            let surv = surviving(s, ball.pos, ball.scale);
            let v1 = vel_after(s, ball.pos, ball.scale, ball.vel);
            let h = count_enemy_hits(s, ball.pos, ball.scale);
            &&& final(g).entities@.len() >= surv.len()
            &&& (forall|k: int|
                0 <= k < surv.len() ==> #[trigger] final(g).entities@[k] == (if surv[k].id
                    == ball.id {
                    with_vel(surv[k], v1)
                } else {
                    surv[k]
                }))
            &&& (forall|k: int|
                surv.len() <= k < final(g).entities@.len() ==> #[trigger] final(g).entities@[k]
                    == particle_entity(
                    (old(g).next_id + k - surv.len()) as u64,
                    final(g).entities@[k].pos,
                ))
            &&& (forall|k: int|
                #![trigger final(g).entities@[k]]
                surv.len() <= k < final(g).entities@.len() ==> exists|j: int|
                    #![trigger destroyed_by_ball(s[j], ball.pos, ball.scale)]
                    0 <= j < s.len() && destroyed_by_ball(s[j], ball.pos, ball.scale)
                        && s[j].pos.x - PARTICLE_OFFSET_X <= final(g).entities@[k].pos.x
                        <= s[j].pos.x + PARTICLE_OFFSET_X && s[j].pos.y - PARTICLE_OFFSET_Y
                        <= final(g).entities@[k].pos.y <= s[j].pos.y + PARTICLE_OFFSET_Y)
            &&& PARTICLE_MIN * h <= final(g).entities@.len() - surv.len() <= PARTICLE_MAX * h
            &&& final(g).score == old(g).score + SCORE_PER_ENEMY * h
            &&& count_kind(final(g).entities@, Kind::Enemy) == count_kind(s, Kind::Enemy) - h
            &&& final(g).collision_events == sat_bump(
                old(g).collision_events,
                count_hits(s, ball.pos, ball.scale),
            )
            &&& final(g).game_over_events == sat_bump(
                old(g).game_over_events,
                count_hazard_hits(s, ball.pos, ball.scale),
            )
            &&& final(g).sound_cues == sat_bump(old(g).sound_cues, h)
            &&& final(g).next_id == old(g).next_id + final(g).entities@.len() - surv.len()
        }),
{
    let ghost s = g.entities@;
    let n = g.entities.len();
    // Find the single ball.
    let mut b: usize = 0;
    let mut found = false;
    while !found && b < n
        invariant
            0 <= b <= n,
            n == s.len(),
            g.entities@ == s,
            forall|j: int| 0 <= j < b ==> (#[trigger] s[j]).kind != Kind::Ball,
            found ==> b < n && s[b as int].kind == Kind::Ball,
        decreases n - b + (if found {
            0int
        } else {
            1int
        }),
    {
        if g.entities[b].kind == Kind::Ball {
            found = true;
        } else {
            b = b + 1;
        }
    }
    if !found {
        proof {
            lemma_ball_index_none(s, n as int);
        }
        return ;
    }
    proof {
        lemma_ball_index_char(s, b as int, n as int);
    }
    let ball = g.entities[b];
    let bpos = ball.pos;
    let bsize = ball.scale;
    proof {
        assert(entity_wf(s[b as int]));
    }
    let mut vel = ball.vel;
    let mut result: Vec<Entity> = Vec::new();
    let mut hitpos: Vec<Vec2i> = Vec::new();
    let ghost mut hitidx: Seq<int> = Seq::empty();
    let mut new_bi: usize = 0;
    let mut i: usize = 0;
    while i < n
        invariant
            0 <= i <= n,
            n == s.len(),
            g.entities@ == s,
            s == old(g).entities@,
            wf(*old(g)),
            0 <= b < n,
            ball == s[b as int],
            s[b as int].kind == Kind::Ball,
            bpos == ball.pos,
            bsize == ball.scale,
            in_pos_range(bpos),
            in_scale_range(bsize),
            in_vel_range(vel),
            vel == vel_after_upto(s, bpos, bsize, ball.vel, i as int),
            result@ == surviving_upto(s, bpos, bsize, i as int),
            i > b ==> new_bi < result@.len() && result@[new_bi as int] == ball,
            g.score == old(g).score + SCORE_PER_ENEMY * count_enemy_hits_upto(
                s,
                bpos,
                bsize,
                i as int,
            ),
            g.collision_events == sat_bump(
                old(g).collision_events,
                count_hits_upto(s, bpos, bsize, i as int),
            ),
            g.game_over_events == sat_bump(
                old(g).game_over_events,
                count_hazard_hits_upto(s, bpos, bsize, i as int),
            ),
            g.sound_cues == sat_bump(
                old(g).sound_cues,
                count_enemy_hits_upto(s, bpos, bsize, i as int),
            ),
            hitpos@.len() == count_enemy_hits_upto(s, bpos, bsize, i as int),
            hitidx.len() == hitpos@.len(),
            forall|k: int|
                0 <= k < hitidx.len() ==> 0 <= #[trigger] hitidx[k] < i && destroyed_by_ball(
                    s[hitidx[k]],
                    bpos,
                    bsize,
                ) && hitpos@[k] == s[hitidx[k]].pos,
            forall|k: int| 0 <= k < hitpos@.len() ==> in_pos_range(#[trigger] hitpos@[k]),
            g.next_id == old(g).next_id,
            g.state == old(g).state,
        decreases n - i,
    {
        let e = g.entities[i];
        proof {
            assert(entity_wf(s[i as int]));
        }
        let hit: Option<Side> = if collider_kind(e.kind) {
            collide(bpos, bsize, e.pos, e.scale)
        } else {
            None
        };
        proof {
            assert(hit == collider_hit(s[i as int], bpos, bsize));
        }
        let ghost hits0 = count_hits_upto(s, bpos, bsize, i as int);
        let ghost ehits0 = count_enemy_hits_upto(s, bpos, bsize, i as int);
        let ghost zhits0 = count_hazard_hits_upto(s, bpos, bsize, i as int);
        match hit {
            Some(side) => {
                g.collision_events = bump_counter(g.collision_events, 1);
                proof {
                    lemma_sat_bump_chain(old(g).collision_events, hits0, 1);
                }
                if e.kind == Kind::Enemy {
                    g.sound_cues = bump_counter(g.sound_cues, 1);
                    proof {
                        lemma_sat_bump_chain(old(g).sound_cues, ehits0, 1);
                        lemma_count_enemy_hits_le(s, bpos, bsize, i + 1);
                        lemma_count_upto_le(s, Kind::Enemy, i + 1, n as int);
                        assert(old(g).score + SCORE_PER_ENEMY * count_kind(s, Kind::Enemy)
                            <= MAX_LIFE_SCORE);
                    }
                    g.score = g.score + SCORE_PER_ENEMY;
                    hitpos.push(e.pos);
                    proof {
                        assert(destroyed_by_ball(s[i as int], bpos, bsize));
                        hitidx = hitidx.push(i as int);
                    }
                } else {
                    if i == b {
                        new_bi = result.len();
                    }
                    result.push(e);
                }
                if e.kind == Kind::Lava {
                    g.game_over_events = bump_counter(g.game_over_events, 1);
                    proof {
                        lemma_sat_bump_chain(old(g).game_over_events, zhits0, 1);
                    }
                }
                vel = reflect(vel, side);
            }
            None => {
                if i == b {
                    new_bi = result.len();
                }
                result.push(e);
            }
        }
        i = i + 1;
    }
    proof {
        lemma_surviving_props(s, bpos, bsize, old(g).next_id, n as int);
    }
    let ghost surv = surviving(s, bpos, bsize);
    let ghost v1 = vel_after(s, bpos, bsize, ball.vel);
    // Write the reflected velocity back to the ball.
    let mut b2 = result[new_bi];
    b2.vel = vel;
    result[new_bi] = b2;
    let ghost usurv = result@;
    let surv_len = result.len();
    proof {
        assert(usurv == surv.update(new_bi as int, with_vel(ball, v1)));
        assert forall|k: int| 0 <= k < surv.len() && k != new_bi implies (#[trigger] surv[k]).id
            != ball.id by {
            if k < new_bi {
                assert(surv[k].id < surv[new_bi as int].id);
            } else {
                assert(surv[new_bi as int].id < surv[k].id);
            }
        }
        assert forall|k: int| 0 <= k < usurv.len() implies (#[trigger] usurv[k]).kind
            == surv[k].kind && usurv[k].id == surv[k].id && entity_wf(usurv[k]) by {
            if k != new_bi {
                assert(usurv[k] == surv[k]);
            }
        }
        lemma_count_upto_congruent(usurv, surv, Kind::Ball, usurv.len() as int);
        lemma_count_upto_congruent(usurv, surv, Kind::Enemy, usurv.len() as int);
    }
    // Spawn the particle bursts for the destroyed enemies.
    let ghost id1 = g.next_id;
    let hcount = hitpos.len();
    let mut p: usize = 0;
    while p < hcount
        invariant
            0 <= p <= hcount,
            hcount == hitpos@.len(),
            hitpos@.len() == count_enemy_hits(s, bpos, bsize),
            n == s.len(),
            g.entities@ == s,
            s == old(g).entities@,
            surv_len == usurv.len(),
            surv_len == surv.len(),
            hitidx.len() == hitpos@.len(),
            forall|k: int|
                0 <= k < hitidx.len() ==> 0 <= #[trigger] hitidx[k] < n && destroyed_by_ball(
                    s[hitidx[k]],
                    bpos,
                    bsize,
                ) && hitpos@[k] == s[hitidx[k]].pos,
            forall|k: int| 0 <= k < hitpos@.len() ==> in_pos_range(#[trigger] hitpos@[k]),
            result@.len() >= surv_len,
            result@.subrange(0, surv_len as int) == usurv,
            g.next_id == id1 + result@.len() - surv_len,
            id1 == old(g).next_id,
            g.next_id + 6 * (hcount - p) <= u64::MAX,
            PARTICLE_MIN * p <= result@.len() - surv_len <= PARTICLE_MAX * p,
            forall|k: int|
                surv_len <= k < result@.len() ==> #[trigger] result@[k] == particle_entity(
                    (id1 + k - surv_len) as u64,
                    result@[k].pos,
                ),
            forall|k: int|
                #![trigger result@[k]]
                surv_len <= k < result@.len() ==> exists|j: int|
                    #![trigger destroyed_by_ball(s[j], bpos, bsize)]
                    0 <= j < n && destroyed_by_ball(s[j], bpos, bsize) && s[j].pos.x
                        - PARTICLE_OFFSET_X <= result@[k].pos.x <= s[j].pos.x
                        + PARTICLE_OFFSET_X && s[j].pos.y - PARTICLE_OFFSET_Y <= result@[k].pos.y
                        <= s[j].pos.y + PARTICLE_OFFSET_Y,
            forall|k: int| surv_len <= k < result@.len() ==> in_pos_range(
                (#[trigger] result@[k]).pos,
            ),
            g.score == old(g).score + SCORE_PER_ENEMY * count_enemy_hits(s, bpos, bsize),
            g.collision_events == sat_bump(
                old(g).collision_events,
                count_hits(s, bpos, bsize),
            ),
            g.game_over_events == sat_bump(
                old(g).game_over_events,
                count_hazard_hits(s, bpos, bsize),
            ),
            g.sound_cues == sat_bump(old(g).sound_cues, count_enemy_hits(s, bpos, bsize)),
            g.state == old(g).state,
        decreases hcount - p,
    {
        let ghost pre = result@;
        let pos = hitpos[p];
        spawn_particles(pos, &mut result, &mut g.next_id);
        proof {
            assert(result@.subrange(0, surv_len as int) =~= pre.subrange(0, surv_len as int));
            assert forall|k: int| #![trigger result@[k]] surv_len <= k < result@.len() implies exists|j: int|
                #![trigger destroyed_by_ball(s[j], bpos, bsize)]
                0 <= j < n && destroyed_by_ball(s[j], bpos, bsize) && s[j].pos.x
                    - PARTICLE_OFFSET_X <= result@[k].pos.x <= s[j].pos.x
                    + PARTICLE_OFFSET_X && s[j].pos.y - PARTICLE_OFFSET_Y <= result@[k].pos.y
                    <= s[j].pos.y + PARTICLE_OFFSET_Y by {
                if k < pre.len() {
                    assert(result@[k] == result@.subrange(0, pre.len() as int)[k]);
                    assert(result@[k] == pre[k]);
                } else {
                    let j = hitidx[p as int];
                    assert(destroyed_by_ball(s[j], bpos, bsize));
                    assert(pos == s[j].pos);
                }
            }
            assert forall|k: int| surv_len <= k < result@.len() implies #[trigger] result@[k]
                == particle_entity((id1 + k - surv_len) as u64, result@[k].pos) by {
                if k < pre.len() {
                    assert(result@[k] == result@.subrange(0, pre.len() as int)[k]);
                    assert(result@[k] == pre[k]);
                }
            }
            assert forall|k: int| surv_len <= k < result@.len() implies in_pos_range(
                (#[trigger] result@[k]).pos,
            ) by {
                if k < pre.len() {
                    assert(result@[k] == result@.subrange(0, pre.len() as int)[k]);
                    assert(result@[k] == pre[k]);
                }
            }
        }
        p = p + 1;
    }
    g.entities = result;
    proof {
        let t = g.entities@;
        let h = count_enemy_hits(s, bpos, bsize);
        assert forall|k: int| 0 <= k < surv.len() implies #[trigger] t[k] == (if surv[k].id
            == ball.id {
            with_vel(surv[k], v1)
        } else {
            surv[k]
        }) by {
            assert(t[k] == t.subrange(0, surv_len as int)[k]);
            assert(t[k] == usurv[k]);
        }
        // Well-formedness of the new store.
        assert forall|k: int| 0 <= k < t.len() implies entity_wf(#[trigger] t[k]) by {
            if k < surv_len {
                assert(t[k] == t.subrange(0, surv_len as int)[k]);
                assert(t[k] == usurv[k]);
            } else {
                assert(t[k] == particle_entity((id1 + k - surv_len) as u64, t[k].pos));
                assert(in_pos_range(t[k].pos));
            }
        }
        assert forall|x: int, y: int| 0 <= x < y < t.len() implies (#[trigger] t[x]).id < (
        #[trigger] t[y]).id by {
            if y < surv_len {
                assert(t[x] == usurv[x] && t[y] == usurv[y]);
                assert(usurv[x].id == surv[x].id && usurv[y].id == surv[y].id);
            } else if x < surv_len {
                assert(t[x] == usurv[x]);
                assert(usurv[x].id == surv[x].id);
                assert(surv[x].id < id1);
                assert(t[y] == particle_entity((id1 + y - surv_len) as u64, t[y].pos));
            } else {
                assert(t[x] == particle_entity((id1 + x - surv_len) as u64, t[x].pos));
                assert(t[y] == particle_entity((id1 + y - surv_len) as u64, t[y].pos));
            }
        }
        assert(ids_below(t, g.next_id));
        // Kind counts: the appended records are all particles.
        assert forall|k: int| surv_len <= k < t.len() implies (#[trigger] t[k]).kind
            == Kind::Particle by {
            assert(t[k] == particle_entity((id1 + k - surv_len) as u64, t[k].pos));
        }
        lemma_count_upto_absent(t, Kind::Ball, surv_len as int, t.len() as int);
        lemma_count_upto_absent(t, Kind::Enemy, surv_len as int, t.len() as int);
        assert forall|k: int| 0 <= k < surv_len implies (#[trigger] t[k]).kind
            == usurv[k].kind by {
            assert(t[k] == t.subrange(0, surv_len as int)[k]);
        }
        lemma_count_upto_congruent(t, usurv, Kind::Ball, surv_len as int);
        lemma_count_upto_congruent(t, usurv, Kind::Enemy, surv_len as int);
        assert(count_kind(t, Kind::Ball) == count_kind(s, Kind::Ball));
        assert(count_kind(t, Kind::Enemy) == count_kind(s, Kind::Enemy) - h);
    }
}

} // verus!

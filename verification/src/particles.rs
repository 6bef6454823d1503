//! The particle subsystem: spawning decorative bursts on enemy
//! destruction, ageing them against their one-shot timers, and growing
//! them while they live.
use vstd::prelude::*;

use crate::entity::{Entity, Kind, entity_wf, new_particle, particle_entity};
use crate::entity::{
    PARTICLE_GROWTH, PARTICLE_LIFETIME_MS, PARTICLE_MAX, PARTICLE_MIN, PARTICLE_OFFSET_X,
    PARTICLE_OFFSET_Y,
};
use crate::game::{Game, wf};
use crate::geom::{POS_LIMIT, SCALE_LIMIT, Vec2i, in_pos_range};
use crate::rng::rand_in_range;
use crate::store::{
    all_wf, count_kind, count_kind_upto, ids_below, ids_strictly_sorted, lemma_count_kind_push,
    lemma_count_upto_congruent,
};

verus! {

/// A particle whose timer has run out by `d` more milliseconds.
pub open spec fn particle_expired(e: Entity, d: u64) -> bool {
    e.kind == Kind::Particle && e.age_ms + d >= PARTICLE_LIFETIME_MS
}

/// Pointwise effect of ageing on one record.
pub open spec fn particle_aged(e: Entity, d: u64) -> Entity {
    if e.kind == Kind::Particle {
        Entity { age_ms: (e.age_ms + d) as u64, ..e }
    } else {
        e
    }
}

/// The store after ageing its first `n` records by `d` milliseconds:
/// expired particles are gone, surviving particles carry their new age,
/// everything else is untouched.
pub open spec fn tick_lifetimes_upto(s: Seq<Entity>, d: u64, n: int) -> Seq<Entity>
    decreases n,
{
    if n <= 0 {
        Seq::empty()
    } else {
        let rest = tick_lifetimes_upto(s, d, n - 1);
        if particle_expired(s[n - 1], d) {
            rest
        } else {
            rest.push(particle_aged(s[n - 1], d))
        }
    }
}

/// The whole store after ageing by `d` milliseconds.
pub open spec fn tick_lifetimes(s: Seq<Entity>, d: u64) -> Seq<Entity> {
    tick_lifetimes_upto(s, d, s.len() as int)
}

/// Ageing keeps the store well formed: records stay sane (a surviving
/// particle's age is still short of its lifetime), identifier order is
/// kept, and every surviving record is an aged record of the store.
pub proof fn lemma_tick_lifetimes_props(s: Seq<Entity>, d: u64, hi: u64, n: int)
    requires
        0 <= n <= s.len(),
        all_wf(s),
        ids_strictly_sorted(s),
        ids_below(s, hi),
    ensures
        tick_lifetimes_upto(s, d, n).len() <= n,
        all_wf(tick_lifetimes_upto(s, d, n)),
        ids_strictly_sorted(tick_lifetimes_upto(s, d, n)),
        ids_below(tick_lifetimes_upto(s, d, n), hi),
        forall|j: int|
            0 <= j < tick_lifetimes_upto(s, d, n).len() ==> exists|i: int|
                0 <= i < n && #[trigger] tick_lifetimes_upto(s, d, n)[j] == particle_aged(s[i], d),
    decreases n,
{
    if n > 0 {
        lemma_tick_lifetimes_props(s, d, hi, n - 1);
        let rest = tick_lifetimes_upto(s, d, n - 1);
        let r = tick_lifetimes_upto(s, d, n);
        if !particle_expired(s[n - 1], d) {
            let e = particle_aged(s[n - 1], d);
            assert(entity_wf(s[n - 1]));
            assert(entity_wf(e));
            assert forall|j: int| 0 <= j < r.len() implies exists|i: int|
                0 <= i < n && #[trigger] r[j] == particle_aged(s[i], d) by {
                if j < rest.len() {
                    assert(r[j] == rest[j]);
                    let i = choose|i: int|
                        0 <= i < n - 1 && #[trigger] rest[j] == particle_aged(s[i], d);
                    assert(r[j] == particle_aged(s[i], d));
                } else {
                    assert(r[j] == particle_aged(s[n - 1], d));
                }
            }
            assert forall|x: int, y: int| 0 <= x < y < r.len() implies r[x].id < r[y].id by {
                if y < rest.len() {
                    assert(rest[x].id < rest[y].id);
                } else {
                    let i = choose|i: int|
                        0 <= i < n - 1 && #[trigger] rest[x] == particle_aged(s[i], d);
                    assert(s[i].id < s[n - 1].id);
                }
            }
        }
    }
}

/// Ageing destroys only particles: the count of every other kind is kept.
pub proof fn lemma_tick_lifetimes_count(s: Seq<Entity>, d: u64, n: int, k: Kind)
    requires
        0 <= n <= s.len(),
        k != Kind::Particle,
    ensures
        count_kind(tick_lifetimes_upto(s, d, n), k) == count_kind_upto(s, k, n),
    decreases n,
{
    if n > 0 {
        lemma_tick_lifetimes_count(s, d, n - 1, k);
        let rest = tick_lifetimes_upto(s, d, n - 1);
        if !particle_expired(s[n - 1], d) {
            lemma_count_kind_push(rest, particle_aged(s[n - 1], d), k);
        }
    }
}

/// Advance every particle's one-shot timer by the elapsed time and destroy
/// the particles whose timers have completed: a surviving particle's age
/// stays strictly below the lifetime, so no particle ever ticks past it.
pub fn tick_particles_lifetime(g: &mut Game, elapsed_ms: u64)
    requires
        wf(*old(g)),
    ensures
        wf(*final(g)),
        final(g).entities@ == tick_lifetimes(old(g).entities@, elapsed_ms),
        forall|i: int|
            0 <= i < final(g).entities@.len() && (#[trigger] final(g).entities@[i]).kind
                == Kind::Particle ==> final(g).entities@[i].age_ms < PARTICLE_LIFETIME_MS,
        count_kind(final(g).entities@, Kind::Enemy) == count_kind(old(g).entities@, Kind::Enemy),
        final(g).score == old(g).score,
        final(g).state == old(g).state,
        final(g).next_id == old(g).next_id,
        final(g).collision_events == old(g).collision_events,
        final(g).game_over_events == old(g).game_over_events,
        final(g).sound_cues == old(g).sound_cues,
{
    let ghost s = g.entities@;
    let n = g.entities.len();
    let mut result: Vec<Entity> = Vec::new();
    let mut i: usize = 0;
    while i < n
        invariant
            0 <= i <= n,
            n == g.entities@.len(),
            g.entities@ == s,
            result@ == tick_lifetimes_upto(s, elapsed_ms, i as int),
        decreases n - i,
    {
        let e = g.entities[i];
        if e.kind == Kind::Particle {
            let expired = elapsed_ms >= PARTICLE_LIFETIME_MS || e.age_ms
                >= PARTICLE_LIFETIME_MS - elapsed_ms;
            if !expired {
                let mut e2 = e;
                e2.age_ms = e.age_ms + elapsed_ms;
                result.push(e2);
                proof {
                    assert(e2 == particle_aged(s[i as int], elapsed_ms));
                }
            }
        } else {
            result.push(e);
            proof {
                assert(e == particle_aged(s[i as int], elapsed_ms));
            }
        }
        i = i + 1;
    }
    g.entities = result;
    proof {
        lemma_tick_lifetimes_props(s, elapsed_ms, old(g).next_id, n as int);
        lemma_tick_lifetimes_count(s, elapsed_ms, n as int, Kind::Ball);
        lemma_tick_lifetimes_count(s, elapsed_ms, n as int, Kind::Enemy);
    }
}

/// Pointwise effect of growth on one record: each particle extent grows by
/// the fixed increment, saturating at the extent limit.
pub open spec fn grow_extent(v: i64) -> i64 {
    if v + PARTICLE_GROWTH <= SCALE_LIMIT {
        (v + PARTICLE_GROWTH) as i64
    } else {
        SCALE_LIMIT
    }
}

pub open spec fn particle_grown(e: Entity) -> Entity {
    if e.kind == Kind::Particle {
        Entity { scale: Vec2i { x: grow_extent(e.scale.x), y: grow_extent(e.scale.y) }, ..e }
    } else {
        e
    }
}

/// Grow every live particle's width and height by the fixed increment,
/// regardless of remaining lifetime: a particle's extent strictly
/// increases every tick it is alive, until the extent limit.
pub fn update_particles_size(g: &mut Game)
    requires
        wf(*old(g)),
    ensures
        wf(*final(g)),
        final(g).entities@.len() == old(g).entities@.len(),
        forall|i: int|
            0 <= i < old(g).entities@.len() ==> final(g).entities@[i] == particle_grown(
                #[trigger] old(g).entities@[i],
            ),
        forall|i: int|
            0 <= i < old(g).entities@.len() && (#[trigger] old(g).entities@[i]).kind
                == Kind::Particle && old(g).entities@[i].scale.x + PARTICLE_GROWTH <= SCALE_LIMIT
                ==> final(g).entities@[i].scale.x > old(g).entities@[i].scale.x,
        count_kind(final(g).entities@, Kind::Enemy) == count_kind(old(g).entities@, Kind::Enemy),
        final(g).score == old(g).score,
        final(g).state == old(g).state,
        final(g).next_id == old(g).next_id,
        final(g).collision_events == old(g).collision_events,
        final(g).game_over_events == old(g).game_over_events,
        final(g).sound_cues == old(g).sound_cues,
{
    let n = g.entities.len();
    let mut i: usize = 0;
    while i < n
        invariant
            0 <= i <= n,
            n == g.entities@.len(),
            n == old(g).entities@.len(),
            forall|m: int|
                0 <= m < i ==> g.entities@[m] == particle_grown(#[trigger] old(g).entities@[m]),
            forall|m: int| i <= m < n ==> g.entities@[m] == old(g).entities@[m],
            g.score == old(g).score,
            g.state == old(g).state,
            g.next_id == old(g).next_id,
            g.collision_events == old(g).collision_events,
            g.game_over_events == old(g).game_over_events,
            g.sound_cues == old(g).sound_cues,
            wf(*old(g)),
        decreases n - i,
    {
        let e = g.entities[i];
        if e.kind == Kind::Particle {
            proof {
                assert(entity_wf(old(g).entities@[i as int]));
            }
            let nx = if e.scale.x <= SCALE_LIMIT - PARTICLE_GROWTH {
                e.scale.x + PARTICLE_GROWTH
            } else {
                SCALE_LIMIT
            };
            let ny = if e.scale.y <= SCALE_LIMIT - PARTICLE_GROWTH {
                e.scale.y + PARTICLE_GROWTH
            } else {
                SCALE_LIMIT
            };
            let mut e2 = e;
            e2.scale = Vec2i { x: nx, y: ny };
            g.entities[i] = e2;
        }
        i = i + 1;
    }
    proof {
        assert forall|i: int| 0 <= i < g.entities@.len() implies entity_wf(
            #[trigger] g.entities@[i],
        ) by {
            assert(entity_wf(old(g).entities@[i]));
            assert(g.entities@[i] == particle_grown(old(g).entities@[i]));
        }
        assert forall|i: int| 0 <= i < g.entities@.len() implies (#[trigger] g.entities@[i]).kind
            == old(g).entities@[i].kind && g.entities@[i].id == old(g).entities@[i].id by {
            assert(g.entities@[i] == particle_grown(old(g).entities@[i]));
        }
        lemma_count_upto_congruent(
            g.entities@,
            old(g).entities@,
            Kind::Ball,
            g.entities@.len() as int,
        );
        lemma_count_upto_congruent(
            g.entities@,
            old(g).entities@,
            Kind::Enemy,
            g.entities@.len() as int,
        );
    }
}

/// Spawn a random burst of particles at an enemy's destruction point: the
/// count is drawn from `[PARTICLE_MIN, PARTICLE_MAX]`, and each particle
/// lands at an independent random offset of at most `PARTICLE_OFFSET_X`
/// and `PARTICLE_OFFSET_Y` from the point, clamped into the world.
/// Identifiers are issued consecutively from `next_id`.
pub fn spawn_particles(pos: Vec2i, entities: &mut Vec<Entity>, next_id: &mut u64)
    requires
        in_pos_range(pos),
        *old(next_id) + PARTICLE_MAX <= u64::MAX,
    ensures
        old(entities)@.len() + PARTICLE_MIN <= final(entities)@.len() <= old(entities)@.len()
            + PARTICLE_MAX,
        final(entities)@.subrange(0, old(entities)@.len() as int) == old(entities)@,
        *final(next_id) == *old(next_id) + final(entities)@.len() - old(entities)@.len(),
        forall|j: int|
            old(entities)@.len() <= j < final(entities)@.len() ==> #[trigger] final(entities)@[j]
                == particle_entity(
                (*old(next_id) + j - old(entities)@.len()) as u64,
                final(entities)@[j].pos,
            ),
        forall|j: int|
            old(entities)@.len() <= j < final(entities)@.len() ==> in_pos_range(
                (#[trigger] final(entities)@[j]).pos,
            ) && pos.x - PARTICLE_OFFSET_X <= final(entities)@[j].pos.x <= pos.x
                + PARTICLE_OFFSET_X && pos.y - PARTICLE_OFFSET_Y <= final(entities)@[j].pos.y
                <= pos.y + PARTICLE_OFFSET_Y,
{
    let count_draw = rand_in_range(PARTICLE_MIN as i64, PARTICLE_MAX as i64 + 1);
    let count: usize = count_draw as usize;
    let base = entities.len();
    let mut c: usize = 0;
    while c < count
        invariant
            0 <= c <= count,
            PARTICLE_MIN <= count <= PARTICLE_MAX,
            in_pos_range(pos),
            base == old(entities)@.len(),
            *old(next_id) + PARTICLE_MAX <= u64::MAX,
            entities@.len() == base + c,
            entities@.subrange(0, base as int) == old(entities)@,
            *next_id == *old(next_id) + c,
            forall|j: int|
                base <= j < entities@.len() ==> #[trigger] entities@[j] == particle_entity(
                    (*old(next_id) + j - base) as u64,
                    entities@[j].pos,
                ),
            forall|j: int|
                base <= j < entities@.len() ==> in_pos_range((#[trigger] entities@[j]).pos) && pos.x
                    - PARTICLE_OFFSET_X <= entities@[j].pos.x <= pos.x + PARTICLE_OFFSET_X && pos.y
                    - PARTICLE_OFFSET_Y <= entities@[j].pos.y <= pos.y + PARTICLE_OFFSET_Y,
        decreases count - c,
    {
        let lo_x = if pos.x - PARTICLE_OFFSET_X >= -POS_LIMIT {
            pos.x - PARTICLE_OFFSET_X
        } else {
            -POS_LIMIT
        };
        let hi_x = if pos.x + PARTICLE_OFFSET_X <= POS_LIMIT {
            pos.x + PARTICLE_OFFSET_X
        } else {
            POS_LIMIT
        };
        let lo_y = if pos.y - PARTICLE_OFFSET_Y >= -POS_LIMIT {
            pos.y - PARTICLE_OFFSET_Y
        } else {
            -POS_LIMIT
        };
        let hi_y = if pos.y + PARTICLE_OFFSET_Y <= POS_LIMIT {
            pos.y + PARTICLE_OFFSET_Y
        } else {
            POS_LIMIT
        };
        let px = rand_in_range(lo_x, hi_x + 1);
        let py = rand_in_range(lo_y, hi_y + 1);
        let ghost pre = entities@;
        let e = new_particle(*next_id, Vec2i { x: px, y: py });
        entities.push(e);
        proof {
            assert(entities@.subrange(0, base as int) =~= pre.subrange(0, base as int));
        }
        *next_id = *next_id + 1;
        c = c + 1;
    }
}

} // verus!

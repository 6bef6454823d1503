//! The owning game context: entity store, score counter, pause state,
//! per-tick event counters, and the playfield setup that seeds them.
use vstd::prelude::*;

use crate::entity::{Entity, Kind, entity_wf};
use crate::entity::{
    ball_entity, enemy_entity, enemy_grid_pos, lava_entity, left_wall_entity, paddle_entity,
    right_wall_entity, scoreboard_entity, top_wall_entity,
};
use crate::entity::{new_ball, new_enemy, new_lava, new_paddle, new_scoreboard, new_wall};
use crate::entity::{
    ENEMY_START_X, ENEMY_START_Y, ENEMY_STEP_X, ENEMY_STEP_Y, ENEMY_TOTAL, LEFT_WALL,
    MAX_LIFE_SCORE, RIGHT_WALL, SCORE_PER_ENEMY, TOP_WALL, WALL_THICKNESS,
};
use crate::geom::Vec2i;
use crate::store::{
    all_wf, count_kind, ids_below, ids_strictly_sorted, lemma_count_upto_block,
};

verus! {

/// The two-state pause controller: the simulation pipeline runs only while
/// `InGame`.
#[derive(Clone, Copy, PartialEq, Eq, Structural, Debug)]
pub enum AppState {
    InGame,
    Paused,
}

/// Discrete key state for one tick: the two movement keys report whether
/// they are held, the pause and resume keys whether they were pressed this
/// very tick.
#[derive(Clone, Copy, PartialEq, Eq, Structural, Debug)]
pub struct InputState {
    pub left_held: bool,
    pub right_held: bool,
    pub pause_pressed: bool,
    pub resume_pressed: bool,
}

/// How many resettable entities a fresh playfield holds: paddle, ball, the
/// full enemy grid, and the scoreboard label.
pub const RESET_COUNT: u64 = 75;

/// How many entities a playfield seeded from nothing holds: the three
/// walls and the hazard zone ahead of the resettables.
pub const SETUP_COUNT: u64 = 79;

/// The whole simulation state.  The three counters are the per-tick event
/// queues: producers add to them during a tick, consumers read them later
/// in the same tick, and the tick clears them at its end.
pub struct Game {
    pub entities: Vec<Entity>,
    pub score: u32,
    pub state: AppState,
    pub next_id: u64,
    pub collision_events: u64,
    pub game_over_events: u64,
    pub sound_cues: u64,
}

/// Well-formedness of the context: every record is range-sane, identifiers
/// strictly increase along the store and stay below `next_id`, at most one
/// ball lives, and the score plus the worth of the remaining enemies never
/// exceeds what a full grid is worth — so the score of a life is bounded.
pub open spec fn wf(g: Game) -> bool {
    &&& all_wf(g.entities@)
    &&& ids_strictly_sorted(g.entities@)
    &&& ids_below(g.entities@, g.next_id)
    &&& count_kind(g.entities@, Kind::Ball) <= 1
    &&& g.score + SCORE_PER_ENEMY * count_kind(g.entities@, Kind::Enemy) <= MAX_LIFE_SCORE
}

/// Saturating event-counter bump.
pub open spec fn sat_bump(c: u64, n: nat) -> u64 {
    if c + n > u64::MAX {
        u64::MAX
    } else {
        (c + n) as u64
    }
}

/// Add `n` to an event counter, sticking at the top of the range.
pub fn bump_counter(c: u64, n: u64) -> (r: u64)
    ensures
        r == sat_bump(c, n as nat),
{
    if c <= u64::MAX - n {
        c + n
    } else {
        u64::MAX
    }
}

/// Two bumps amount to one bump by the sum.
pub proof fn lemma_sat_bump_chain(c: u64, a: nat, b: nat)
    ensures
        sat_bump(sat_bump(c, a), b) == sat_bump(c, a + b),
{
}

/// The canonical fresh resettable block starting at identifier `id0`: the
/// paddle and ball at their starting positions, the full enemy grid in
/// row-major order, and a scoreboard label showing zero, with consecutive
/// identifiers.
pub open spec fn fresh_resettables(t: Seq<Entity>, id0: u64) -> bool {
    &&& t.len() == RESET_COUNT
    &&& t[0] == paddle_entity(id0)
    &&& t[1] == ball_entity((id0 + 1) as u64)
    &&& (forall|i: int|
        2 <= i < 74 ==> #[trigger] t[i] == enemy_entity((id0 + i) as u64, i - 2))
    &&& t[74] == scoreboard_entity((id0 + 74) as u64)
}

/// Append the fresh resettable block to the store: paddle, ball, the 9 by
/// 8 enemy grid at its canonical coordinates, and a zeroed scoreboard
/// label, with identifiers issued consecutively from `next_id`.
pub fn spawn_resettables(entities: &mut Vec<Entity>, next_id: &mut u64)
    requires
        *old(next_id) + RESET_COUNT <= u64::MAX,
    ensures
        *final(next_id) == *old(next_id) + RESET_COUNT,
        final(entities)@.len() == old(entities)@.len() + RESET_COUNT,
        final(entities)@.subrange(0, old(entities)@.len() as int) == old(entities)@,
        fresh_resettables(
            final(entities)@.subrange(
                old(entities)@.len() as int,
                final(entities)@.len() as int,
            ),
            *old(next_id),
        ),
        forall|i: int|
            old(entities)@.len() <= i < final(entities)@.len() ==> (#[trigger] final(entities)@[i]).id
                == *old(next_id) + i - old(entities)@.len(),
        forall|i: int|
            old(entities)@.len() <= i < final(entities)@.len() ==> entity_wf(
                #[trigger] final(entities)@[i],
            ),
{
    let base: usize = entities.len();
    let id0: u64 = *next_id;
    entities.push(new_paddle(id0));
    entities.push(new_ball(id0 + 1));
    let mut k: usize = 0;
    while k < 72
        invariant
            0 <= k <= 72,
            id0 + RESET_COUNT <= u64::MAX,
            entities@.len() == base + 2 + k,
            entities@.subrange(0, base as int) == old(entities)@,
            base == old(entities)@.len(),
            id0 == *old(next_id),
            *next_id == id0,
            entities@[base as int] == paddle_entity(id0),
            entities@[base + 1] == ball_entity((id0 + 1) as u64),
            forall|i: int|
                base + 2 <= i < base + 2 + k ==> #[trigger] entities@[i] == enemy_entity(
                    (id0 + i - base) as u64,
                    i - base - 2,
                ),
        decreases 72 - k,
    {
        let col: usize = k % 9;
        let row: usize = k / 9;
        let x: i64 = ENEMY_START_X + ENEMY_STEP_X * (col as i64);
        let y: i64 = ENEMY_START_Y - ENEMY_STEP_Y * (row as i64);
        let ghost pre = entities@;
        let e = new_enemy(id0 + 2 + (k as u64), Vec2i { x, y }, k as u32);
        proof {
            assert(Vec2i { x, y } == enemy_grid_pos(k as int));
            assert(e == enemy_entity((id0 + 2 + k) as u64, k as int));
        }
        entities.push(e);
        proof {
            assert(entities@.subrange(0, base as int) =~= pre.subrange(0, base as int));
        }
        k = k + 1;
    }
    let ghost pre = entities@;
    entities.push(new_scoreboard(id0 + 74));
    proof {
        assert(entities@.subrange(0, base as int) =~= pre.subrange(0, base as int));
    }
    *next_id = id0 + 75;
    proof {
        let t = entities@.subrange(base as int, entities@.len() as int);
        assert(t.len() == RESET_COUNT);
        assert(t[0] == paddle_entity(id0));
        assert(t[1] == ball_entity((id0 + 1) as u64));
        assert forall|i: int| 2 <= i < 74 implies #[trigger] t[i] == enemy_entity(
            (id0 + i) as u64,
            i - 2,
        ) by {
            assert(t[i] == entities@[base + i]);
            assert(entities@[base + 2 + (i - 2)] == enemy_entity((id0 + 2 + (i - 2)) as u64, i - 2));
        }
        assert(t[74] == scoreboard_entity((id0 + 74) as u64));
        assert forall|i: int|
            old(entities)@.len() <= i < entities@.len() implies (#[trigger] entities@[i]).id == id0
            + i - old(entities)@.len() by {
            let m = i - base;
            if m == 0 {
                assert(entities@[i] == paddle_entity(id0));
            } else if m == 1 {
                assert(entities@[i] == ball_entity((id0 + 1) as u64));
            } else if m < 74 {
                assert(entities@[i] == enemy_entity((id0 + m) as u64, m - 2));
            } else {
                assert(entities@[i] == scoreboard_entity((id0 + 74) as u64));
            }
        }
        assert forall|i: int| old(entities)@.len() <= i < entities@.len() implies entity_wf(
            #[trigger] entities@[i],
        ) by {
            let m = i - base;
            if m == 0 {
                assert(entities@[i] == paddle_entity(id0));
            } else if m == 1 {
                assert(entities@[i] == ball_entity((id0 + 1) as u64));
            } else if m < 74 {
                assert(entities@[i] == enemy_entity((id0 + m) as u64, m - 2));
                assert(0 <= m - 2 < 72);
            } else {
                assert(entities@[i] == scoreboard_entity((id0 + 74) as u64));
            }
        }
    }
}

/// Seed a full playfield into an empty context: the three walls and the
/// hazard zone, then the fresh resettable block, with the score cleared.
pub fn setup(g: &mut Game)
    requires
        old(g).entities@.len() == 0,
        old(g).next_id + SETUP_COUNT <= u64::MAX,
    ensures
        wf(*final(g)),
        final(g).entities@.len() == SETUP_COUNT,
        final(g).entities@[0] == left_wall_entity(old(g).next_id),
        final(g).entities@[1] == right_wall_entity((old(g).next_id + 1) as u64),
        final(g).entities@[2] == top_wall_entity((old(g).next_id + 2) as u64),
        final(g).entities@[3] == lava_entity((old(g).next_id + 3) as u64),
        fresh_resettables(
            final(g).entities@.subrange(4, SETUP_COUNT as int),
            (old(g).next_id + 4) as u64,
        ),
        final(g).score == 0,
        final(g).next_id == old(g).next_id + SETUP_COUNT,
        count_kind(final(g).entities@, Kind::Enemy) == ENEMY_TOTAL,
        count_kind(final(g).entities@, Kind::Ball) == 1,
        final(g).state == old(g).state,
        final(g).collision_events == old(g).collision_events,
        final(g).game_over_events == old(g).game_over_events,
        final(g).sound_cues == old(g).sound_cues,
{
    let id0: u64 = g.next_id;
    let side_wall_scale = Vec2i { x: WALL_THICKNESS, y: 36600 };
    g.entities.push(new_wall(id0, Vec2i { x: LEFT_WALL, y: 0 }, side_wall_scale));
    g.entities.push(new_wall(id0 + 1, Vec2i { x: RIGHT_WALL, y: 0 }, side_wall_scale));
    g.entities.push(
        new_wall(id0 + 2, Vec2i { x: 0, y: TOP_WALL }, Vec2i { x: 54600, y: WALL_THICKNESS }),
    );
    g.entities.push(new_lava(id0 + 3));
    g.next_id = id0 + 4;
    let ghost walls = g.entities@;
    spawn_resettables(&mut g.entities, &mut g.next_id);
    g.score = 0;
    proof {
        assert(g.entities@.subrange(0, 4) == walls);
        assert(g.entities@.subrange(0, 4)[0] == g.entities@[0]);
        assert(g.entities@.subrange(0, 4)[1] == g.entities@[1]);
        assert(g.entities@.subrange(0, 4)[2] == g.entities@[2]);
        assert(g.entities@.subrange(0, 4)[3] == g.entities@[3]);
        assert(g.entities@[0] == left_wall_entity(id0));
        assert(g.entities@[1] == right_wall_entity((id0 + 1) as u64));
        assert(g.entities@[2] == top_wall_entity((id0 + 2) as u64));
        assert(g.entities@[3] == lava_entity((id0 + 3) as u64));
        let s = g.entities@;
        let t = s.subrange(4, SETUP_COUNT as int);
        assert(fresh_resettables(t, (id0 + 4) as u64));
        assert forall|i: int| 0 <= i < s.len() implies (#[trigger] s[i]).id == id0 + i by {
            if i < 4 {
                assert(s[i] == walls[i]);
            }
        }
        assert(ids_strictly_sorted(s));
        assert(ids_below(s, g.next_id));
        assert forall|i: int| 0 <= i < s.len() implies entity_wf(#[trigger] s[i]) by {
            if i < 4 {
                assert(s[i] == walls[i]);
            }
        }
        // Kinds along the store: the ball stands alone at index 5 and the
        // enemies fill exactly the block [6, 78).
        assert forall|i: int| 0 <= i < s.len() && 6 <= i < 78 implies (#[trigger] s[i]).kind
            == Kind::Enemy by {
            assert(t[i - 4] == s[i]);
            assert(t[2 + (i - 6)] == enemy_entity((id0 + 4 + 2 + (i - 6)) as u64, i - 6));
        }
        assert forall|i: int| 0 <= i < s.len() && !(6 <= i < 78) implies (#[trigger] s[i]).kind
            != Kind::Enemy by {
            if i >= 4 {
                assert(t[i - 4] == s[i]);
                if i - 4 == 0 {
                    assert(s[i] == paddle_entity((id0 + 4) as u64));
                } else if i - 4 == 1 {
                    assert(s[i] == ball_entity((id0 + 5) as u64));
                } else {
                    assert(s[i] == scoreboard_entity((id0 + 4 + 74) as u64));
                }
            }
        }
        lemma_count_upto_block(s, Kind::Enemy, 6, 78, s.len() as int);
        assert forall|i: int| 0 <= i < s.len() && 5 <= i < 6 implies (#[trigger] s[i]).kind
            == Kind::Ball by {
            assert(t[1] == s[5]);
        }
        assert forall|i: int| 0 <= i < s.len() && !(5 <= i < 6) implies (#[trigger] s[i]).kind
            != Kind::Ball by {
            if i >= 4 {
                assert(t[i - 4] == s[i]);
                if i - 4 == 0 {
                    assert(s[i] == paddle_entity((id0 + 4) as u64));
                } else if i - 4 < 74 {
                    assert(s[i] == enemy_entity((id0 + i) as u64, i - 6));
                } else {
                    assert(s[i] == scoreboard_entity((id0 + 4 + 74) as u64));
                }
            }
        }
        lemma_count_upto_block(s, Kind::Ball, 5, 6, s.len() as int);
    }
}

impl Game {
    /// A game at its start: full playfield, score zero, running, event
    /// queues empty.
    pub fn new() -> (g: Game)
        ensures
            wf(g),
            g.entities@.len() == SETUP_COUNT,
            g.entities@[0] == left_wall_entity(0),
            g.entities@[1] == right_wall_entity(1),
            g.entities@[2] == top_wall_entity(2),
            g.entities@[3] == lava_entity(3),
            fresh_resettables(g.entities@.subrange(4, SETUP_COUNT as int), 4),
            g.score == 0,
            g.state == AppState::InGame,
            g.next_id == SETUP_COUNT,
            g.collision_events == 0,
            g.game_over_events == 0,
            g.sound_cues == 0,
            count_kind(g.entities@, Kind::Enemy) == ENEMY_TOTAL,
            count_kind(g.entities@, Kind::Ball) == 1,
    {
        let mut g = Game {
            entities: Vec::new(),
            score: 0,
            state: AppState::InGame,
            next_id: 0,
            collision_events: 0,
            game_over_events: 0,
            sound_cues: 0,
        };
        setup(&mut g);
        g
    }
}

} // verus!

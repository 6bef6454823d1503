//! Per-tick movement: the paddle follows the held movement keys and is
//! clamped into the arena; the ball advances by its velocity.
use vstd::prelude::*;

use crate::entity::{Entity, Kind, entity_wf};
use crate::entity::{PADDLE_MAX_X, PADDLE_MIN_X, PLAYER_SPEED};
use crate::game::{Game, InputState, wf};
use crate::geom::{POS_LIMIT, Vec2i, clamp_i64, clamp_spec};
use crate::store::{count_kind, lemma_count_upto_congruent};

verus! {

/// Net horizontal direction from the two held movement keys.
pub open spec fn move_dir(input: InputState) -> int {
    (if input.right_held {
        1int
    } else {
        0int
    }) - (if input.left_held {
        1int
    } else {
        0int
    })
}

/// Pointwise effect of the paddle system on one record: a paddle slides by
/// direction times speed and is clamped into the arena; nothing else moves.
pub open spec fn paddle_moved(e: Entity, input: InputState) -> Entity {
    if e.kind == Kind::Paddle {
        Entity {
            pos: Vec2i {
                x: clamp_spec(
                    e.pos.x + move_dir(input) * PLAYER_SPEED,
                    PADDLE_MIN_X as int,
                    PADDLE_MAX_X as int,
                ) as i64,
                y: e.pos.y,
            },
            ..e
        }
    } else {
        e
    }
}

/// Pointwise effect of the ball system on one record: a ball adds its
/// velocity to its position, saturating at the world limit.
pub open spec fn ball_moved(e: Entity) -> Entity {
    if e.kind == Kind::Ball {
        Entity {
            pos: Vec2i {
                x: clamp_spec(e.pos.x + e.vel.x, -POS_LIMIT as int, POS_LIMIT as int) as i64,
                y: clamp_spec(e.pos.y + e.vel.y, -POS_LIMIT as int, POS_LIMIT as int) as i64,
            },
            ..e
        }
    } else {
        e
    }
}

/// Slide every paddle by the held keys and clamp it into the arena.  After
/// this system, every paddle lies within `[PADDLE_MIN_X, PADDLE_MAX_X]`,
/// whatever was held.
pub fn player_movement(g: &mut Game, input: &InputState)
    requires
        wf(*old(g)),
    ensures
        wf(*final(g)),
        final(g).entities@.len() == old(g).entities@.len(),
        forall|i: int|
            0 <= i < old(g).entities@.len() ==> final(g).entities@[i] == paddle_moved(
                #[trigger] old(g).entities@[i],
                *input,
            ),
        forall|i: int|
            0 <= i < final(g).entities@.len() && (#[trigger] final(g).entities@[i]).kind
                == Kind::Paddle ==> PADDLE_MIN_X <= final(g).entities@[i].pos.x <= PADDLE_MAX_X,
        count_kind(final(g).entities@, Kind::Enemy) == count_kind(old(g).entities@, Kind::Enemy),
        final(g).score == old(g).score,
        final(g).state == old(g).state,
        final(g).next_id == old(g).next_id,
        final(g).collision_events == old(g).collision_events,
        final(g).game_over_events == old(g).game_over_events,
        final(g).sound_cues == old(g).sound_cues,
{
    let mut direction: i64 = 0;
    if input.left_held {
        direction = direction - 1;
    }
    if input.right_held {
        direction = direction + 1;
    }
    let n = g.entities.len();
    let mut i: usize = 0;
    while i < n
        invariant
            0 <= i <= n,
            n == g.entities@.len(),
            n == old(g).entities@.len(),
            direction == move_dir(*input),
            forall|m: int|
                0 <= m < i ==> g.entities@[m] == paddle_moved(#[trigger] old(g).entities@[m], *input),
            forall|m: int| i <= m < n ==> g.entities@[m] == old(g).entities@[m],
            g.score == old(g).score,
            g.state == old(g).state,
            g.next_id == old(g).next_id,
            g.collision_events == old(g).collision_events,
            g.game_over_events == old(g).game_over_events,
            g.sound_cues == old(g).sound_cues,
            wf(*old(g)),
        decreases n - i,
    {
        let e = g.entities[i];
        if e.kind == Kind::Paddle {
            proof {
                assert(entity_wf(old(g).entities@[i as int]));
            }
            let nx = clamp_i64(e.pos.x + direction * PLAYER_SPEED, PADDLE_MIN_X, PADDLE_MAX_X);
            let mut e2 = e;
            e2.pos = Vec2i { x: nx, y: e.pos.y };
            g.entities[i] = e2;
        }
        i = i + 1;
    }
    proof {
        lemma_moved_wf(*old(g), *g, *input);
        assert forall|m: int| 0 <= m < g.entities@.len() implies (#[trigger] g.entities@[m]).kind
            == old(g).entities@[m].kind by {
            assert(g.entities@[m] == paddle_moved(old(g).entities@[m], *input));
        }
        lemma_count_upto_congruent(
            g.entities@,
            old(g).entities@,
            Kind::Enemy,
            g.entities@.len() as int,
        );
        assert forall|m: int|
            0 <= m < g.entities@.len() && (#[trigger] g.entities@[m]).kind
                == Kind::Paddle implies PADDLE_MIN_X <= g.entities@[m].pos.x <= PADDLE_MAX_X by {
            assert(g.entities@[m] == paddle_moved(old(g).entities@[m], *input));
        }
    }
}

/// The pointwise paddle map preserves context well-formedness.
proof fn lemma_moved_wf(pre: Game, post: Game, input: InputState)
    requires
        wf(pre),
        post.entities@.len() == pre.entities@.len(),
        forall|m: int|
            0 <= m < pre.entities@.len() ==> post.entities@[m] == paddle_moved(
                #[trigger] pre.entities@[m],
                input,
            ),
        post.score == pre.score,
        post.next_id == pre.next_id,
    ensures
        wf(post),
{
    assert forall|i: int| 0 <= i < post.entities@.len() implies entity_wf(
        #[trigger] post.entities@[i],
    ) by {
        assert(entity_wf(pre.entities@[i]));
    }
    assert forall|i: int| 0 <= i < post.entities@.len() implies (#[trigger] post.entities@[i]).kind
        == pre.entities@[i].kind && post.entities@[i].id == pre.entities@[i].id by {
        assert(post.entities@[i] == paddle_moved(pre.entities@[i], input));
    }
    lemma_count_upto_congruent(post.entities@, pre.entities@, Kind::Ball, post.entities@.len() as int);
    lemma_count_upto_congruent(
        post.entities@,
        pre.entities@,
        Kind::Enemy,
        post.entities@.len() as int,
    );
}

/// Advance every ball by its velocity, saturating at the world limit.
pub fn ball_movement(g: &mut Game)
    requires
        wf(*old(g)),
    ensures
        wf(*final(g)),
        final(g).entities@.len() == old(g).entities@.len(),
        forall|i: int|
            0 <= i < old(g).entities@.len() ==> final(g).entities@[i] == ball_moved(
                #[trigger] old(g).entities@[i],
            ),
        count_kind(final(g).entities@, Kind::Enemy) == count_kind(old(g).entities@, Kind::Enemy),
        final(g).score == old(g).score,
        final(g).state == old(g).state,
        final(g).next_id == old(g).next_id,
        final(g).collision_events == old(g).collision_events,
        final(g).game_over_events == old(g).game_over_events,
        final(g).sound_cues == old(g).sound_cues,
{
    let n = g.entities.len();
    let mut i: usize = 0;
    while i < n
        invariant
            0 <= i <= n,
            n == g.entities@.len(),
            n == old(g).entities@.len(),
            forall|m: int|
                0 <= m < i ==> g.entities@[m] == ball_moved(#[trigger] old(g).entities@[m]),
            forall|m: int| i <= m < n ==> g.entities@[m] == old(g).entities@[m],
            g.score == old(g).score,
            g.state == old(g).state,
            g.next_id == old(g).next_id,
            g.collision_events == old(g).collision_events,
            g.game_over_events == old(g).game_over_events,
            g.sound_cues == old(g).sound_cues,
            wf(*old(g)),
        decreases n - i,
    {
        let e = g.entities[i];
        if e.kind == Kind::Ball {
            proof {
                assert(entity_wf(old(g).entities@[i as int]));
            }
            let nx = clamp_i64(e.pos.x + e.vel.x, -POS_LIMIT, POS_LIMIT);
            let ny = clamp_i64(e.pos.y + e.vel.y, -POS_LIMIT, POS_LIMIT);
            let mut e2 = e;
            e2.pos = Vec2i { x: nx, y: ny };
            g.entities[i] = e2;
        }
        i = i + 1;
    }
    proof {
        assert forall|i: int| 0 <= i < g.entities@.len() implies entity_wf(
            #[trigger] g.entities@[i],
        ) by {
            assert(entity_wf(old(g).entities@[i]));
            assert(g.entities@[i] == ball_moved(old(g).entities@[i]));
        }
        assert forall|i: int| 0 <= i < g.entities@.len() implies (#[trigger] g.entities@[i]).kind
            == old(g).entities@[i].kind && g.entities@[i].id == old(g).entities@[i].id by {
            assert(g.entities@[i] == ball_moved(old(g).entities@[i]));
        }
        lemma_count_upto_congruent(
            g.entities@,
            old(g).entities@,
            Kind::Ball,
            g.entities@.len() as int,
        );
        lemma_count_upto_congruent(
            g.entities@,
            old(g).entities@,
            Kind::Enemy,
            g.entities@.len() as int,
        );
    }
}

} // verus!

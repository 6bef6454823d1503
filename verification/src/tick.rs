//! One fixed simulation tick: the gated pipeline in its fixed order —
//! movement, collision, particle ageing, particle growth, score display
//! sync, then reset on game over — followed by the pause controller, which
//! runs whatever the state.  While paused, only the pause controller runs.
//! The per-tick event queues are drained into the returned report and
//! cleared at the end of the tick.
use vstd::prelude::*;

use crate::collision::{check_for_collisions, lemma_surviving_props, surviving, vel_after,
    with_vel, ball_index, count_enemy_hits};
use crate::entity::{ENEMY_TOTAL, Entity, Kind, is_resettable, particle_entity};
use crate::entity::{PADDLE_MAX_X, PADDLE_MIN_X, SCORE_PER_ENEMY};
use crate::game::{AppState, Game, InputState, RESET_COUNT, fresh_resettables, wf};
use crate::movement::{ball_movement, ball_moved, paddle_moved, player_movement};
use crate::particles::{lemma_tick_lifetimes_props, particle_aged, tick_lifetimes,
    tick_particles_lifetime, particle_grown, update_particles_size};
use crate::reset::{game_over, remove_resettable, setup_resetable};
use crate::score::{scoreboard_synced, update_score_board};
use crate::state::{change_game_state, next_state};
use crate::store::count_kind;

verus! {

/// What one tick reported to the outside collaborators: how many collision
/// notifications fired, how many sound cues were requested, and how many
/// game-over notifications were processed.
#[derive(Clone, Copy, PartialEq, Eq, Structural, Debug)]
pub struct TickReport {
    pub collisions: u64,
    pub sounds: u64,
    pub game_overs: u64,
}

/// Every paddle of the store lies within the arena bounds.
pub open spec fn paddles_in_bounds(s: Seq<Entity>) -> bool {
    forall|i: int|
        0 <= i < s.len() && (#[trigger] s[i]).kind == Kind::Paddle ==> PADDLE_MIN_X <= s[i].pos.x
            <= PADDLE_MAX_X
}

impl Game {
    /// Run one simulation tick.  While paused, nothing but the game state
    /// may change.  While running: enemies only ever leave the store, the
    /// score grows by exactly the worth of the destroyed enemies and one
    /// sound cue is requested for each, unless a hazard contact ended the
    /// life — then the playfield is freshly reseeded and the score reads
    /// zero.  After every running tick each paddle lies within the arena
    /// bounds.  The event queues are empty when the tick returns.
    #[verifier::rlimit(100)]
    pub fn tick(&mut self, input: &InputState, elapsed_ms: u64) -> (report: TickReport)
        requires
            wf(*old(self)),
            old(self).collision_events == 0,
            old(self).game_over_events == 0,
            old(self).sound_cues == 0,
            old(self).next_id + 6 * count_kind(old(self).entities@, Kind::Enemy) + RESET_COUNT
                <= u64::MAX,
        ensures
            wf(*final(self)),
            final(self).collision_events == 0,
            final(self).game_over_events == 0,
            final(self).sound_cues == 0,
            final(self).state == next_state(old(self).state, *input),
            final(self).next_id >= old(self).next_id,
            old(self).state == AppState::Paused ==> final(self).entities@ == old(self).entities@
                && final(self).score == old(self).score && final(self).next_id == old(
                self,
            ).next_id && report == (TickReport { collisions: 0, sounds: 0, game_overs: 0 }),
            old(self).state == AppState::InGame ==> ({
                &&& (report.game_overs == 0 ==> count_kind(final(self).entities@, Kind::Enemy)
                    <= count_kind(old(self).entities@, Kind::Enemy))
                &&& (report.game_overs == 0 ==> final(self).score == old(self).score
                    + SCORE_PER_ENEMY * (count_kind(old(self).entities@, Kind::Enemy) - count_kind(
                    final(self).entities@,
                    Kind::Enemy,
                )))
                &&& (report.game_overs == 0 ==> report.sounds == count_kind(
                    old(self).entities@,
                    Kind::Enemy,
                ) - count_kind(final(self).entities@, Kind::Enemy))
                &&& (report.game_overs > 0 ==> final(self).score == 0)
                &&& (report.game_overs > 0 ==> count_kind(final(self).entities@, Kind::Enemy)
                    == ENEMY_TOTAL)
                &&& (report.game_overs > 0 ==> forall|i: int|
                    0 <= i < final(self).entities@.len() && is_resettable(
                        (#[trigger] final(self).entities@[i]).kind,
                    ) ==> final(self).entities@[i].id >= old(self).next_id)
                &&& paddles_in_bounds(final(self).entities@)
            }),
    {
        if self.state == AppState::Paused {
            let report = TickReport { collisions: 0, sounds: 0, game_overs: 0 };
            change_game_state(self, input);
            return report;
        }
        let ghost gm0 = *self;
        player_movement(self, input);
        let ghost gm1 = *self;
        ball_movement(self);
        let ghost gm2 = *self;
        proof {
            assert(paddles_in_bounds(gm1.entities@));
            assert forall|i: int|
                0 <= i < gm2.entities@.len() && (#[trigger] gm2.entities@[i]).kind
                    == Kind::Paddle implies PADDLE_MIN_X <= gm2.entities@[i].pos.x
                <= PADDLE_MAX_X by {
                assert(gm2.entities@[i] == ball_moved(gm1.entities@[i]));
            }
            assert(paddles_in_bounds(gm2.entities@));
        }
        check_for_collisions(self);
        let ghost gm3 = *self;
        proof {
            let s2 = gm2.entities@;
            if ball_index(s2) >= 0 {
                let ball = s2[ball_index(s2)];
                let surv = surviving(s2, ball.pos, ball.scale);
                lemma_surviving_props(
                    s2,
                    ball.pos,
                    ball.scale,
                    gm2.next_id,
                    s2.len() as int,
                );
                assert forall|i: int|
                    0 <= i < gm3.entities@.len() && (#[trigger] gm3.entities@[i]).kind
                        == Kind::Paddle implies PADDLE_MIN_X <= gm3.entities@[i].pos.x
                    <= PADDLE_MAX_X by {
                    if i < surv.len() {
                        assert(gm3.entities@[i] == (if surv[i].id == ball.id {
                            with_vel(surv[i], vel_after(s2, ball.pos, ball.scale, ball.vel))
                        } else {
                            surv[i]
                        }));
                        let j = choose|j: int| 0 <= j < s2.len() && #[trigger] surv[i] == s2[j];
                        assert(s2[j].kind == Kind::Paddle);
                    } else {
                        assert(gm3.entities@[i] == particle_entity(
                            (gm2.next_id + i - surv.len()) as u64,
                            gm3.entities@[i].pos,
                        ));
                    }
                }
            }
            assert(paddles_in_bounds(gm3.entities@));
        }
        tick_particles_lifetime(self, elapsed_ms);
        let ghost gm4 = *self;
        proof {
            lemma_tick_lifetimes_props(
                gm3.entities@,
                elapsed_ms,
                gm3.next_id,
                gm3.entities@.len() as int,
            );
            assert forall|i: int|
                0 <= i < gm4.entities@.len() && (#[trigger] gm4.entities@[i]).kind
                    == Kind::Paddle implies PADDLE_MIN_X <= gm4.entities@[i].pos.x
                <= PADDLE_MAX_X by {
                assert(gm4.entities@ == tick_lifetimes(gm3.entities@, elapsed_ms));
                let j = choose|j: int|
                    0 <= j < gm3.entities@.len() && #[trigger] gm4.entities@[i] == particle_aged(
                        gm3.entities@[j],
                        elapsed_ms,
                    );
                assert(gm3.entities@[j].kind == Kind::Paddle);
            }
            assert(paddles_in_bounds(gm4.entities@));
        }
        update_particles_size(self);
        let ghost gm5 = *self;
        proof {
            assert forall|i: int|
                0 <= i < gm5.entities@.len() && (#[trigger] gm5.entities@[i]).kind
                    == Kind::Paddle implies PADDLE_MIN_X <= gm5.entities@[i].pos.x
                <= PADDLE_MAX_X by {
                assert(gm5.entities@[i] == particle_grown(gm4.entities@[i]));
            }
        }
        update_score_board(self);
        let ghost gm6 = *self;
        proof {
            assert forall|i: int|
                0 <= i < gm6.entities@.len() && (#[trigger] gm6.entities@[i]).kind
                    == Kind::Paddle implies PADDLE_MIN_X <= gm6.entities@[i].pos.x
                <= PADDLE_MAX_X by {
                assert(gm6.entities@[i] == scoreboard_synced(gm5.entities@[i], gm5.score));
            }
            assert(paddles_in_bounds(gm6.entities@));
        }
        game_over(self);
        let ghost gm7 = *self;
        setup_resetable(self);
        let ghost gm8 = *self;
        proof {
            if gm6.game_over_events > 0 {
                let kept = remove_resettable(gm7.entities@);
                crate::reset::lemma_remove_resettable_props(
                    gm7.entities@,
                    gm7.next_id,
                    gm7.entities@.len() as int,
                );
                let kl = kept.len() as int;
                let t = gm8.entities@.subrange(kl, gm8.entities@.len() as int);
                assert(fresh_resettables(t, gm7.next_id));
                assert forall|i: int|
                    0 <= i < gm8.entities@.len() && (#[trigger] gm8.entities@[i]).kind
                        == Kind::Paddle implies PADDLE_MIN_X <= gm8.entities@[i].pos.x
                    <= PADDLE_MAX_X by {
                    if i < kl {
                        assert(gm8.entities@[i] == gm8.entities@.subrange(0, kl)[i]);
                        assert(gm8.entities@[i] == kept[i]);
                        assert(!is_resettable(kept[i].kind));
                    } else {
                        assert(t[i - kl] == gm8.entities@[i]);
                        if i - kl == 0 {
                        } else if i - kl == 1 {
                            assert(t[1].kind == Kind::Ball);
                        } else if i - kl < 74 {
                            assert(t[i - kl].kind == Kind::Enemy);
                        } else {
                            assert(t[74].kind == Kind::Scoreboard);
                        }
                    }
                }
                assert(paddles_in_bounds(gm8.entities@));
            } else {
                assert(gm8 == gm6);
                assert(paddles_in_bounds(gm8.entities@));
            }
        }
        let report = TickReport {
            collisions: self.collision_events,
            sounds: self.sound_cues,
            game_overs: self.game_over_events,
        };
        self.collision_events = 0;
        self.game_over_events = 0;
        self.sound_cues = 0;
        change_game_state(self, input);
        proof {
            let s2 = gm2.entities@;
            let e0 = count_kind(gm0.entities@, Kind::Enemy);
            assert(count_kind(s2, Kind::Enemy) == e0);
            if ball_index(s2) >= 0 {
                let ball = s2[ball_index(s2)];
                let h = count_enemy_hits(s2, ball.pos, ball.scale);
                crate::collision::lemma_count_enemy_hits_le(
                    s2,
                    ball.pos,
                    ball.scale,
                    s2.len() as int,
                );
                crate::store::lemma_count_upto_le_len(s2, Kind::Enemy, s2.len() as int);
                assert(h <= s2.len());
                assert(gm3.sound_cues == crate::game::sat_bump(0, h));
                assert(gm3.sound_cues == h);
                assert(gm3.score == gm0.score + SCORE_PER_ENEMY * h);
                assert(count_kind(gm3.entities@, Kind::Enemy) == e0 - h);
            } else {
                assert(gm3 == gm2);
            }
            assert(count_kind(gm6.entities@, Kind::Enemy) == count_kind(
                gm3.entities@,
                Kind::Enemy,
            ));
            assert(gm6.score == gm3.score);
            if gm6.game_over_events == 0 {
                assert(gm8 == gm6);
            }
        }
        report
    }
}

} // verus!

//! Scoreboard display sync: the label re-reads the score counter every
//! tick; an external display collaborator renders the stored value.
use vstd::prelude::*;

use crate::entity::{Entity, Kind, entity_wf};
use crate::game::{Game, wf};
use crate::store::{count_kind, lemma_count_upto_congruent};

verus! {

/// Pointwise effect of the display sync on one record: a scoreboard label
/// takes over the counter value; nothing else changes.
pub open spec fn scoreboard_synced(e: Entity, score: u32) -> Entity {
    if e.kind == Kind::Scoreboard {
        Entity { text_value: score, ..e }
    } else {
        e
    }
}

/// Copy the score counter into every scoreboard label.
pub fn update_score_board(g: &mut Game)
    requires
        wf(*old(g)),
    ensures
        wf(*final(g)),
        final(g).entities@.len() == old(g).entities@.len(),
        forall|i: int|
            0 <= i < old(g).entities@.len() ==> final(g).entities@[i] == scoreboard_synced(
                #[trigger] old(g).entities@[i],
                old(g).score,
            ),
        count_kind(final(g).entities@, Kind::Enemy) == count_kind(old(g).entities@, Kind::Enemy),
        final(g).score == old(g).score,
        final(g).state == old(g).state,
        final(g).next_id == old(g).next_id,
        final(g).collision_events == old(g).collision_events,
        final(g).game_over_events == old(g).game_over_events,
        final(g).sound_cues == old(g).sound_cues,
{
    let n = g.entities.len();
    let mut i: usize = 0;
    while i < n
        invariant
            0 <= i <= n,
            n == g.entities@.len(),
            n == old(g).entities@.len(),
            forall|m: int|
                0 <= m < i ==> g.entities@[m] == scoreboard_synced(
                    #[trigger] old(g).entities@[m],
                    old(g).score,
                ),
            forall|m: int| i <= m < n ==> g.entities@[m] == old(g).entities@[m],
            g.score == old(g).score,
            g.state == old(g).state,
            g.next_id == old(g).next_id,
            g.collision_events == old(g).collision_events,
            g.game_over_events == old(g).game_over_events,
            g.sound_cues == old(g).sound_cues,
        decreases n - i,
    {
        let e = g.entities[i];
        if e.kind == Kind::Scoreboard {
            let mut e2 = e;
            e2.text_value = g.score;
            g.entities[i] = e2;
        }
        i = i + 1;
    }
    proof {
        assert forall|i: int| 0 <= i < g.entities@.len() implies entity_wf(
            #[trigger] g.entities@[i],
        ) by {
            assert(entity_wf(old(g).entities@[i]));
            assert(g.entities@[i] == scoreboard_synced(old(g).entities@[i], old(g).score));
        }
        assert forall|i: int| 0 <= i < g.entities@.len() implies (#[trigger] g.entities@[i]).kind
            == old(g).entities@[i].kind && g.entities@[i].id == old(g).entities@[i].id by {
            assert(g.entities@[i] == scoreboard_synced(old(g).entities@[i], old(g).score));
        }
        lemma_count_upto_congruent(
            g.entities@,
            old(g).entities@,
            Kind::Ball,
            g.entities@.len() as int,
        );
        lemma_count_upto_congruent(
            g.entities@,
            old(g).entities@,
            Kind::Enemy,
            g.entities@.len() as int,
        );
    }
}

} // verus!

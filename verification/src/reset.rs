//! The reset / game-over controller: on a hazard contact notification,
//! every resettable entity is destroyed and a fresh playfield block is
//! recreated, with the score cleared.  Walls and the hazard zone are
//! permanent and particles simply age away, so neither is touched.
use vstd::prelude::*;

use crate::entity::{ENEMY_TOTAL, Entity, Kind, entity_wf, is_resettable, resettable_kind};
use crate::game::{Game, RESET_COUNT, fresh_resettables, spawn_resettables, wf};
use crate::store::{
    all_wf, count_kind, count_kind_upto, ids_below, ids_strictly_sorted, lemma_count_kind_push,
    lemma_count_upto_block,
};

verus! {

/// The first `n` records of the store with every resettable record gone.
pub open spec fn remove_resettable_upto(s: Seq<Entity>, n: int) -> Seq<Entity>
    decreases n,
{
    if n <= 0 {
        Seq::empty()
    } else {
        let rest = remove_resettable_upto(s, n - 1);
        if is_resettable(s[n - 1].kind) {
            rest
        } else {
            rest.push(s[n - 1])
        }
    }
}

/// The store with every resettable record gone.
pub open spec fn remove_resettable(s: Seq<Entity>) -> Seq<Entity> {
    remove_resettable_upto(s, s.len() as int)
}

/// Removing the resettables keeps the store well formed, leaves no
/// resettable record, and in particular leaves no ball and no enemy.
pub proof fn lemma_remove_resettable_props(s: Seq<Entity>, hi: u64, n: int)
    requires
        0 <= n <= s.len(),
        all_wf(s),
        ids_strictly_sorted(s),
        ids_below(s, hi),
    ensures
        remove_resettable_upto(s, n).len() <= n,
        all_wf(remove_resettable_upto(s, n)),
        ids_strictly_sorted(remove_resettable_upto(s, n)),
        ids_below(remove_resettable_upto(s, n), hi),
        forall|j: int|
            0 <= j < remove_resettable_upto(s, n).len() ==> !is_resettable(
                (#[trigger] remove_resettable_upto(s, n)[j]).kind,
            ),
        forall|j: int|
            0 <= j < remove_resettable_upto(s, n).len() ==> exists|i: int|
                0 <= i < n && #[trigger] remove_resettable_upto(s, n)[j] == s[i],
        count_kind(remove_resettable_upto(s, n), Kind::Ball) == 0,
        count_kind(remove_resettable_upto(s, n), Kind::Enemy) == 0,
    decreases n,
{
    if n > 0 {
        lemma_remove_resettable_props(s, hi, n - 1);
        let rest = remove_resettable_upto(s, n - 1);
        let r = remove_resettable_upto(s, n);
        if !is_resettable(s[n - 1].kind) {
            lemma_count_kind_push(rest, s[n - 1], Kind::Ball);
            lemma_count_kind_push(rest, s[n - 1], Kind::Enemy);
            assert forall|j: int| 0 <= j < r.len() implies exists|i: int|
                0 <= i < n && #[trigger] r[j] == s[i] by {
                if j < rest.len() {
                    assert(r[j] == rest[j]);
                    let i = choose|i: int| 0 <= i < n - 1 && #[trigger] rest[j] == s[i];
                    assert(r[j] == s[i]);
                } else {
                    assert(r[j] == s[n - 1]);
                }
            }
            assert forall|x: int, y: int| 0 <= x < y < r.len() implies r[x].id < r[y].id by {
                if y < rest.len() {
                    assert(rest[x].id < rest[y].id);
                } else {
                    let i = choose|i: int| 0 <= i < n - 1 && #[trigger] rest[x] == s[i];
                    assert(s[i].id < s[n - 1].id);
                }
            }
        }
    }
}

/// Rebuild the store without its resettable records.
fn remove_resettable_entities(entities: &mut Vec<Entity>)
    ensures
        final(entities)@ == remove_resettable(old(entities)@),
{
    let ghost s = entities@;
    let n = entities.len();
    let mut result: Vec<Entity> = Vec::new();
    let mut i: usize = 0;
    while i < n
        invariant
            0 <= i <= n,
            n == entities@.len(),
            entities@ == s,
            result@ == remove_resettable_upto(s, i as int),
        decreases n - i,
    {
        let e = entities[i];
        if !resettable_kind(e.kind) {
            result.push(e);
        }
        i = i + 1;
    }
    *entities = result;
}

/// Despawn every resettable entity once any game-over notification is
/// pending this tick.  One pass despawns everything, so repeated
/// notifications in the same tick change nothing more.
pub fn game_over(g: &mut Game)
    requires
        wf(*old(g)),
    ensures
        wf(*final(g)),
        old(g).game_over_events == 0 ==> *final(g) == *old(g),
        old(g).game_over_events > 0 ==> final(g).entities@ == remove_resettable(
            old(g).entities@,
        ),
        old(g).game_over_events > 0 ==> forall|i: int|
            0 <= i < final(g).entities@.len() ==> !is_resettable(
                (#[trigger] final(g).entities@[i]).kind,
            ),
        final(g).score == old(g).score,
        final(g).state == old(g).state,
        final(g).next_id == old(g).next_id,
        final(g).collision_events == old(g).collision_events,
        final(g).game_over_events == old(g).game_over_events,
        final(g).sound_cues == old(g).sound_cues,
{
    if g.game_over_events > 0 {
        proof {
            lemma_remove_resettable_props(
                g.entities@,
                g.next_id,
                g.entities@.len() as int,
            );
        }
        remove_resettable_entities(&mut g.entities);
    }
}

/// Reseed the playfield once any game-over notification is pending this
/// tick: any resettable leftovers are despawned and the canonical fresh
/// block — paddle, ball, full enemy grid, zeroed scoreboard — is spawned,
/// with the score counter cleared.  Reconstruction is idempotent: further
/// notifications in the same tick rebuild the same fresh state.
pub fn setup_resetable(g: &mut Game)
    requires
        wf(*old(g)),
        old(g).next_id + RESET_COUNT <= u64::MAX,
    ensures
        wf(*final(g)),
        old(g).game_over_events == 0 ==> *final(g) == *old(g),
        old(g).game_over_events > 0 ==> ({
            let kept = remove_resettable(old(g).entities@);
            &&& final(g).entities@.len() == kept.len() + RESET_COUNT
            &&& final(g).entities@.subrange(0, kept.len() as int) == kept
            &&& fresh_resettables(
                final(g).entities@.subrange(
                    kept.len() as int,
                    final(g).entities@.len() as int,
                ),
                old(g).next_id,
            )
            &&& final(g).score == 0
            &&& final(g).next_id == old(g).next_id + RESET_COUNT
            &&& count_kind(final(g).entities@, Kind::Enemy) == ENEMY_TOTAL
            &&& count_kind(final(g).entities@, Kind::Ball) == 1
            &&& forall|i: int|
                0 <= i < final(g).entities@.len() && is_resettable(
                    (#[trigger] final(g).entities@[i]).kind,
                ) ==> final(g).entities@[i].id >= old(g).next_id
        }),
        final(g).state == old(g).state,
        final(g).collision_events == old(g).collision_events,
        final(g).game_over_events == old(g).game_over_events,
        final(g).sound_cues == old(g).sound_cues,
{
    if g.game_over_events == 0 {
        return ;
    }
    proof {
        lemma_remove_resettable_props(g.entities@, g.next_id, g.entities@.len() as int);
    }
    remove_resettable_entities(&mut g.entities);
    let ghost kept = g.entities@;
    let ghost id0 = g.next_id;
    spawn_resettables(&mut g.entities, &mut g.next_id);
    g.score = 0;
    proof {
        let s = g.entities@;
        let kl = kept.len() as int;
        let t = s.subrange(kl, s.len() as int);
        assert(s.subrange(0, kl) == kept);
        assert(fresh_resettables(t, id0));
        // Record sanity and identifier order across the seam.
        assert forall|i: int| 0 <= i < s.len() implies entity_wf(#[trigger] s[i]) by {
            if i < kl {
                assert(s[i] == s.subrange(0, kl)[i]);
                assert(all_wf(kept));
            }
        }
        assert forall|i: int| kl <= i < s.len() implies (#[trigger] s[i]).id == id0 + i - kl by {}
        assert forall|x: int, y: int| 0 <= x < y < s.len() implies s[x].id < s[y].id by {
            if y < kl {
                assert(s[x] == kept[x] && s[y] == kept[y]);
            } else if x < kl {
                assert(s[x] == kept[x]);
                assert(ids_below(kept, id0));
                assert(s[y].id == id0 + y - kl);
            } else {
                assert(s[x].id == id0 + x - kl);
                assert(s[y].id == id0 + y - kl);
            }
        }
        assert(ids_below(s, g.next_id));
        // Kinds along the store: the fresh ball stands alone and the fresh
        // enemies fill exactly one block; the kept prefix is permanent.
        assert forall|i: int| 0 <= i < kl implies !is_resettable((#[trigger] s[i]).kind) by {
            assert(s[i] == kept[i]);
        }
        assert forall|i: int| 0 <= i < s.len() && kl + 2 <= i < kl + 74 implies (
        #[trigger] s[i]).kind == Kind::Enemy by {
            assert(t[i - kl] == s[i]);
        }
        assert forall|i: int| 0 <= i < s.len() && !(kl + 2 <= i < kl + 74) implies (
        #[trigger] s[i]).kind != Kind::Enemy by {
            if i >= kl {
                assert(t[i - kl] == s[i]);
                if i - kl == 0 {
                    assert(t[0].kind == Kind::Paddle);
                } else if i - kl == 1 {
                    assert(t[1].kind == Kind::Ball);
                } else {
                    assert(t[74].kind == Kind::Scoreboard);
                }
            } else {
                assert(!is_resettable(s[i].kind));
            }
        }
        lemma_count_upto_block(s, Kind::Enemy, kl + 2, kl + 74, s.len() as int);
        assert forall|i: int| 0 <= i < s.len() && kl + 1 <= i < kl + 2 implies (
        #[trigger] s[i]).kind == Kind::Ball by {
            assert(t[i - kl] == s[i]);
        }
        assert forall|i: int| 0 <= i < s.len() && !(kl + 1 <= i < kl + 2) implies (
        #[trigger] s[i]).kind != Kind::Ball by {
            if i >= kl {
                assert(t[i - kl] == s[i]);
                if i - kl == 0 {
                    assert(t[0].kind == Kind::Paddle);
                } else if i - kl < 74 {
                    assert(t[i - kl].kind == Kind::Enemy);
                } else {
                    assert(t[74].kind == Kind::Scoreboard);
                }
            } else {
                assert(!is_resettable(s[i].kind));
            }
        }
        lemma_count_upto_block(s, Kind::Ball, kl + 1, kl + 2, s.len() as int);
    }
}

} // verus!

//! The two-state pause controller.
use vstd::prelude::*;

use crate::game::{AppState, Game, InputState};

verus! {

/// State transition for one tick of key input, judged against the state
/// the tick began with: a pause press while running pauses, a resume press
/// while paused resumes, and a press of the wrong key for the current
/// state is ignored.
pub open spec fn next_state(st: AppState, input: InputState) -> AppState {
    if st == AppState::InGame && input.pause_pressed {
        AppState::Paused
    } else if st == AppState::Paused && input.resume_pressed {
        AppState::InGame
    } else {
        st
    }
}

/// Apply the pause-key and resume-key transitions.  Nothing but the game
/// state changes.
pub fn change_game_state(g: &mut Game, input: &InputState)
    ensures
        final(g).state == next_state(old(g).state, *input),
        final(g).entities@ == old(g).entities@,
        final(g).score == old(g).score,
        final(g).next_id == old(g).next_id,
        final(g).collision_events == old(g).collision_events,
        final(g).game_over_events == old(g).game_over_events,
        final(g).sound_cues == old(g).sound_cues,
{
    let st0 = g.state;
    if input.pause_pressed && st0 == AppState::InGame {
        g.state = AppState::Paused;
    }
    if input.resume_pressed && st0 == AppState::Paused {
        g.state = AppState::InGame;
    }
}

} // verus!

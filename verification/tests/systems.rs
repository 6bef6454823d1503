use breakout_core::entity::{Entity, Kind, new_enemy, new_lava, new_paddle, new_particle};
use breakout_core::game::{AppState, Game, InputState};
use breakout_core::geom::Vec2i;
use breakout_core::movement::{ball_movement, player_movement};
use breakout_core::particles::{spawn_particles, tick_particles_lifetime, update_particles_size};
use breakout_core::reset::game_over;
use breakout_core::score::update_score_board;
use breakout_core::state::change_game_state;

fn v(x: i64, y: i64) -> Vec2i {
    Vec2i { x, y }
}

fn no_keys() -> InputState {
    InputState { left_held: false, right_held: false, pause_pressed: false, resume_pressed: false }
}

fn game_with(entities: Vec<Entity>, next_id: u64) -> Game {
    Game {
        entities,
        score: 0,
        state: AppState::InGame,
        next_id,
        collision_events: 0,
        game_over_events: 0,
        sound_cues: 0,
    }
}

fn ball_at(id: u64, pos: Vec2i, vel: Vec2i) -> Entity {
    Entity {
        id,
        kind: Kind::Ball,
        pos,
        scale: v(1800, 1800),
        vel,
        enemy_id: 0,
        age_ms: 0,
        text_value: 0,
    }
}

#[test]
fn paddle_clamps_under_sustained_input() {
    let mut g = game_with(vec![new_paddle(0)], 1);
    let right = InputState { right_held: true, ..no_keys() };
    for _ in 0..200 {
        player_movement(&mut g, &right);
        let x = g.entities[0].pos.x;
        assert!(-22500 <= x && x <= 22500);
    }
    // 200 ticks at 500 subunits per tick more than cover the arena width.
    assert_eq!(g.entities[0].pos.x, 22500);
    let left = InputState { left_held: true, ..no_keys() };
    for _ in 0..200 {
        player_movement(&mut g, &left);
        let x = g.entities[0].pos.x;
        assert!(-22500 <= x && x <= 22500);
    }
    assert_eq!(g.entities[0].pos.x, -22500);
}

#[test]
fn paddle_moves_by_speed_per_tick() {
    let mut g = game_with(vec![new_paddle(0)], 1);
    let right = InputState { right_held: true, ..no_keys() };
    player_movement(&mut g, &right);
    assert_eq!(g.entities[0].pos.x, 500);
    let both = InputState { left_held: true, right_held: true, ..no_keys() };
    player_movement(&mut g, &both);
    assert_eq!(g.entities[0].pos.x, 500);
    player_movement(&mut g, &no_keys());
    assert_eq!(g.entities[0].pos.x, 500);
}

#[test]
fn ball_advances_by_velocity() {
    let mut g = game_with(vec![ball_at(0, v(100, -200), v(283, -283))], 1);
    ball_movement(&mut g);
    assert_eq!(g.entities[0].pos, v(383, -483));
    assert_eq!(g.entities[0].vel, v(283, -283));
}

#[test]
fn pause_and_resume_keys_gate_the_state() {
    let mut g = game_with(vec![], 0);
    assert_eq!(g.state, AppState::InGame);
    // Resume key while running is ignored.
    change_game_state(&mut g, &InputState { resume_pressed: true, ..no_keys() });
    assert_eq!(g.state, AppState::InGame);
    change_game_state(&mut g, &InputState { pause_pressed: true, ..no_keys() });
    assert_eq!(g.state, AppState::Paused);
    // Pause key while paused is ignored.
    change_game_state(&mut g, &InputState { pause_pressed: true, ..no_keys() });
    assert_eq!(g.state, AppState::Paused);
    change_game_state(&mut g, &InputState { resume_pressed: true, ..no_keys() });
    assert_eq!(g.state, AppState::InGame);
}

#[test]
fn spawn_particles_count_and_placement() {
    for _ in 0..20 {
        let mut out: Vec<Entity> = Vec::new();
        let mut next_id: u64 = 10;
        spawn_particles(v(1000, 2000), &mut out, &mut next_id);
        assert!(2 <= out.len() && out.len() <= 6);
        assert_eq!(next_id, 10 + out.len() as u64);
        for (k, p) in out.iter().enumerate() {
            assert_eq!(p.kind, Kind::Particle);
            assert_eq!(p.id, 10 + k as u64);
            assert_eq!(p.scale, v(600, 600));
            assert_eq!(p.age_ms, 0);
            assert!(1000 - 1800 <= p.pos.x && p.pos.x <= 1000 + 1800);
            assert!(2000 - 1200 <= p.pos.y && p.pos.y <= 2000 + 1200);
        }
    }
}

#[test]
fn particles_die_when_the_timer_completes() {
    let mut g = game_with(vec![new_particle(0, v(0, 0)), new_particle(1, v(50, 50))], 2);
    tick_particles_lifetime(&mut g, 50);
    assert_eq!(g.entities.len(), 2);
    assert_eq!(g.entities[0].age_ms, 50);
    tick_particles_lifetime(&mut g, 49);
    assert_eq!(g.entities.len(), 2);
    assert_eq!(g.entities[0].age_ms, 99);
    // The 100 ms lifetime elapses exactly here.
    tick_particles_lifetime(&mut g, 1);
    assert_eq!(g.entities.len(), 0);
}

#[test]
fn particles_grow_every_tick() {
    let mut g = game_with(vec![new_particle(0, v(0, 0))], 1);
    update_particles_size(&mut g);
    assert_eq!(g.entities[0].scale, v(654, 654));
    update_particles_size(&mut g);
    assert_eq!(g.entities[0].scale, v(708, 708));
}

#[test]
fn scoreboard_shows_the_counter() {
    let mut g = breakout_core::game::Game::new();
    g.score = 1234;
    update_score_board(&mut g);
    let label = g.entities.iter().find(|e| e.kind == Kind::Scoreboard).unwrap();
    assert_eq!(label.text_value, 1234);
}

#[test]
fn game_over_without_notification_changes_nothing() {
    let mut g = game_with(vec![new_paddle(0), new_enemy(1, v(0, 0), 0)], 2);
    game_over(&mut g);
    assert_eq!(g.entities.len(), 2);
}

#[test]
fn game_over_despawns_only_resettables() {
    let mut g = game_with(
        vec![new_lava(0), new_paddle(1), new_enemy(2, v(0, 0), 0), new_particle(3, v(1, 1))],
        4,
    );
    g.game_over_events = 1;
    game_over(&mut g);
    let kinds: Vec<Kind> = g.entities.iter().map(|e| e.kind).collect();
    assert_eq!(kinds, vec![Kind::Lava, Kind::Particle]);
}

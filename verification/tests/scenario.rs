use breakout_core::entity::{Entity, Kind, new_enemy, new_lava};
use breakout_core::game::{AppState, Game, InputState};
use breakout_core::geom::Vec2i;

fn v(x: i64, y: i64) -> Vec2i {
    Vec2i { x, y }
}

fn no_keys() -> InputState {
    InputState { left_held: false, right_held: false, pause_pressed: false, resume_pressed: false }
}

fn ball_at(id: u64, pos: Vec2i, vel: Vec2i) -> Entity {
    Entity {
        id,
        kind: Kind::Ball,
        pos,
        scale: v(1800, 1800),
        vel,
        enemy_id: 0,
        age_ms: 0,
        text_value: 0,
    }
}

fn count_kind(g: &Game, k: Kind) -> usize {
    g.entities.iter().filter(|e| e.kind == k).count()
}

#[test]
fn fresh_game_has_the_documented_playfield() {
    let g = Game::new();
    assert_eq!(g.entities.len(), 79);
    assert_eq!(g.score, 0);
    assert_eq!(g.state, AppState::InGame);
    assert_eq!(count_kind(&g, Kind::Wall), 3);
    assert_eq!(count_kind(&g, Kind::Lava), 1);
    assert_eq!(count_kind(&g, Kind::Paddle), 1);
    assert_eq!(count_kind(&g, Kind::Ball), 1);
    assert_eq!(count_kind(&g, Kind::Enemy), 72);
    assert_eq!(count_kind(&g, Kind::Scoreboard), 1);
    // The enemy grid: 9 columns of 90 world units, 8 rows of 40, from the
    // top-left corner at (-350, 250) world units (in subunits here).
    let enemies: Vec<&Entity> = g.entities.iter().filter(|e| e.kind == Kind::Enemy).collect();
    for (k, e) in enemies.iter().enumerate() {
        let col = (k % 9) as i64;
        let row = (k / 9) as i64;
        assert_eq!(e.enemy_id as usize, k);
        assert_eq!(e.pos, v(-21000 + 5400 * col, 15000 - 2400 * row));
        assert_eq!(e.scale, v(3600, 1200));
    }
    let paddle = g.entities.iter().find(|e| e.kind == Kind::Paddle).unwrap();
    assert_eq!(paddle.pos, v(0, -14400));
    let ball = g.entities.iter().find(|e| e.kind == Kind::Ball).unwrap();
    assert_eq!(ball.pos, v(0, -9000));
    assert_eq!(ball.vel, v(283, -283));
}

#[test]
fn ball_destroys_enemy_scores_and_reflects() {
    // A ball 2900 subunits left of a lone enemy, moving right at 200
    // subunits per tick: their boxes first overlap on the second tick.
    let enemy = new_enemy(1, v(0, 0), 0);
    let mut g = Game {
        entities: vec![enemy, ball_at(2, v(-2900, 0), v(200, 0))],
        score: 0,
        state: AppState::InGame,
        next_id: 3,
        collision_events: 0,
        game_over_events: 0,
        sound_cues: 0,
    };
    let r1 = g.tick(&no_keys(), 16);
    assert_eq!(r1.collisions, 0);
    assert_eq!(g.score, 0);
    assert_eq!(count_kind(&g, Kind::Enemy), 1);

    let r2 = g.tick(&no_keys(), 16);
    assert_eq!(r2.collisions, 1);
    assert_eq!(r2.sounds, 1);
    assert_eq!(r2.game_overs, 0);
    assert_eq!(g.score, 50);
    assert_eq!(count_kind(&g, Kind::Enemy), 0);
    let ball = g.entities.iter().find(|e| e.kind == Kind::Ball).unwrap();
    assert_eq!(ball.vel, v(-200, 0));
    assert_eq!(ball.pos, v(-2500, 0));
    let particles: Vec<&Entity> = g.entities.iter().filter(|e| e.kind == Kind::Particle).collect();
    assert!(2 <= particles.len() && particles.len() <= 6);
    for p in particles {
        assert!(-1800 <= p.pos.x && p.pos.x <= 1800);
        assert!(-1200 <= p.pos.y && p.pos.y <= 1200);
    }
}

#[test]
fn hazard_contact_resets_the_playfield() {
    // A ball resting on the hazard zone, and a half-cleared grid.
    let mut g = Game {
        entities: vec![new_lava(0), ball_at(1, v(0, -20430), v(0, 0)), new_enemy(2, v(0, 0), 0)],
        score: 3550,
        state: AppState::InGame,
        next_id: 3,
        collision_events: 0,
        game_over_events: 0,
        sound_cues: 0,
    };
    let r = g.tick(&no_keys(), 16);
    assert!(r.game_overs >= 1);
    assert_eq!(g.score, 0);
    assert_eq!(count_kind(&g, Kind::Lava), 1);
    assert_eq!(count_kind(&g, Kind::Enemy), 72);
    assert_eq!(count_kind(&g, Kind::Paddle), 1);
    assert_eq!(count_kind(&g, Kind::Ball), 1);
    assert_eq!(count_kind(&g, Kind::Scoreboard), 1);
    // Every resettable entity is freshly created: no identifier from the
    // old life survives among them.
    for e in g.entities.iter() {
        match e.kind {
            Kind::Paddle | Kind::Ball | Kind::Enemy | Kind::Scoreboard => assert!(e.id >= 3),
            _ => {}
        }
    }
    let paddle = g.entities.iter().find(|e| e.kind == Kind::Paddle).unwrap();
    assert_eq!(paddle.pos, v(0, -14400));
    let ball = g.entities.iter().find(|e| e.kind == Kind::Ball).unwrap();
    assert_eq!(ball.pos, v(0, -9000));
    assert_eq!(ball.vel, v(283, -283));
}

#[test]
fn paused_ticks_change_nothing() {
    let mut g = Game::new();
    let r = g.tick(&InputState { pause_pressed: true, ..no_keys() }, 16);
    assert_eq!(r.game_overs, 0);
    assert_eq!(g.state, AppState::Paused);
    let before: Vec<Entity> = g.entities.clone();
    let score_before = g.score;
    for _ in 0..10 {
        let rp = g.tick(&InputState { left_held: true, right_held: true, ..no_keys() }, 16);
        assert_eq!(rp.collisions, 0);
        assert_eq!(g.state, AppState::Paused);
        assert_eq!(g.entities, before);
        assert_eq!(g.score, score_before);
    }
    g.tick(&InputState { resume_pressed: true, ..no_keys() }, 16);
    assert_eq!(g.state, AppState::InGame);
}

#[test]
fn score_grows_by_fifty_per_enemy_and_resets_to_zero() {
    // Two enemies stacked in the ball's path: destroy one per pass.
    let e0 = new_enemy(1, v(0, 0), 0);
    let mut g = Game {
        entities: vec![e0, ball_at(2, v(-2900, 0), v(200, 0))],
        score: 0,
        state: AppState::InGame,
        next_id: 3,
        collision_events: 0,
        game_over_events: 0,
        sound_cues: 0,
    };
    g.tick(&no_keys(), 16);
    g.tick(&no_keys(), 16);
    assert_eq!(g.score, 50);
    // Scores never drop while the life lasts.
    for _ in 0..5 {
        let before = g.score;
        g.tick(&no_keys(), 16);
        assert!(g.score >= before);
    }
}

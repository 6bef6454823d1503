//! Entity records and the fixed playfield layout.
//!
//! Every live simulation object — paddle, ball, walls, hazard zone, enemy
//! blocks, particles and the scoreboard label — is one flat `Entity`
//! record; its `Kind` decides which tags (collider, resettable, enemy,
//! hazard) apply to it.
use vstd::prelude::*;

use crate::geom::{Vec2i, in_pos_range, in_scale_range, in_vel_range};
use crate::geom::{POS_LIMIT, SCALE_LIMIT, VEL_LIMIT};

verus! {

// Playfield layout, in subunits (60 subunits = 1 world unit).
pub const WALL_THICKNESS: i64 = 600;

pub const LEFT_WALL: i64 = -27000;

pub const RIGHT_WALL: i64 = 27000;

pub const BOTTOM_WALL: i64 = -18000;

pub const TOP_WALL: i64 = 18000;

// Paddle.
pub const PLAYER_WIDTH: i64 = 7200;

pub const PLAYER_HEIGHT: i64 = 1200;

pub const GAP_BETWEEN_PLAYER_AND_FLOOR: i64 = 3600;

/// Paddle speed in subunits per tick.
pub const PLAYER_SPEED: i64 = 500;

pub const PLAYER_PADDING: i64 = 600;

/// Paddle resting height: the bottom wall line plus the floor gap.
pub const PADDLE_Y: i64 = -14400;

/// Leftmost paddle centre: inner face of the left wall, plus half the
/// paddle, plus the padding.
pub const PADDLE_MIN_X: i64 = -22500;

pub const PADDLE_MAX_X: i64 = 22500;

// Ball.
pub const BALL_SIZE: i64 = 1800;

pub const BALL_START_X: i64 = 0;

pub const BALL_START_Y: i64 = -9000;

/// Initial ball velocity: down-right diagonal at speed 400, so each
/// component is 400 over the square root of two, rounded to the grid.
pub const BALL_VEL0_X: i64 = 283;

pub const BALL_VEL0_Y: i64 = -283;

// Enemy grid.
pub const ENEMY_WIDTH: i64 = 3600;

pub const ENEMY_HEIGHT: i64 = 1200;

pub const ENEMY_START_X: i64 = -21000;

pub const ENEMY_START_Y: i64 = 15000;

pub const ENEMY_STEP_X: i64 = 5400;

pub const ENEMY_STEP_Y: i64 = 2400;

pub const ENEMY_COLS: u32 = 9;

pub const ENEMY_ROWS: u32 = 8;

pub const ENEMY_TOTAL: u32 = 72;

// Hazard zone along the open bottom edge.
pub const LAVA_X: i64 = 0;

pub const LAVA_Y: i64 = -20430;

pub const LAVA_WIDTH: i64 = 77808;

pub const LAVA_HEIGHT: i64 = 2412;

// Particles.
pub const PARTICLE_SIZE: i64 = 600;

pub const PARTICLE_LIFETIME_MS: u64 = 100;

/// Per-tick growth of each particle extent.
pub const PARTICLE_GROWTH: i64 = 54;

pub const PARTICLE_OFFSET_X: i64 = 1800;

pub const PARTICLE_OFFSET_Y: i64 = 1200;

pub const PARTICLE_MIN: usize = 2;

pub const PARTICLE_MAX: usize = 6;

// Score.
pub const SCORE_PER_ENEMY: u32 = 50;

/// The most a single life can score: every enemy of a full grid destroyed.
pub const MAX_LIFE_SCORE: u32 = 3600;

/// The role an entity plays; the role decides its tags.
#[derive(Clone, Copy, PartialEq, Eq, Structural, Debug)]
pub enum Kind {
    Paddle,
    Ball,
    Wall,
    Lava,
    Enemy,
    Particle,
    Scoreboard,
}

/// One live simulation object.  Unused attributes of a given kind stay
/// zero: only the ball moves by `vel`, only enemies carry `enemy_id`, only
/// particles age by `age_ms`, and only the scoreboard shows `text_value`.
#[derive(Clone, Copy, PartialEq, Eq, Structural, Debug)]
pub struct Entity {
    pub id: u64,
    pub kind: Kind,
    pub pos: Vec2i,
    pub scale: Vec2i,
    pub vel: Vec2i,
    pub enemy_id: u32,
    pub age_ms: u64,
    pub text_value: u32,
}

/// Colliders take part in ball overlap tests.  The ball itself does not:
/// it is the moving box the colliders are tested against.
pub open spec fn is_collider(k: Kind) -> bool {
    k == Kind::Paddle || k == Kind::Wall || k == Kind::Lava || k == Kind::Enemy
}

/// Resettable entities are destroyed and recreated together on game over;
/// walls and the hazard zone are permanent, particles simply age away.
pub open spec fn is_resettable(k: Kind) -> bool {
    k == Kind::Paddle || k == Kind::Ball || k == Kind::Enemy || k == Kind::Scoreboard
}

/// Executable collider test.
pub fn collider_kind(k: Kind) -> (b: bool)
    ensures
        b == is_collider(k),
{
    k == Kind::Paddle || k == Kind::Wall || k == Kind::Lava || k == Kind::Enemy
}

/// Executable resettable test.
pub fn resettable_kind(k: Kind) -> (b: bool)
    ensures
        b == is_resettable(k),
{
    k == Kind::Paddle || k == Kind::Ball || k == Kind::Enemy || k == Kind::Scoreboard
}

/// Range sanity of one record: coordinates, extents and velocity lie within
/// the simulation limits, and a live particle has not outlived its timer.
pub open spec fn entity_wf(e: Entity) -> bool {
    &&& in_pos_range(e.pos)
    &&& in_scale_range(e.scale)
    &&& in_vel_range(e.vel)
    &&& (e.kind == Kind::Particle ==> e.age_ms < PARTICLE_LIFETIME_MS)
}

pub open spec fn zero_vec() -> Vec2i {
    Vec2i { x: 0, y: 0 }
}

pub open spec fn wall_entity(id: u64, pos: Vec2i, scale: Vec2i) -> Entity {
    Entity {
        id,
        kind: Kind::Wall,
        pos,
        scale,
        vel: zero_vec(),
        enemy_id: 0,
        age_ms: 0,
        text_value: 0,
    }
}

pub open spec fn left_wall_entity(id: u64) -> Entity {
    wall_entity(id, Vec2i { x: LEFT_WALL, y: 0 }, Vec2i { x: WALL_THICKNESS, y: 36600 })
}

pub open spec fn right_wall_entity(id: u64) -> Entity {
    wall_entity(id, Vec2i { x: RIGHT_WALL, y: 0 }, Vec2i { x: WALL_THICKNESS, y: 36600 })
}

pub open spec fn top_wall_entity(id: u64) -> Entity {
    wall_entity(id, Vec2i { x: 0, y: TOP_WALL }, Vec2i { x: 54600, y: WALL_THICKNESS })
}

pub open spec fn lava_entity(id: u64) -> Entity {
    Entity {
        id,
        kind: Kind::Lava,
        pos: Vec2i { x: LAVA_X, y: LAVA_Y },
        scale: Vec2i { x: LAVA_WIDTH, y: LAVA_HEIGHT },
        vel: zero_vec(),
        enemy_id: 0,
        age_ms: 0,
        text_value: 0,
    }
}

pub open spec fn paddle_entity(id: u64) -> Entity {
    Entity {
        id,
        kind: Kind::Paddle,
        pos: Vec2i { x: 0, y: PADDLE_Y },
        scale: Vec2i { x: PLAYER_WIDTH, y: PLAYER_HEIGHT },
        vel: zero_vec(),
        enemy_id: 0,
        age_ms: 0,
        text_value: 0,
    }
}

pub open spec fn ball_entity(id: u64) -> Entity {
    Entity {
        id,
        kind: Kind::Ball,
        pos: Vec2i { x: BALL_START_X, y: BALL_START_Y },
        scale: Vec2i { x: BALL_SIZE, y: BALL_SIZE },
        vel: Vec2i { x: BALL_VEL0_X, y: BALL_VEL0_Y },
        enemy_id: 0,
        age_ms: 0,
        text_value: 0,
    }
}

/// Grid position of enemy `k` (row-major: `k % 9` is the column, `k / 9`
/// the row, rows descending from the top-left corner of the grid).
pub open spec fn enemy_grid_pos(k: int) -> Vec2i {
    Vec2i {
        x: (ENEMY_START_X + ENEMY_STEP_X * (k % (ENEMY_COLS as int))) as i64,
        y: (ENEMY_START_Y - ENEMY_STEP_Y * (k / (ENEMY_COLS as int))) as i64,
    }
}

pub open spec fn enemy_entity(id: u64, k: int) -> Entity {
    Entity {
        id,
        kind: Kind::Enemy,
        pos: enemy_grid_pos(k),
        scale: Vec2i { x: ENEMY_WIDTH, y: ENEMY_HEIGHT },
        vel: zero_vec(),
        enemy_id: k as u32,
        age_ms: 0,
        text_value: 0,
    }
}

pub open spec fn scoreboard_entity(id: u64) -> Entity {
    Entity {
        id,
        kind: Kind::Scoreboard,
        pos: zero_vec(),
        scale: zero_vec(),
        vel: zero_vec(),
        enemy_id: 0,
        age_ms: 0,
        text_value: 0,
    }
}

pub open spec fn particle_entity(id: u64, pos: Vec2i) -> Entity {
    Entity {
        id,
        kind: Kind::Particle,
        pos,
        scale: Vec2i { x: PARTICLE_SIZE, y: PARTICLE_SIZE },
        vel: zero_vec(),
        enemy_id: 0,
        age_ms: 0,
        text_value: 0,
    }
}

/// Build a wall collider at a given centre with given extents.
pub fn new_wall(id: u64, pos: Vec2i, scale: Vec2i) -> (e: Entity)
    requires
        in_pos_range(pos),
        in_scale_range(scale),
    ensures
        e == wall_entity(id, pos, scale),
        entity_wf(e),
{
    Entity {
        id,
        kind: Kind::Wall,
        pos,
        scale,
        vel: Vec2i { x: 0, y: 0 },
        enemy_id: 0,
        age_ms: 0,
        text_value: 0,
    }
}

/// Build the enemy block numbered `enemy_id` at a given grid position.
pub fn new_enemy(id: u64, pos: Vec2i, enemy_id: u32) -> (e: Entity)
    requires
        in_pos_range(pos),
    ensures
        e.id == id,
        e.kind == Kind::Enemy,
        e.pos == pos,
        e.enemy_id == enemy_id,
        pos == enemy_grid_pos(enemy_id as int) && enemy_id < ENEMY_TOTAL ==> e == enemy_entity(
            id,
            enemy_id as int,
        ),
        entity_wf(e),
{
    Entity {
        id,
        kind: Kind::Enemy,
        pos,
        scale: Vec2i { x: ENEMY_WIDTH, y: ENEMY_HEIGHT },
        vel: Vec2i { x: 0, y: 0 },
        enemy_id,
        age_ms: 0,
        text_value: 0,
    }
}

/// Build a fresh particle at a given position.
pub fn new_particle(id: u64, pos: Vec2i) -> (e: Entity)
    requires
        in_pos_range(pos),
    ensures
        e == particle_entity(id, pos),
        entity_wf(e),
{
    Entity {
        id,
        kind: Kind::Particle,
        pos,
        scale: Vec2i { x: PARTICLE_SIZE, y: PARTICLE_SIZE },
        vel: Vec2i { x: 0, y: 0 },
        enemy_id: 0,
        age_ms: 0,
        text_value: 0,
    }
}

/// Build the permanent hazard zone along the open bottom edge.
pub fn new_lava(id: u64) -> (e: Entity)
    ensures
        e == lava_entity(id),
        entity_wf(e),
{
    Entity {
        id,
        kind: Kind::Lava,
        pos: Vec2i { x: LAVA_X, y: LAVA_Y },
        scale: Vec2i { x: LAVA_WIDTH, y: LAVA_HEIGHT },
        vel: Vec2i { x: 0, y: 0 },
        enemy_id: 0,
        age_ms: 0,
        text_value: 0,
    }
}

/// Build the paddle at its starting position.
pub fn new_paddle(id: u64) -> (e: Entity)
    ensures
        e == paddle_entity(id),
        entity_wf(e),
{
    Entity {
        id,
        kind: Kind::Paddle,
        pos: Vec2i { x: 0, y: PADDLE_Y },
        scale: Vec2i { x: PLAYER_WIDTH, y: PLAYER_HEIGHT },
        vel: Vec2i { x: 0, y: 0 },
        enemy_id: 0,
        age_ms: 0,
        text_value: 0,
    }
}

/// Build the ball at its starting position with its initial velocity.
pub fn new_ball(id: u64) -> (e: Entity)
    ensures
        e == ball_entity(id),
        entity_wf(e),
{
    Entity {
        id,
        kind: Kind::Ball,
        pos: Vec2i { x: BALL_START_X, y: BALL_START_Y },
        scale: Vec2i { x: BALL_SIZE, y: BALL_SIZE },
        vel: Vec2i { x: BALL_VEL0_X, y: BALL_VEL0_Y },
        enemy_id: 0,
        age_ms: 0,
        text_value: 0,
    }
}

/// Build a fresh scoreboard label showing zero.
pub fn new_scoreboard(id: u64) -> (e: Entity)
    ensures
        e == scoreboard_entity(id),
        entity_wf(e),
{
    Entity {
        id,
        kind: Kind::Scoreboard,
        pos: Vec2i { x: 0, y: 0 },
        scale: Vec2i { x: 0, y: 0 },
        vel: Vec2i { x: 0, y: 0 },
        enemy_id: 0,
        age_ms: 0,
        text_value: 0,
    }
}

} // verus!

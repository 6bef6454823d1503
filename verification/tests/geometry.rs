use breakout_core::geom::{Side, Vec2i, clamp_i64, collide, reflect};

fn v(x: i64, y: i64) -> Vec2i {
    Vec2i { x, y }
}

const ENEMY: Vec2i = Vec2i { x: 3600, y: 1200 };
const BALL: Vec2i = Vec2i { x: 1800, y: 1800 };

#[test]
fn clamp_within_below_above() {
    assert_eq!(clamp_i64(5, 0, 10), 5);
    assert_eq!(clamp_i64(-5, 0, 10), 0);
    assert_eq!(clamp_i64(15, 0, 10), 10);
    assert_eq!(clamp_i64(10, 10, 10), 10);
}

#[test]
fn collide_classifies_left() {
    // Ball approaching an enemy from the left, shallow horizontal overlap.
    assert_eq!(collide(v(-2500, 0), BALL, v(0, 0), ENEMY), Some(Side::Left));
}

#[test]
fn collide_classifies_right() {
    assert_eq!(collide(v(2500, 0), BALL, v(0, 0), ENEMY), Some(Side::Right));
}

#[test]
fn collide_classifies_top() {
    assert_eq!(collide(v(0, 1400), BALL, v(0, 0), ENEMY), Some(Side::Top));
}

#[test]
fn collide_classifies_bottom() {
    assert_eq!(collide(v(0, -1400), BALL, v(0, 0), ENEMY), Some(Side::Bottom));
}

#[test]
fn collide_classifies_inside() {
    // The ball's box crosses no single edge on either axis.
    assert_eq!(collide(v(0, 0), BALL, v(0, 0), ENEMY), Some(Side::Inside));
}

#[test]
fn collide_reports_no_overlap() {
    assert_eq!(collide(v(10000, 10000), BALL, v(0, 0), ENEMY), None);
    // Touching edges do not count as overlap.
    assert_eq!(collide(v(-2700, 0), BALL, v(0, 0), ENEMY), None);
}

#[test]
fn reflection_sign_rule_all_eight_cases() {
    // Left flips x only while moving rightward.
    assert_eq!(reflect(v(200, 80), Side::Left), v(-200, 80));
    assert_eq!(reflect(v(-200, 80), Side::Left), v(-200, 80));
    // Right flips x only while moving leftward.
    assert_eq!(reflect(v(-200, 80), Side::Right), v(200, 80));
    assert_eq!(reflect(v(200, 80), Side::Right), v(200, 80));
    // Top flips y only while moving downward.
    assert_eq!(reflect(v(50, -300), Side::Top), v(50, 300));
    assert_eq!(reflect(v(50, 300), Side::Top), v(50, 300));
    // Bottom flips y only while moving upward.
    assert_eq!(reflect(v(50, 300), Side::Bottom), v(50, -300));
    assert_eq!(reflect(v(50, -300), Side::Bottom), v(50, -300));
}

#[test]
fn reflection_inside_changes_nothing() {
    assert_eq!(reflect(v(123, -456), Side::Inside), v(123, -456));
}

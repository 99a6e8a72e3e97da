use pong::geometry::{collide, Collision, Vec2};

fn square(side: i64) -> Vec2 {
    Vec2::new(side, side)
}

#[test]
fn distant_rectangles_do_not_collide() {
    let hit = collide(Vec2::new(0, 0), square(50_000), Vec2::new(200_000, 0), square(50_000));
    assert_eq!(hit, None);
}

#[test]
fn touching_edges_do_not_collide() {
    let hit = collide(Vec2::new(0, 0), square(50_000), Vec2::new(50_000, 0), square(50_000));
    assert_eq!(hit, None);
    let hit = collide(Vec2::new(0, 0), square(50_000), Vec2::new(0, -50_000), square(50_000));
    assert_eq!(hit, None);
}

#[test]
fn overlap_by_the_smallest_step_collides() {
    let hit = collide(Vec2::new(1, 0), square(50_000), Vec2::new(50_000, 0), square(50_000));
    assert_eq!(hit, Some(Collision::Left));
}

#[test]
fn each_face_can_be_struck() {
    let wall = square(100_000);
    let ball = square(20_000);
    let centre = Vec2::new(0, 0);
    assert_eq!(collide(Vec2::new(-55_000, 0), ball, centre, wall), Some(Collision::Left));
    assert_eq!(collide(Vec2::new(55_000, 0), ball, centre, wall), Some(Collision::Right));
    assert_eq!(collide(Vec2::new(0, 55_000), ball, centre, wall), Some(Collision::Top));
    assert_eq!(collide(Vec2::new(0, -55_000), ball, centre, wall), Some(Collision::Bottom));
}

#[test]
fn shallowest_face_wins() {
    let wall = square(100_000);
    let ball = square(20_000);
    let centre = Vec2::new(0, 0);
    // 5 deep from the left, 8 deep from the top
    assert_eq!(collide(Vec2::new(-55_000, 52_000), ball, centre, wall), Some(Collision::Left));
    // 8 deep from the left, 5 deep from the top
    assert_eq!(collide(Vec2::new(-52_000, 55_000), ball, centre, wall), Some(Collision::Top));
}

#[test]
fn ties_go_to_left_then_right_then_top() {
    let wall = square(100_000);
    let ball = square(20_000);
    let centre = Vec2::new(0, 0);
    // equally deep from the left and from the top
    assert_eq!(collide(Vec2::new(-55_000, 55_000), ball, centre, wall), Some(Collision::Left));
    // equally deep from the right and from the bottom
    assert_eq!(collide(Vec2::new(55_000, -55_000), ball, centre, wall), Some(Collision::Right));
    // centred: all four faces equally deep
    assert_eq!(collide(centre, ball, centre, wall), Some(Collision::Left));
    // centred sideways only: left and right tie, top is shallower
    assert_eq!(collide(Vec2::new(0, 45_000), ball, centre, wall), Some(Collision::Top));
    // a tall ball centred on a thin wall: top and bottom tie
    assert_eq!(
        collide(centre, Vec2::new(20_000, 60_000), centre, Vec2::new(100_000, 10_000)),
        Some(Collision::Top)
    );
}

#[test]
fn ball_that_covers_a_thin_wall_still_collides() {
    let hit = collide(
        Vec2::new(0, 248_000),
        square(50_000),
        Vec2::new(0, 250_000),
        Vec2::new(1_000_000, 10_000),
    );
    assert_eq!(hit, Some(Collision::Bottom));
}

#[test]
fn odd_extents_keep_their_half() {
    // a_max = 0.5, b_min = 0.5: the edges touch
    let hit = collide(Vec2::new(0, 0), square(1), Vec2::new(1, 0), square(1));
    assert_eq!(hit, None);
    // a_max = 1, b_min = 0.5: they overlap by a half
    let hit = collide(Vec2::new(0, 0), Vec2::new(2, 1), Vec2::new(1, 0), square(1));
    assert_eq!(hit, Some(Collision::Left));
}

#[test]
fn extreme_coordinates_are_compared_exactly() {
    let hit = collide(
        Vec2::new(i64::MAX, i64::MAX),
        square(i64::MAX),
        Vec2::new(i64::MIN, i64::MIN),
        square(i64::MAX),
    );
    assert_eq!(hit, None);
    let hit = collide(
        Vec2::new(i64::MAX, 0),
        square(i64::MAX),
        Vec2::new(i64::MAX - 2, 0),
        square(4),
    );
    assert_eq!(hit, Some(Collision::Right));
}

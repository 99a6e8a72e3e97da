//! Collision resolution: the ball is tested against every paddle and every
//! boundary, in order; walls and paddles change its velocity, goals give
//! rise to score events.

use crate::entities::{
    boundary_models, paddle_models, Ball, BallModel, Boundary, Collider, Obstacle, Paddle,
    PaddleModel, ScoreEvent, DEFLECTION_GAIN, REFLECT_BIAS,
};
use crate::geometry::{collide, overlaps, struck_face, Collision, Point, Vec2};
use vstd::prelude::*;

verus! {

/// A velocity component turned round: negated, then nudged by the bias.
pub open spec fn reflect(v: int) -> int {
    -v + REFLECT_BIAS
}

/// Whether a ball with vertical velocity `vy` that has struck `face` of a
/// wall is still moving into the wall.
pub open spec fn moving_into_wall(face: Collision, vy: int) -> bool {
    (face == Collision::Top && vy < 0) || (face == Collision::Bottom && vy > 0)
}

/// Whether a ball with horizontal velocity `vx` that has struck `face` of a
/// paddle is still moving into the paddle.
pub open spec fn moving_into_paddle(face: Collision, vx: int) -> bool {
    (face == Collision::Left && vx > 0) || (face == Collision::Right && vx < 0)
}

/// The velocity with which a ball leaves an obstacle whose face `face` it
/// has struck.
///
/// A wall turns the vertical component round if the ball moves into it. A
/// paddle does the same to the horizontal component, and whichever face was
/// struck it sets the vertical component in proportion to the distance
/// between the two centres. A goal leaves the velocity alone.
pub open spec fn deflected(ball: BallModel, obstacle: Obstacle, face: Collision) -> Point {
    match obstacle.collider {
        Collider::Wall => Point {
            x: ball.velocity.x,
            y: if moving_into_wall(face, ball.velocity.y) {
                reflect(ball.velocity.y)
            } else {
                ball.velocity.y
            },
        },
        Collider::Paddle => Point {
            x: if moving_into_paddle(face, ball.velocity.x) {
                reflect(ball.velocity.x)
            } else {
                ball.velocity.x
            },
            y: (ball.position.y - obstacle.position.y) * DEFLECTION_GAIN,
        },
        Collider::Left | Collider::Right => ball.velocity,
    }
}

/// The ball after it has been tested against one obstacle. Only its
/// velocity can change.
pub open spec fn hit(ball: BallModel, obstacle: Obstacle) -> BallModel {
    match struck_face(ball.position, ball.size, obstacle.position, obstacle.size) {
        Some(face) => BallModel { velocity: deflected(ball, obstacle, face), ..ball },
        None => ball,
    }
}

/// The score event that the ball causes on one obstacle: overlapping a goal
/// is enough, whatever the face.
pub open spec fn conceded(ball: BallModel, obstacle: Obstacle) -> Option<ScoreEvent> {
    if overlaps(ball.position, ball.size, obstacle.position, obstacle.size) {
        match obstacle.collider {
            Collider::Left => Some(ScoreEvent::Left),
            Collider::Right => Some(ScoreEvent::Right),
            _ => None,
        }
    } else {
        None
    }
}

/// The ball after it has been tested against each of `obstacles`, the first
/// of them first.
pub open spec fn hit_all(ball: BallModel, obstacles: Seq<Obstacle>) -> BallModel
    decreases obstacles.len(),
{
    if obstacles.len() == 0 {
        ball
    } else {
        hit(hit_all(ball, obstacles.drop_last()), obstacles.last())
    }
}

/// The score events that the ball causes on `obstacles`, in their order.
pub open spec fn goal_events(ball: BallModel, obstacles: Seq<Obstacle>) -> Seq<ScoreEvent>
    decreases obstacles.len(),
{
    if obstacles.len() == 0 {
        Seq::empty()
    } else {
        let earlier = goal_events(ball, obstacles.drop_last());
        match conceded(ball, obstacles.last()) {
            Some(event) => earlier.push(event),
            None => earlier,
        }
    }
}

/// All that the ball is tested against in one frame: the paddles first,
/// then the boundaries.
pub open spec fn obstacles(paddles: Seq<PaddleModel>, boundaries: Seq<Obstacle>) -> Seq<Obstacle> {
    Seq::new(paddles.len(), |i: int| paddles[i].obstacle()) + boundaries
}

/// The bound that the loops keep on a velocity component after `steps`
/// obstacles, wide enough for any stored velocity and any deflection.
spec fn headroom(steps: int) -> int {
    0x10_0000_0000_0000_0000 + REFLECT_BIAS * steps
}

/// Tests the ball against one rectangle. The velocity is carried in wider
/// integers than it is stored in, so that a component may leave the range
/// of a coordinate between two obstacles.
fn strike(
    position: Vec2,
    size: Vec2,
    vx: i128,
    vy: i128,
    collider: Collider,
    at: Vec2,
    extent: Vec2,
    Ghost(steps): Ghost<int>,
) -> (out: (i128, i128, Option<ScoreEvent>))
    requires
        0 <= steps <= 0x4_0000_0000_0000_0000,
        -headroom(steps) <= vx <= headroom(steps),
        -headroom(steps) <= vy <= headroom(steps),
    ensures
        ({
            let ball = BallModel {
                position: position@,
                velocity: Point { x: vx as int, y: vy as int },
                size: size@,
            };
            let obstacle = Obstacle { collider, position: at@, size: extent@ };
            &&& hit(ball, obstacle).velocity == (Point { x: out.0 as int, y: out.1 as int })
            &&& out.2 == conceded(ball, obstacle)
        }),
        -headroom(steps + 1) <= out.0 <= headroom(steps + 1),
        -headroom(steps + 1) <= out.1 <= headroom(steps + 1),
{
    match collide(position, size, at, extent) {
        None => (vx, vy, None),
        Some(face) => match collider {
            Collider::Wall => {
                let reflect_y = match face {
                    Collision::Top => vy < 0,
                    Collision::Bottom => vy > 0,
                    _ => false,
                };
                if reflect_y {
                    (vx, -vy + (REFLECT_BIAS as i128), None)
                } else {
                    (vx, vy, None)
                }
            },
            Collider::Paddle => {
                let reflect_x = match face {
                    Collision::Left => vx > 0,
                    Collision::Right => vx < 0,
                    _ => false,
                };
                let distance_to_mid: i128 = (position.y as i128) - (at.y as i128);
                let gain: i128 = DEFLECTION_GAIN as i128;
                assert(gain == 10);
                let new_vy: i128 = distance_to_mid * gain;
                if reflect_x {
                    (-vx + (REFLECT_BIAS as i128), new_vy, None)
                } else {
                    (vx, new_vy, None)
                }
            },
            Collider::Left => (vx, vy, Some(ScoreEvent::Left)),
            Collider::Right => (vx, vy, Some(ScoreEvent::Right)),
        },
    }
}

/// Resolves the collisions of one frame. The ball is tested against every
/// paddle and then against every boundary; each overlap is dealt with on
/// its own, none hides a later one. The ball's velocity is updated and the
/// score events are returned in the order in which they arose.
///
/// The velocity that results must fit a coordinate.
pub fn ball_collision_system(
    ball: &mut Ball,
    paddles: &Vec<Paddle>,
    boundaries: &Vec<Boundary>,
) -> (events: Vec<ScoreEvent>)
    requires
        hit_all(
            old(ball)@,
            obstacles(paddle_models(paddles@), boundary_models(boundaries@)),
        ).velocity.representable(),
    ensures
        final(ball)@ == hit_all(
            old(ball)@,
            obstacles(paddle_models(paddles@), boundary_models(boundaries@)),
        ),
        events@ == goal_events(
            old(ball)@,
            obstacles(paddle_models(paddles@), boundary_models(boundaries@)),
        ),
{
    let ghost start = ball@;
    let ghost all = obstacles(paddle_models(paddles@), boundary_models(boundaries@));
    let position = ball.position;
    let size = ball.size;
    let mut vx: i128 = ball.velocity.x as i128;
    let mut vy: i128 = ball.velocity.y as i128;
    let mut events: Vec<ScoreEvent> = Vec::new();
    let mut i: usize = 0;
    while i < paddles.len()
        invariant
            i <= paddles.len(),
            all == obstacles(paddle_models(paddles@), boundary_models(boundaries@)),
            start.position == position@,
            start.size == size@,
            -headroom(i as int) <= vx <= headroom(i as int),
            -headroom(i as int) <= vy <= headroom(i as int),
            hit_all(start, all.take(i as int)) == (BallModel {
                velocity: Point { x: vx as int, y: vy as int },
                ..start
            }),
            events@ == goal_events(start, all.take(i as int)),
        decreases paddles.len() - i,
    {
        let paddle = &paddles[i];
        proof {
            assert(all.take(i + 1).drop_last() =~= all.take(i as int));
            assert(all.take(i + 1).last() == paddle@.obstacle());
            lemma_hit_keeps_place(start, all.take(i as int));
        }
        let out = strike(
            position,
            size,
            vx,
            vy,
            Collider::Paddle,
            paddle.position,
            paddle.size,
            Ghost(i as int),
        );
        vx = out.0;
        vy = out.1;
        if let Some(event) = out.2 {
            events.push(event);
        }
        i += 1;
    }
    let mut j: usize = 0;
    while j < boundaries.len()
        invariant
            j <= boundaries.len(),
            i == paddles.len(),
            all == obstacles(paddle_models(paddles@), boundary_models(boundaries@)),
            start.position == position@,
            start.size == size@,
            -headroom(i + j) <= vx <= headroom(i + j),
            -headroom(i + j) <= vy <= headroom(i + j),
            hit_all(start, all.take(i + j)) == (BallModel {
                velocity: Point { x: vx as int, y: vy as int },
                ..start
            }),
            events@ == goal_events(start, all.take(i + j)),
        decreases boundaries.len() - j,
    {
        let boundary = &boundaries[j];
        proof {
            assert(all.take(i + j + 1).drop_last() =~= all.take(i + j));
            assert(all.take(i + j + 1).last() == boundary@);
            lemma_hit_keeps_place(start, all.take(i + j));
        }
        let out = strike(
            position,
            size,
            vx,
            vy,
            boundary.collider,
            boundary.position,
            boundary.size,
            Ghost(i + j),
        );
        vx = out.0;
        vy = out.1;
        if let Some(event) = out.2 {
            events.push(event);
        }
        j += 1;
    }
    proof {
        assert(all.take(i + j) =~= all);
    }
    ball.velocity = Vec2 { x: vx as i64, y: vy as i64 };
    events
}

/// A wall reflects the ball once: tested again against the same wall, with
/// the velocity that the first test left, the ball keeps that velocity.
///
/// The one case in which this fails is left out: a ball that strikes the
/// bottom face while moving up more slowly than the bias still moves up
/// after the reflection.
pub proof fn wall_reflects_once(ball: BallModel, wall: Obstacle)
    requires
        wall.collider == Collider::Wall,
        !(struck_face(ball.position, ball.size, wall.position, wall.size) == Some(
            Collision::Bottom,
        ) && 0 < ball.velocity.y < REFLECT_BIAS),
    ensures
        hit(hit(ball, wall), wall) == hit(ball, wall),
{
}

/// A paddle that the ball overlaps sets the ball's vertical velocity in
/// proportion to the distance between the two centres, whichever face was
/// struck and wherever the ball was heading.
pub proof fn paddle_sets_vertical_velocity(ball: BallModel, paddle: Obstacle)
    requires
        paddle.collider == Collider::Paddle,
        overlaps(ball.position, ball.size, paddle.position, paddle.size),
    ensures
        hit(ball, paddle).velocity.y == (ball.position.y - paddle.position.y) * DEFLECTION_GAIN,
{
}

/// Whether testing the ball against `obstacle` can change its vertical
/// velocity: the obstacle is a wall or a paddle, and the ball overlaps it.
pub open spec fn touches_vertical_velocity(ball: BallModel, obstacle: Obstacle) -> bool {
    overlaps(ball.position, ball.size, obstacle.position, obstacle.size) && (obstacle.collider
        == Collider::Wall || obstacle.collider == Collider::Paddle)
}

/// After a whole frame's collisions the vertical velocity is the one that
/// the paddle at place `k` gave, if the ball overlaps that paddle and none
/// of the later obstacles touches the vertical velocity.
pub proof fn last_paddle_decides_vertical_velocity(
    ball: BallModel,
    obstacles: Seq<Obstacle>,
    k: int,
)
    requires
        0 <= k < obstacles.len(),
        obstacles[k].collider == Collider::Paddle,
        overlaps(ball.position, ball.size, obstacles[k].position, obstacles[k].size),
        forall|j: int|
            k < j < obstacles.len() ==> !touches_vertical_velocity(ball, #[trigger] obstacles[j]),
    ensures
        hit_all(ball, obstacles).velocity.y == (ball.position.y - obstacles[k].position.y)
            * DEFLECTION_GAIN,
    decreases obstacles.len(),
{
    let earlier = obstacles.drop_last();
    lemma_hit_keeps_place(ball, earlier);
    if k < obstacles.len() - 1 {
        assert forall|j: int| k < j < earlier.len() implies !touches_vertical_velocity(
            ball,
            #[trigger] earlier[j],
        ) by {
            assert(earlier[j] == obstacles[j]);
        }
        last_paddle_decides_vertical_velocity(ball, earlier, k);
        assert(!touches_vertical_velocity(ball, obstacles[obstacles.len() - 1]));
    }
}

/// An obstacle that the ball does not overlap leaves the ball as it is and
/// gives rise to no score event.
pub proof fn miss_changes_nothing(ball: BallModel, obstacle: Obstacle)
    requires
        !overlaps(ball.position, ball.size, obstacle.position, obstacle.size),
    ensures
        hit(ball, obstacle) == ball,
        conceded(ball, obstacle) is None,
{
}

/// If the ball causes a score event on the obstacle at place `k` and on no
/// other, that event is the only one of the frame.
pub proof fn single_goal_single_event(ball: BallModel, obstacles: Seq<Obstacle>, k: int)
    requires
        0 <= k < obstacles.len(),
        conceded(ball, obstacles[k]) is Some,
        forall|j: int|
            0 <= j < obstacles.len() && j != k ==> conceded(ball, #[trigger] obstacles[j]) is None,
    ensures
        goal_events(ball, obstacles) == seq![conceded(ball, obstacles[k])->0],
    decreases obstacles.len(),
{
    let earlier = obstacles.drop_last();
    if k < obstacles.len() - 1 {
        assert forall|j: int| 0 <= j < earlier.len() && j != k implies conceded(
            ball,
            #[trigger] earlier[j],
        ) is None by {
            assert(earlier[j] == obstacles[j]);
        }
        single_goal_single_event(ball, earlier, k);
        assert(conceded(ball, obstacles[obstacles.len() - 1]) is None);
    } else {
        assert forall|j: int| 0 <= j < earlier.len() implies conceded(
            ball,
            #[trigger] earlier[j],
        ) is None by {
            assert(earlier[j] == obstacles[j]);
        }
        no_goal_no_event(ball, earlier);
        assert(goal_events(ball, obstacles) =~= seq![conceded(ball, obstacles[k])->0]);
    }
}

/// If the ball causes a score event on none of the obstacles, the frame
/// has no score event.
pub proof fn no_goal_no_event(ball: BallModel, obstacles: Seq<Obstacle>)
    requires
        forall|j: int| 0 <= j < obstacles.len() ==> conceded(ball, #[trigger] obstacles[j]) is None,
    ensures
        goal_events(ball, obstacles) == Seq::<ScoreEvent>::empty(),
    decreases obstacles.len(),
{
    if obstacles.len() > 0 {
        let earlier = obstacles.drop_last();
        assert forall|j: int| 0 <= j < earlier.len() implies conceded(
            ball,
            #[trigger] earlier[j],
        ) is None by {
            assert(earlier[j] == obstacles[j]);
        }
        no_goal_no_event(ball, earlier);
        assert(conceded(ball, obstacles[obstacles.len() - 1]) is None);
    }
}

/// A frame has at most one score event for each obstacle.
pub proof fn lemma_events_bounded(ball: BallModel, obstacles: Seq<Obstacle>)
    ensures
        goal_events(ball, obstacles).len() <= obstacles.len(),
    decreases obstacles.len(),
{
    if obstacles.len() > 0 {
        lemma_events_bounded(ball, obstacles.drop_last());
    }
}

/// A ball that overlaps none of the obstacles keeps its velocity and causes
/// no score event.
pub proof fn lemma_clear_of(ball: BallModel, obstacles: Seq<Obstacle>)
    requires
        forall|i: int|
            0 <= i < obstacles.len() ==> !overlaps(
                ball.position,
                ball.size,
                (#[trigger] obstacles[i]).position,
                obstacles[i].size,
            ),
    ensures
        hit_all(ball, obstacles) == ball,
        goal_events(ball, obstacles).len() == 0,
    decreases obstacles.len(),
{
    if obstacles.len() > 0 {
        let earlier = obstacles.drop_last();
        assert forall|i: int| 0 <= i < earlier.len() implies !overlaps(
            ball.position,
            ball.size,
            (#[trigger] earlier[i]).position,
            earlier[i].size,
        ) by {
            assert(earlier[i] == obstacles[i]);
        }
        lemma_clear_of(ball, earlier);
        assert(obstacles.last() == obstacles[obstacles.len() - 1]);
    }
}

/// The score events of a frame depend on where the ball is and how large,
/// not on how it moves.
pub proof fn lemma_events_depend_on_place(a: BallModel, b: BallModel, obstacles: Seq<Obstacle>)
    requires
        a.position == b.position,
        a.size == b.size,
    ensures
        goal_events(a, obstacles) == goal_events(b, obstacles),
    decreases obstacles.len(),
{
    if obstacles.len() > 0 {
        lemma_events_depend_on_place(a, b, obstacles.drop_last());
    }
}

/// Collisions never move the ball nor change its size.
pub proof fn lemma_hit_keeps_place(ball: BallModel, obstacles: Seq<Obstacle>)
    ensures
        hit_all(ball, obstacles).position == ball.position,
        hit_all(ball, obstacles).size == ball.size,
    decreases obstacles.len(),
{
    if obstacles.len() > 0 {
        lemma_hit_keeps_place(ball, obstacles.drop_last());
    }
}

} // verus!

//! Movement: paddles follow the keys and stay between the walls, the ball
//! follows its velocity. Nothing moves while the game is paused.

use crate::entities::{
    Ball, BallModel, Controls, Paddle, PaddleModel, BOUND, MAX_DELTA_MICROS, MICROS_PER_SECOND,
};
use crate::geometry::{Point, Vec2};
use vstd::prelude::*;

verus! {

/// The time step that is simulated for a frame that took `delta`
/// microseconds: long frames are cut short, so that nothing moves too far
/// at once.
pub open spec fn clamped_delta(delta: int) -> int {
    if delta <= MAX_DELTA_MICROS {
        delta
    } else {
        MAX_DELTA_MICROS as int
    }
}

/// The distance covered at `velocity` during `micros` microseconds, rounded
/// towards zero.
pub open spec fn displacement(velocity: int, micros: int) -> int {
    if velocity >= 0 {
        (velocity * micros) / (MICROS_PER_SECOND as int)
    } else {
        -(((-velocity) * micros) / (MICROS_PER_SECOND as int))
    }
}

/// The direction that two opposed keys ask for: up is 1, down is -1, and
/// both or neither is 0.
pub open spec fn direction(up: bool, down: bool) -> int {
    (if up {
        1int
    } else {
        0int
    }) - (if down {
        1int
    } else {
        0int
    })
}

/// The direction that the controls ask of a team's paddle: team 0 listens
/// to the left pair of keys, every other team to the right pair.
pub open spec fn steering(controls: Controls, team: nat) -> int {
    if team == 0 {
        direction(controls.left_up, controls.left_down)
    } else {
        direction(controls.right_up, controls.right_down)
    }
}

/// `y` brought back between the walls.
pub open spec fn clamped_to_court(y: int) -> int {
    if y > BOUND {
        BOUND as int
    } else if y < -BOUND {
        -BOUND
    } else {
        y
    }
}

/// A paddle after one frame of `delta` microseconds.
pub open spec fn moved_paddle(paddle: PaddleModel, controls: Controls, delta: int) -> PaddleModel {
    PaddleModel {
        position: Point {
            x: paddle.position.x,
            y: clamped_to_court(
                paddle.position.y + displacement(
                    paddle.speed * steering(controls, paddle.team),
                    clamped_delta(delta),
                ),
            ),
        },
        ..paddle
    }
}

/// The ball after one frame of `delta` microseconds.
pub open spec fn moved_ball(ball: BallModel, delta: int) -> BallModel {
    BallModel {
        position: Point {
            x: ball.position.x + displacement(ball.velocity.x, clamped_delta(delta)),
            y: ball.position.y + displacement(ball.velocity.y, clamped_delta(delta)),
        },
        ..ball
    }
}

/// The distance covered at `velocity` during `micros` microseconds.
fn travel(velocity: i128, micros: u64) -> (distance: i128)
    requires
        -0x8000_0000_0000_0000 <= velocity <= 0x8000_0000_0000_0000,
        micros <= MAX_DELTA_MICROS,
    ensures
        distance == displacement(velocity as int, micros as int),
        -0x8000_0000_0000_0000 <= distance <= 0x8000_0000_0000_0000,
{
    let v: i128 = velocity;
    let t: i128 = micros as i128;
    if v >= 0 {
        assert(0 <= v * t <= 0x8000_0000_0000_0000 * 200_000) by (nonlinear_arith)
            requires
                0 <= v <= 0x8000_0000_0000_0000,
                0 <= t <= 200_000,
        ;
        (v * t) / (MICROS_PER_SECOND as i128)
    } else {
        assert(0 <= (-v) * t <= 0x8000_0000_0000_0000 * 200_000) by (nonlinear_arith)
            requires
                0 <= -v <= 0x8000_0000_0000_0000,
                0 <= t <= 200_000,
        ;
        -(((-v) * t) / (MICROS_PER_SECOND as i128))
    }
}

fn clamp_delta(delta_micros: u64) -> (micros: u64)
    ensures
        micros == clamped_delta(delta_micros as int),
{
    if delta_micros <= MAX_DELTA_MICROS {
        delta_micros
    } else {
        MAX_DELTA_MICROS
    }
}

fn steer(up: bool, down: bool) -> (d: i64)
    ensures
        d == direction(up, down),
{
    let mut d: i64 = 0;
    if up {
        d += 1;
    }
    if down {
        d -= 1;
    }
    d
}

impl Paddle {
    /// Moves the paddle for one frame of `delta_micros` microseconds, as the
    /// controls ask, and keeps it between the walls.
    pub fn advance(&mut self, delta_micros: u64, controls: &Controls)
        ensures
            final(self)@ == moved_paddle(old(self)@, *controls, delta_micros as int),
            final(self)@.in_bounds(),
    {
        let micros = clamp_delta(delta_micros);
        let d = if self.team == 0 {
            steer(controls.left_up, controls.left_down)
        } else {
            steer(controls.right_up, controls.right_down)
        };
        let velocity: i128 = if d == 0 {
            0
        } else if d == 1 {
            self.speed as i128
        } else {
            -(self.speed as i128)
        };
        assert(velocity == self.speed * steering(*controls, self.team as nat)) by (nonlinear_arith)
            requires
                d == steering(*controls, self.team as nat),
                velocity == if d == 0 {
                    0
                } else if d == 1 {
                    self.speed as int
                } else {
                    -(self.speed as int)
                },
                -1 <= d <= 1,
        ;
        let moved: i128 = (self.position.y as i128) + travel(velocity, micros);
        if moved > BOUND as i128 {
            self.position.y = BOUND;
        } else if moved < -(BOUND as i128) {
            self.position.y = -BOUND;
        } else {
            self.position.y = moved as i64;
        }
    }
}

/// Moves every paddle for one frame, unless the game is paused. Afterwards
/// each paddle that has moved lies between the walls, however long the
/// frame and however fast the paddle.
pub fn paddle_movement_system(
    paused: bool,
    delta_micros: u64,
    controls: &Controls,
    paddles: &mut Vec<Paddle>,
)
    ensures
        final(paddles)@.len() == old(paddles)@.len(),
        paused ==> final(paddles)@ == old(paddles)@,
        !paused ==> forall|i: int|
            0 <= i < old(paddles)@.len() ==> {
                &&& (#[trigger] final(paddles)@[i])@ == moved_paddle(
                    old(paddles)@[i]@,
                    *controls,
                    delta_micros as int,
                )
                &&& final(paddles)@[i]@.in_bounds()
            },
{
    if !paused {
        let mut i: usize = 0;
        while i < paddles.len()
            invariant
                i <= paddles.len(),
                paddles@.len() == old(paddles)@.len(),
                forall|k: int|
                    0 <= k < i ==> {
                        &&& (#[trigger] paddles@[k])@ == moved_paddle(
                            old(paddles)@[k]@,
                            *controls,
                            delta_micros as int,
                        )
                        &&& paddles@[k]@.in_bounds()
                    },
                forall|k: int| i <= k < paddles@.len() ==> paddles@[k] == old(paddles)@[k],
            decreases paddles.len() - i,
        {
            let mut paddle = paddles[i];
            paddle.advance(delta_micros, controls);
            paddles.set(i, paddle);
            i += 1;
        }
    }
}

/// Moves the ball for one frame, unless the game is paused.
///
/// The new position must fit a coordinate.
pub fn ball_movement_system(paused: bool, delta_micros: u64, ball: &mut Ball)
    requires
        !paused ==> moved_ball(old(ball)@, delta_micros as int).position.representable(),
    ensures
        final(ball)@ == if paused {
            old(ball)@
        } else {
            moved_ball(old(ball)@, delta_micros as int)
        },
{
    if !paused {
        let micros = clamp_delta(delta_micros);
        let x: i128 = (ball.position.x as i128) + travel(ball.velocity.x as i128, micros);
        let y: i128 = (ball.position.y as i128) + travel(ball.velocity.y as i128, micros);
        ball.position = Vec2 { x: x as i64, y: y as i64 };
    }
}

} // verus!

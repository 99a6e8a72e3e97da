//! The things on the court: paddles, the ball, the fixed boundaries and the
//! score, each with the mathematical model that the contracts speak of.

use crate::geometry::{Point, Vec2};
use vstd::prelude::*;

verus! {

/// One unit of length in fixed-point form.
pub const UNIT: i64 = 1_000;

/// Half the width of the court, and its height.
pub const DIM: i64 = 500_000;

/// The height of a paddle.
pub const PADDLE_HEIGHT: i64 = 100_000;

/// The thickness of walls, goals and paddles.
pub const WALL_THICKNESS: i64 = 10_000;

/// The furthest a paddle's centre may be from the middle line: twice the
/// height of a paddle, less half the thickness of a wall.
pub const BOUND: i64 = 195_000;

/// The side length of the ball.
pub const BALL_SIZE: i64 = 50_000;

/// The speed of a paddle, per second.
pub const PADDLE_SPEED: i64 = 500_000;

/// The horizontal speed with which the ball is served.
pub const LAUNCH_SPEED_X: i64 = 500_000;

/// The vertical speed with which the ball is served.
pub const LAUNCH_SPEED_Y: i64 = 50_000;

/// What is added to a velocity component after it has been negated.
pub const REFLECT_BIAS: i64 = 5_000;

/// The vertical speed that a paddle gives the ball, per unit of distance
/// between their centres.
pub const DEFLECTION_GAIN: i64 = 10;

/// The longest time step that is simulated at once, in microseconds.
pub const MAX_DELTA_MICROS: u64 = 200_000;

/// Microseconds in a second.
pub const MICROS_PER_SECOND: i64 = 1_000_000;

/// Whether the simulation stands still.
#[derive(Clone, Copy, Debug, PartialEq, Eq, Structural)]
pub struct Pauser {
    pub paused: bool,
}

/// What the ball does when it overlaps a rectangle.
#[derive(Clone, Copy, Debug, PartialEq, Eq, Structural)]
pub enum Collider {
    /// Sends the ball back across the court, at an angle.
    Paddle,
    /// Sends the ball back up or down.
    Wall,
    /// The goal of the left player.
    Left,
    /// The goal of the right player.
    Right,
}

/// A goal was crossed; the event names the side that conceded it.
#[derive(Clone, Copy, Debug, PartialEq, Eq, Structural)]
pub enum ScoreEvent {
    Left,
    Right,
}

/// The keys held during one frame, and whether the pause key was let go.
#[derive(Clone, Copy, Debug, PartialEq, Eq, Structural)]
pub struct Controls {
    pub left_up: bool,
    pub left_down: bool,
    pub right_up: bool,
    pub right_down: bool,
    pub pause_released: bool,
}

impl Controls {
    /// No key is held and none was let go.
    pub fn idle() -> (c: Controls)
        ensures
            c == (Controls {
                left_up: false,
                left_down: false,
                right_up: false,
                right_down: false,
                pause_released: false,
            }),
    {
        Controls {
            left_up: false,
            left_down: false,
            right_up: false,
            right_down: false,
            pause_released: false,
        }
    }
}

/// The goals that each side has scored.
#[derive(Clone, Copy, Debug, PartialEq, Eq, Structural)]
pub struct ScoreBoard {
    pub left: usize,
    pub right: usize,
}

/// The score as two natural numbers.
pub struct Score {
    pub left: nat,
    pub right: nat,
}

impl View for ScoreBoard {
    type V = Score;

    open spec fn view(&self) -> Score {
        Score { left: self.left as nat, right: self.right as nat }
    }
}

impl Default for ScoreBoard {
    fn default() -> (board: ScoreBoard)
        ensures
            board.left == 0,
            board.right == 0,
    {
        ScoreBoard { left: 0, right: 0 }
    }
}

/// A paddle: `team` 0 plays on the left, any other team on the right.
#[derive(Clone, Copy, Debug, PartialEq, Eq, Structural)]
pub struct Paddle {
    pub team: usize,
    pub speed: i64,
    pub position: Vec2,
    pub size: Vec2,
}

/// The model of a paddle.
pub struct PaddleModel {
    pub team: nat,
    pub speed: int,
    pub position: Point,
    pub size: Point,
}

impl View for Paddle {
    type V = PaddleModel;

    open spec fn view(&self) -> PaddleModel {
        PaddleModel {
            team: self.team as nat,
            speed: self.speed as int,
            position: self.position@,
            size: self.size@,
        }
    }
}

impl PaddleModel {
    /// The paddle as something for the ball to strike.
    pub open spec fn obstacle(self) -> Obstacle {
        Obstacle { collider: Collider::Paddle, position: self.position, size: self.size }
    }

    /// Whether the paddle's centre is within reach of the walls.
    pub open spec fn in_bounds(self) -> bool {
        -BOUND <= self.position.y <= BOUND
    }
}

/// The ball.
#[derive(Clone, Copy, Debug, PartialEq, Eq, Structural)]
pub struct Ball {
    pub position: Vec2,
    pub velocity: Vec2,
    pub size: Vec2,
}

/// The model of the ball.
pub struct BallModel {
    pub position: Point,
    pub velocity: Point,
    pub size: Point,
}

impl View for Ball {
    type V = BallModel;

    open spec fn view(&self) -> BallModel {
        BallModel { position: self.position@, velocity: self.velocity@, size: self.size@ }
    }
}

/// A rectangle that never moves: a wall or a goal.
#[derive(Clone, Copy, Debug, PartialEq, Eq, Structural)]
pub struct Boundary {
    pub collider: Collider,
    pub position: Vec2,
    pub size: Vec2,
}

/// A rectangle that the ball may overlap, with what it does to the ball.
pub struct Obstacle {
    pub collider: Collider,
    pub position: Point,
    pub size: Point,
}

impl View for Boundary {
    type V = Obstacle;

    open spec fn view(&self) -> Obstacle {
        Obstacle { collider: self.collider, position: self.position@, size: self.size@ }
    }
}

/// Whether a mathematical integer can be stored in a coordinate.
pub open spec fn representable(v: int) -> bool {
    i64::MIN <= v <= i64::MAX
}

impl Point {
    /// Whether both coordinates can be stored.
    pub open spec fn representable(self) -> bool {
        representable(self.x) && representable(self.y)
    }
}

/// The models of a sequence of paddles.
pub open spec fn paddle_models(paddles: Seq<Paddle>) -> Seq<PaddleModel> {
    Seq::new(paddles.len(), |i: int| paddles[i]@)
}

/// The models of a sequence of boundaries.
pub open spec fn boundary_models(boundaries: Seq<Boundary>) -> Seq<Obstacle> {
    Seq::new(boundaries.len(), |i: int| boundaries[i]@)
}

} // verus!

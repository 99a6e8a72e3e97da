//! The whole game: its state, the court it starts on, and the frame that
//! runs movement, collision, scoring and pause control in that order.

use crate::collision::{
    ball_collision_system, goal_events, hit_all, lemma_events_bounded, lemma_hit_keeps_place,
    obstacles,
};
use crate::entities::{
    boundary_models, paddle_models, Ball, BallModel, Boundary, Collider, Controls, Obstacle,
    Paddle, PaddleModel, Pauser, Score, ScoreBoard, ScoreEvent, BALL_SIZE, DEFLECTION_GAIN, DIM,
    LAUNCH_SPEED_X, LAUNCH_SPEED_Y, MICROS_PER_SECOND, PADDLE_HEIGHT, PADDLE_SPEED, REFLECT_BIAS,
    WALL_THICKNESS,
};
use crate::geometry::{Point, Vec2};
use crate::movement::{
    ball_movement_system, clamped_delta, displacement, moved_ball, moved_paddle,
    paddle_movement_system,
};
use crate::pause::{pause_system, toggled};
use crate::scoring::{count, score, score_text, served, tallied};
use vstd::prelude::*;

verus! {

/// The state of a game: one ball, the paddles, the fixed boundaries, the
/// score and the pause switch.
pub struct Game {
    pub ball: Ball,
    pub paddles: Vec<Paddle>,
    pub boundaries: Vec<Boundary>,
    pub scoreboard: ScoreBoard,
    pub pauser: Pauser,
}

/// The model of a game.
pub struct GameModel {
    pub ball: BallModel,
    pub paddles: Seq<PaddleModel>,
    pub boundaries: Seq<Obstacle>,
    pub score: Score,
    pub paused: bool,
}

impl View for Game {
    type V = GameModel;

    open spec fn view(&self) -> GameModel {
        GameModel {
            ball: self.ball@,
            paddles: paddle_models(self.paddles@),
            boundaries: boundary_models(self.boundaries@),
            score: self.scoreboard@,
            paused: self.pauser.paused,
        }
    }
}

/// The largest position, velocity or extent, in either direction, with
/// which a game is certain to get through a frame.
pub const LIMIT: i64 = 1_000_000_000_000;

/// The largest number of paddles and boundaries with which a game is
/// certain to get through a frame.
pub const MAX_OBSTACLES: usize = 1_000_000;

/// The keys and the duration of one frame.
pub struct Step {
    pub controls: Controls,
    pub delta: int,
}

/// What one frame hands to the display.
pub struct Frame {
    /// The goals conceded during the frame, in the order in which they arose.
    pub events: Vec<ScoreEvent>,
    /// The score as it is shown after the frame.
    pub text: String,
}

/// Every paddle of `paddles` after one frame of `delta` microseconds.
pub open spec fn moved_paddles(paddles: Seq<PaddleModel>, controls: Controls, delta: int) -> Seq<
    PaddleModel,
> {
    Seq::new(paddles.len(), |i: int| moved_paddle(paddles[i], controls, delta))
}

impl GameModel {
    /// The game after the movement stage.
    pub open spec fn moved(self, controls: Controls, delta: int) -> GameModel {
        if self.paused {
            self
        } else {
            GameModel {
                ball: moved_ball(self.ball, delta),
                paddles: moved_paddles(self.paddles, controls, delta),
                ..self
            }
        }
    }

    /// All that the ball is tested against.
    pub open spec fn obstacles(self) -> Seq<Obstacle> {
        obstacles(self.paddles, self.boundaries)
    }

    /// The score events of a frame: those that the ball causes where the
    /// movement stage has put it.
    pub open spec fn events(self, controls: Controls, delta: int) -> Seq<ScoreEvent> {
        let moved = self.moved(controls, delta);
        goal_events(moved.ball, moved.obstacles())
    }

    /// The game after one frame: movement, then collision, then scoring,
    /// then pause control.
    pub open spec fn tick(self, controls: Controls, delta: int) -> GameModel {
        let moved = self.moved(controls, delta);
        let events = goal_events(moved.ball, moved.obstacles());
        GameModel {
            ball: served(hit_all(moved.ball, moved.obstacles()), events),
            score: tallied(self.score, events),
            paused: toggled(self.paused, controls.pause_released),
            ..moved
        }
    }

    /// Whether every value that a frame computes can be stored: the moved
    /// ball's position, its velocity after the collisions, and the score.
    pub open spec fn can_tick(self, controls: Controls, delta: int) -> bool {
        let moved = self.moved(controls, delta);
        &&& moved.ball.position.representable()
        &&& hit_all(moved.ball, moved.obstacles()).velocity.representable()
        &&& tallied(self.score, self.events(controls, delta)).left <= usize::MAX
        &&& tallied(self.score, self.events(controls, delta)).right <= usize::MAX
    }
}

impl Point {
    /// Whether neither coordinate is further than `limit` from zero.
    pub open spec fn within(self, limit: int) -> bool {
        -limit <= self.x <= limit && -limit <= self.y <= limit
    }
}

impl GameModel {
    /// Whether the game is small enough to be certain to get through a
    /// frame: the ball's position, velocity and size and the size of every
    /// paddle and boundary are within `LIMIT`, there are at most
    /// `MAX_OBSTACLES` paddles and boundaries, and each count of goals has
    /// room for as many more.
    pub open spec fn within_limits(self) -> bool {
        &&& self.ball.position.within(LIMIT as int)
        &&& self.ball.velocity.within(LIMIT as int)
        &&& self.ball.size.within(LIMIT as int)
        &&& forall|i: int|
            0 <= i < self.paddles.len() ==> (#[trigger] self.paddles[i]).size.within(LIMIT as int)
        &&& forall|i: int|
            0 <= i < self.boundaries.len() ==> (#[trigger] self.boundaries[i]).size.within(
                LIMIT as int,
            )
        &&& self.paddles.len() + self.boundaries.len() <= MAX_OBSTACLES
        &&& self.score.left + MAX_OBSTACLES <= usize::MAX
        &&& self.score.right + MAX_OBSTACLES <= usize::MAX
    }

    /// The game after the frames `steps`, the first of them first.
    pub open spec fn run(self, steps: Seq<Step>) -> GameModel
        decreases steps.len(),
    {
        if steps.len() == 0 {
            self
        } else {
            self.run(steps.drop_last()).tick(steps.last().controls, steps.last().delta)
        }
    }

    /// Whether a frame's collisions and scoring would leave the game as it
    /// is: no wall or paddle changes the ball's velocity, and no goal is
    /// overlapped.
    pub open spec fn at_rest(self) -> bool {
        &&& hit_all(self.ball, self.obstacles()) == self.ball
        &&& goal_events(self.ball, self.obstacles()).len() == 0
    }
}

/// Whether the pause key is left alone in every one of `steps`.
pub open spec fn pause_untouched(steps: Seq<Step>) -> bool {
    forall|i: int| 0 <= i < steps.len() ==> !(#[trigger] steps[i]).controls.pause_released
}

/// A paddle as the game starts: team 0 near the left goal, any other team
/// near the right goal.
pub open spec fn opening_paddle(team: nat) -> PaddleModel {
    PaddleModel {
        team,
        speed: PADDLE_SPEED as int,
        position: Point { x: if team == 0 { -DIM + 10_000 } else { DIM - 10_000 }, y: 0 },
        size: Point { x: WALL_THICKNESS as int, y: PADDLE_HEIGHT as int },
    }
}

/// The boundaries of the court: the left goal, the right goal, the bottom
/// wall and the top wall.
pub open spec fn court() -> Seq<Obstacle> {
    seq![
        Obstacle {
            collider: Collider::Left,
            position: Point { x: -DIM, y: 0 },
            size: Point { x: WALL_THICKNESS as int, y: DIM + WALL_THICKNESS },
        },
        Obstacle {
            collider: Collider::Right,
            position: Point { x: DIM as int, y: 0 },
            size: Point { x: WALL_THICKNESS as int, y: DIM + WALL_THICKNESS },
        },
        Obstacle {
            collider: Collider::Wall,
            position: Point { x: 0, y: -250_000 },
            size: Point { x: 2 * DIM, y: WALL_THICKNESS as int },
        },
        Obstacle {
            collider: Collider::Wall,
            position: Point { x: 0, y: 250_000 },
            size: Point { x: 2 * DIM, y: WALL_THICKNESS as int },
        },
    ]
}

/// The game as it starts: the ball at the centre, served to the right; a
/// paddle near each goal; nothing scored; running.
pub open spec fn opening() -> GameModel {
    GameModel {
        ball: BallModel {
            position: Point { x: 0, y: 0 },
            velocity: Point { x: LAUNCH_SPEED_X as int, y: LAUNCH_SPEED_Y as int },
            size: Point { x: BALL_SIZE as int, y: BALL_SIZE as int },
        },
        paddles: seq![opening_paddle(0), opening_paddle(1)],
        boundaries: court(),
        score: Score { left: 0, right: 0 },
        paused: false,
    }
}

/// Lays out the court and puts the ball and the paddles in place.
pub fn setup() -> (game: Game)
    ensures
        game@ == opening(),
{
    let mut paddles: Vec<Paddle> = Vec::new();
    paddles.push(
        Paddle {
            team: 0,
            speed: PADDLE_SPEED,
            position: Vec2 { x: -DIM + 10_000, y: 0 },
            size: Vec2 { x: WALL_THICKNESS, y: PADDLE_HEIGHT },
        },
    );
    paddles.push(
        Paddle {
            team: 1,
            speed: PADDLE_SPEED,
            position: Vec2 { x: DIM - 10_000, y: 0 },
            size: Vec2 { x: WALL_THICKNESS, y: PADDLE_HEIGHT },
        },
    );
    let ball = Ball {
        position: Vec2 { x: 0, y: 0 },
        velocity: Vec2 { x: LAUNCH_SPEED_X, y: LAUNCH_SPEED_Y },
        size: Vec2 { x: BALL_SIZE, y: BALL_SIZE },
    };
    let mut boundaries: Vec<Boundary> = Vec::new();
    boundaries.push(
        Boundary {
            collider: Collider::Left,
            position: Vec2 { x: -DIM, y: 0 },
            size: Vec2 { x: WALL_THICKNESS, y: DIM + WALL_THICKNESS },
        },
    );
    boundaries.push(
        Boundary {
            collider: Collider::Right,
            position: Vec2 { x: DIM, y: 0 },
            size: Vec2 { x: WALL_THICKNESS, y: DIM + WALL_THICKNESS },
        },
    );
    boundaries.push(
        Boundary {
            collider: Collider::Wall,
            position: Vec2 { x: 0, y: -250_000 },
            size: Vec2 { x: 2 * DIM, y: WALL_THICKNESS },
        },
    );
    boundaries.push(
        Boundary {
            collider: Collider::Wall,
            position: Vec2 { x: 0, y: 250_000 },
            size: Vec2 { x: 2 * DIM, y: WALL_THICKNESS },
        },
    );
    let game = Game {
        ball,
        paddles,
        boundaries,
        scoreboard: ScoreBoard { left: 0, right: 0 },
        pauser: Pauser { paused: false },
    };
    proof {
        assert(game@.paddles =~= opening().paddles);
        assert(game@.boundaries =~= opening().boundaries);
    }
    game
}

impl Game {
    /// Runs one frame of `delta_micros` microseconds: the paddles and the
    /// ball move, the ball's collisions are resolved, the goals are counted
    /// and the ball served again, and the pause key is looked at last, so
    /// that it takes effect from the next frame on.
    ///
    /// Every value that the frame computes must fit where it is stored.
    pub fn tick(&mut self, controls: &Controls, delta_micros: u64) -> (frame: Frame)
        requires
            old(self)@.can_tick(*controls, delta_micros as int),
        ensures
            final(self)@ == old(self)@.tick(*controls, delta_micros as int),
            frame.events@ == old(self)@.events(*controls, delta_micros as int),
            frame.text@ == score_text(final(self)@.score),
    {
        let paused = self.pauser.paused;
        paddle_movement_system(paused, delta_micros, controls, &mut self.paddles);
        ball_movement_system(paused, delta_micros, &mut self.ball);
        proof {
            let moved = old(self)@.moved(*controls, delta_micros as int);
            assert(paddle_models(self.paddles@) =~= moved.paddles);
            assert(self@ == moved);
        }
        let events = ball_collision_system(&mut self.ball, &self.paddles, &self.boundaries);
        let text = score(&events, &mut self.ball, &mut self.scoreboard);
        pause_system(controls.pause_released, &mut self.pauser);
        Frame { events, text }
    }

    /// Runs one frame if the game is within the limits, and tells so by
    /// returning what the frame hands to the display; a game beyond the
    /// limits is left as it is.
    pub fn try_tick(&mut self, controls: &Controls, delta_micros: u64) -> (frame: Option<Frame>)
        ensures
            frame is Some <==> old(self)@.within_limits(),
            frame matches Some(shown) ==> {
                &&& final(self)@ == old(self)@.tick(*controls, delta_micros as int)
                &&& shown.events@ == old(self)@.events(*controls, delta_micros as int)
                &&& shown.text@ == score_text(final(self)@.score)
            },
            frame is None ==> *final(self) == *old(self),
    {
        if self.within_limits() {
            proof {
                limits_suffice(self@, *controls, delta_micros as int);
            }
            Some(self.tick(controls, delta_micros))
        } else {
            None
        }
    }

    /// Whether the game is within the limits under which a frame is certain
    /// to go through.
    pub fn within_limits(&self) -> (ok: bool)
        ensures
            ok == self@.within_limits(),
    {
        if !(fits_limit(self.ball.position) && fits_limit(self.ball.velocity) && fits_limit(
            self.ball.size,
        )) {
            return false;
        }
        if self.paddles.len() > MAX_OBSTACLES || self.boundaries.len() > MAX_OBSTACLES
            - self.paddles.len() {
            return false;
        }
        if self.scoreboard.left > usize::MAX - MAX_OBSTACLES || self.scoreboard.right > usize::MAX
            - MAX_OBSTACLES {
            return false;
        }
        let mut i: usize = 0;
        while i < self.paddles.len()
            invariant
                i <= self.paddles.len(),
                forall|k: int|
                    0 <= k < i ==> (#[trigger] self@.paddles[k]).size.within(LIMIT as int),
            decreases self.paddles.len() - i,
        {
            if !fits_limit(self.paddles[i].size) {
                assert(!self@.paddles[i as int].size.within(LIMIT as int));
                return false;
            }
            i += 1;
        }
        let mut j: usize = 0;
        while j < self.boundaries.len()
            invariant
                j <= self.boundaries.len(),
                forall|k: int|
                    0 <= k < j ==> (#[trigger] self@.boundaries[k]).size.within(LIMIT as int),
            decreases self.boundaries.len() - j,
        {
            if !fits_limit(self.boundaries[j].size) {
                assert(!self@.boundaries[j as int].size.within(LIMIT as int));
                return false;
            }
            j += 1;
        }
        true
    }
}

fn fits_limit(v: Vec2) -> (ok: bool)
    ensures
        ok == v@.within(LIMIT as int),
{
    -LIMIT <= v.x && v.x <= LIMIT && -LIMIT <= v.y && v.y <= LIMIT
}

/// In at most a second nothing travels further than its speed.
proof fn lemma_displacement_bounded(velocity: int, micros: int)
    requires
        0 <= micros <= MICROS_PER_SECOND,
    ensures
        velocity >= 0 ==> 0 <= displacement(velocity, micros) <= velocity,
        velocity <= 0 ==> velocity <= displacement(velocity, micros) <= 0,
{
    let speed = if velocity >= 0 {
        velocity
    } else {
        -velocity
    };
    assert(0 <= (speed * micros) / 1_000_000 <= speed) by (nonlinear_arith)
        requires
            0 <= speed,
            0 <= micros <= 1_000_000,
    ;
}

/// Each obstacle adds at most the bias to either component of the ball's
/// velocity, once that component is as large as any that a paddle gives.
proof fn lemma_velocity_bounded(ball: BallModel, obstacles: Seq<Obstacle>, bound: int)
    requires
        ball.velocity.within(bound),
        bound >= DEFLECTION_GAIN * LIMIT,
        ball.size.y <= LIMIT,
        forall|i: int| 0 <= i < obstacles.len() ==> (#[trigger] obstacles[i]).size.y <= LIMIT,
    ensures
        hit_all(ball, obstacles).velocity.within(bound + REFLECT_BIAS * obstacles.len()),
    decreases obstacles.len(),
{
    if obstacles.len() > 0 {
        let earlier = obstacles.drop_last();
        assert forall|i: int| 0 <= i < earlier.len() implies (#[trigger] earlier[i]).size.y
            <= LIMIT by {
            assert(earlier[i] == obstacles[i]);
        }
        lemma_velocity_bounded(ball, earlier, bound);
        lemma_hit_keeps_place(ball, earlier);
        assert(obstacles.last() == obstacles[obstacles.len() - 1]);
    }
}

/// A frame counts at most one goal for each obstacle.
proof fn lemma_count_bounded(events: Seq<ScoreEvent>, side: ScoreEvent)
    ensures
        count(events, side) <= events.len(),
    decreases events.len(),
{
    if events.len() > 0 {
        lemma_count_bounded(events.drop_last(), side);
    }
}

/// A game within the limits gets through a frame, whatever the keys and
/// however long the frame.
pub proof fn limits_suffice(game: GameModel, controls: Controls, delta: int)
    requires
        game.within_limits(),
        0 <= delta,
    ensures
        game.can_tick(controls, delta),
{
    let moved = game.moved(controls, delta);
    let all = moved.obstacles();
    lemma_displacement_bounded(game.ball.velocity.x, clamped_delta(delta));
    lemma_displacement_bounded(game.ball.velocity.y, clamped_delta(delta));
    assert forall|i: int| 0 <= i < all.len() implies (#[trigger] all[i]).size.y <= LIMIT by {
        if i < moved.paddles.len() {
            assert(game.paddles[i].size.within(LIMIT as int));
        } else {
            assert(game.boundaries[i - moved.paddles.len()].size.within(LIMIT as int));
        }
    }
    lemma_velocity_bounded(moved.ball, all, DEFLECTION_GAIN * LIMIT);
    let events = game.events(controls, delta);
    lemma_events_bounded(moved.ball, all);
    lemma_count_bounded(events, ScoreEvent::Left);
    lemma_count_bounded(events, ScoreEvent::Right);
}

} // verus!

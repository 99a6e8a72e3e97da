use pong::collision::ball_collision_system;
use pong::entities::{
    Ball, Boundary, Collider, Controls, Paddle, Pauser, ScoreBoard, ScoreEvent, BOUND,
};
use pong::game::{setup, Game, LIMIT, MAX_OBSTACLES};
use pong::geometry::Vec2;
use pong::scoring::score;

fn pause_key() -> Controls {
    Controls { pause_released: true, ..Controls::idle() }
}

fn goal(collider: Collider, x: i64) -> Boundary {
    Boundary { collider, position: Vec2::new(x, 0), size: Vec2::new(10_000, 510_000) }
}

#[test]
fn setup_lays_out_the_court() {
    let game = setup();
    assert_eq!(
        game.ball,
        Ball {
            position: Vec2::new(0, 0),
            velocity: Vec2::new(500_000, 50_000),
            size: Vec2::new(50_000, 50_000),
        }
    );
    assert_eq!(
        game.paddles,
        vec![
            Paddle {
                team: 0,
                speed: 500_000,
                position: Vec2::new(-490_000, 0),
                size: Vec2::new(10_000, 100_000),
            },
            Paddle {
                team: 1,
                speed: 500_000,
                position: Vec2::new(490_000, 0),
                size: Vec2::new(10_000, 100_000),
            },
        ]
    );
    assert_eq!(
        game.boundaries,
        vec![
            goal(Collider::Left, -500_000),
            goal(Collider::Right, 500_000),
            Boundary {
                collider: Collider::Wall,
                position: Vec2::new(0, -250_000),
                size: Vec2::new(1_000_000, 10_000),
            },
            Boundary {
                collider: Collider::Wall,
                position: Vec2::new(0, 250_000),
                size: Vec2::new(1_000_000, 10_000),
            },
        ]
    );
    assert_eq!(game.scoreboard, ScoreBoard { left: 0, right: 0 });
    assert_eq!(game.pauser, Pauser { paused: false });
    assert!(game.within_limits());
}

#[test]
fn first_frame_moves_the_ball() {
    let mut game = setup();
    let frame = game.tick(&Controls::idle(), 16_000);
    assert_eq!(game.ball.position, Vec2::new(8_000, 800));
    assert_eq!(game.ball.velocity, Vec2::new(500_000, 50_000));
    assert!(frame.events.is_empty());
    assert_eq!(frame.text, "0:0");
}

#[test]
fn served_ball_reaches_the_right_goal_and_scores_for_the_left() {
    let mut game = setup();
    let mut frames = 0;
    let mut events = Vec::new();
    while events.is_empty() {
        assert!(frames < 100);
        let frame = game.tick(&Controls::idle(), 200_000);
        frames += 1;
        if frame.events.is_empty() {
            assert_eq!(game.ball.position, Vec2::new(100_000 * frames, 10_000 * frames));
            assert_eq!(frame.text, "0:0");
        } else {
            assert_eq!(frame.text, "1:0");
        }
        events = frame.events;
    }
    assert_eq!(frames, 5);
    assert_eq!(events, vec![ScoreEvent::Right]);
    assert_eq!(game.scoreboard, ScoreBoard { left: 1, right: 0 });
    assert_eq!(game.ball.position, Vec2::new(0, 0));
    assert_eq!(game.ball.velocity, Vec2::new(-500_000, 50_000));
}

#[test]
fn returned_ball_reaches_the_left_goal_and_scores_for_the_right() {
    let mut game = setup();
    game.ball.velocity = Vec2::new(-500_000, 50_000);
    game.paddles[0].position.y = -195_000;
    let mut events = Vec::new();
    for _ in 0..5 {
        assert!(events.is_empty());
        events = game.tick(&Controls::idle(), 200_000).events;
    }
    assert_eq!(events, vec![ScoreEvent::Left]);
    assert_eq!(game.scoreboard, ScoreBoard { left: 0, right: 1 });
    assert_eq!(game.ball.position, Vec2::new(0, 0));
    assert_eq!(game.ball.velocity, Vec2::new(500_000, 50_000));
}

#[test]
fn two_goals_at_once_both_count_and_the_last_serves() {
    let mut ball = Ball {
        position: Vec2::new(0, 0),
        velocity: Vec2::new(500_000, 50_000),
        size: Vec2::new(50_000, 50_000),
    };
    let boundaries = vec![goal(Collider::Left, -20_000), goal(Collider::Right, 20_000)];
    let events = ball_collision_system(&mut ball, &vec![], &boundaries);
    assert_eq!(events, vec![ScoreEvent::Left, ScoreEvent::Right]);
    let mut board = ScoreBoard { left: 2, right: 5 };
    let text = score(&events, &mut ball, &mut board);
    assert_eq!(board, ScoreBoard { left: 3, right: 6 });
    assert_eq!(ball.position, Vec2::new(0, 0));
    assert_eq!(ball.velocity, Vec2::new(-500_000, 50_000));
    assert_eq!(text, "3:6");

    let mut game = Game {
        ball,
        paddles: vec![],
        boundaries: vec![goal(Collider::Right, 20_000), goal(Collider::Left, -20_000)],
        scoreboard: ScoreBoard { left: 0, right: 0 },
        pauser: Pauser { paused: false },
    };
    let frame = game.tick(&Controls::idle(), 0);
    assert_eq!(frame.events, vec![ScoreEvent::Right, ScoreEvent::Left]);
    assert_eq!(game.scoreboard, ScoreBoard { left: 1, right: 1 });
    assert_eq!(game.ball.velocity, Vec2::new(500_000, 50_000));
    assert_eq!(frame.text, "1:1");
}

#[test]
fn paddles_follow_the_keys_during_a_frame() {
    let mut game = setup();
    let keys = Controls { left_up: true, right_down: true, ..Controls::idle() };
    game.tick(&keys, 100_000);
    assert_eq!(game.paddles[0].position, Vec2::new(-490_000, 50_000));
    assert_eq!(game.paddles[1].position, Vec2::new(490_000, -50_000));
    for _ in 0..10 {
        game.tick(&keys, 100_000);
        assert!(game.paddles[0].position.y <= BOUND);
        assert!(game.paddles[1].position.y >= -BOUND);
    }
    assert_eq!(game.paddles[0].position.y, 195_000);
    assert_eq!(game.paddles[1].position.y, -195_000);
}

#[test]
fn pause_key_takes_effect_from_the_next_frame() {
    let mut game = setup();
    game.tick(&pause_key(), 100_000);
    assert!(game.pauser.paused);
    assert_eq!(game.ball.position, Vec2::new(50_000, 5_000));
}

#[test]
fn paused_game_stands_still_and_resumes_where_it_was() {
    let mut game = setup();
    let keys = Controls { left_up: true, right_down: true, ..Controls::idle() };
    game.tick(&keys, 100_000);
    game.tick(&Controls { pause_released: true, ..keys }, 100_000);
    assert!(game.pauser.paused);
    let ball = game.ball;
    let paddles = game.paddles.clone();
    let board = game.scoreboard;
    for n in 0..50 {
        let frame = game.tick(&keys, 1_000 * n);
        assert!(frame.events.is_empty());
        assert_eq!(game.ball, ball);
        assert_eq!(game.paddles, paddles);
        assert_eq!(game.scoreboard, board);
        assert!(game.pauser.paused);
    }
    game.tick(&pause_key(), 100_000);
    assert!(!game.pauser.paused);
    assert_eq!(game.ball, ball);
    assert_eq!(game.paddles, paddles);
    game.tick(&keys, 100_000);
    assert_eq!(game.ball.position, Vec2::new(ball.position.x + 50_000, ball.position.y + 5_000));
    assert_eq!(game.ball.velocity, ball.velocity);
    assert_eq!(game.paddles[0].position.y, paddles[0].position.y + 50_000);
    assert_eq!(game.paddles[1].position.y, paddles[1].position.y - 50_000);
}

#[test]
fn paused_ball_in_a_goal_is_still_counted() {
    let mut game = setup();
    game.pauser.paused = true;
    game.ball.position = Vec2::new(-480_000, 200_000);
    let frame = game.tick(&Controls::idle(), 16_000);
    assert_eq!(frame.events, vec![ScoreEvent::Left]);
    assert_eq!(game.scoreboard, ScoreBoard { left: 0, right: 1 });
    assert_eq!(game.ball.position, Vec2::new(0, 0));
    assert!(game.pauser.paused);
}

#[test]
fn ball_bounces_off_the_top_wall_during_play() {
    let mut game = setup();
    game.ball.position = Vec2::new(0, 200_000);
    game.ball.velocity = Vec2::new(0, 100_000);
    game.tick(&Controls::idle(), 200_000);
    // moved to 220: its upper edge at 245 only touches the wall
    assert_eq!(game.ball.position, Vec2::new(0, 220_000));
    assert_eq!(game.ball.velocity, Vec2::new(0, 100_000));
    game.tick(&Controls::idle(), 200_000);
    assert_eq!(game.ball.position, Vec2::new(0, 240_000));
    assert_eq!(game.ball.velocity, Vec2::new(0, -95_000));
    game.tick(&Controls::idle(), 100_000);
    // still overlapping, and not reflected again
    assert_eq!(game.ball.position, Vec2::new(0, 230_500));
    assert_eq!(game.ball.velocity, Vec2::new(0, -95_000));
}

#[test]
fn limits_are_told_apart() {
    assert_eq!(LIMIT, 1_000_000_000_000);
    assert_eq!(MAX_OBSTACLES, 1_000_000);
    let mut game = setup();
    game.ball.velocity.x = LIMIT;
    game.ball.position.y = -LIMIT;
    game.scoreboard.left = usize::MAX - MAX_OBSTACLES;
    assert!(game.within_limits());
    game.ball.velocity.x = LIMIT + 1;
    assert!(!game.within_limits());
    game.ball.velocity.x = 0;
    game.ball.position.y = -LIMIT - 1;
    assert!(!game.within_limits());
    game.ball.position.y = 0;
    game.ball.size.x = LIMIT + 1;
    assert!(!game.within_limits());
    game.ball.size.x = 50_000;
    game.paddles[1].size.y = LIMIT + 1;
    assert!(!game.within_limits());
    game.paddles[1].size.y = 100_000;
    game.boundaries[3].size.x = -LIMIT - 1;
    assert!(!game.within_limits());
    game.boundaries[3].size.x = 1_000_000;
    game.scoreboard.right = usize::MAX - MAX_OBSTACLES + 1;
    assert!(!game.within_limits());
    game.scoreboard.right = 0;
    assert!(game.within_limits());
}

#[test]
fn checked_frame_runs_within_the_limits() {
    let mut game = setup();
    let mut plain = setup();
    let keys = Controls { left_down: true, ..Controls::idle() };
    let frame = game.try_tick(&keys, 16_000);
    let expected = plain.tick(&keys, 16_000);
    let frame = frame.expect("a new game is within the limits");
    assert_eq!(frame.events, expected.events);
    assert_eq!(frame.text, expected.text);
    assert_eq!(game.ball, plain.ball);
    assert_eq!(game.paddles, plain.paddles);
    assert_eq!(game.ball.position, Vec2::new(8_000, 800));
    assert_eq!(game.paddles[0].position.y, -8_000);
}

#[test]
fn checked_frame_leaves_a_game_beyond_the_limits_alone() {
    let mut game = setup();
    game.ball.velocity = Vec2::new(i64::MAX, i64::MIN);
    game.ball.position = Vec2::new(i64::MAX, 0);
    let frame = game.try_tick(&pause_key(), 200_000);
    assert!(frame.is_none());
    assert_eq!(game.ball.velocity, Vec2::new(i64::MAX, i64::MIN));
    assert_eq!(game.ball.position, Vec2::new(i64::MAX, 0));
    assert!(!game.pauser.paused);
    assert_eq!(game.paddles.len(), 2);
}

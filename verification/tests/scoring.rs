use pong::entities::{Ball, Pauser, ScoreBoard, ScoreEvent};
use pong::geometry::Vec2;
use pong::pause::pause_system;
use pong::scoring::score;

fn ball(x: i64, y: i64, vx: i64, vy: i64) -> Ball {
    Ball {
        position: Vec2::new(x, y),
        velocity: Vec2::new(vx, vy),
        size: Vec2::new(50_000, 50_000),
    }
}

#[test]
fn new_scoreboard_is_empty() {
    let board = ScoreBoard::default();
    assert_eq!(board, ScoreBoard { left: 0, right: 0 });
    assert_eq!(board.to_text(), "0:0");
}

#[test]
fn score_is_shown_as_left_colon_right() {
    assert_eq!(ScoreBoard { left: 3, right: 1 }.to_text(), "3:1");
    assert_eq!(ScoreBoard { left: 12, right: 7 }.to_text(), "12:7");
    assert_eq!(ScoreBoard { left: 0, right: 100 }.to_text(), "0:100");
    assert_eq!(ScoreBoard { left: 9, right: 10 }.to_text(), "9:10");
    assert_eq!(ScoreBoard { left: 1_000_000, right: 90_210 }.to_text(), "1000000:90210");
    assert_eq!(
        ScoreBoard { left: usize::MAX, right: 0 }.to_text(),
        format!("{}:0", usize::MAX)
    );
}

#[test]
fn no_event_changes_nothing() {
    let mut b = ball(100_000, -20_000, -300_000, 70_000);
    let mut board = ScoreBoard { left: 4, right: 2 };
    let text = score(&vec![], &mut b, &mut board);
    assert_eq!(b, ball(100_000, -20_000, -300_000, 70_000));
    assert_eq!(board, ScoreBoard { left: 4, right: 2 });
    assert_eq!(text, "4:2");
}

#[test]
fn left_event_counts_for_the_right_side() {
    let mut b = ball(-480_000, 100_000, -500_000, 70_000);
    let mut board = ScoreBoard { left: 4, right: 2 };
    let text = score(&vec![ScoreEvent::Left], &mut b, &mut board);
    assert_eq!(board, ScoreBoard { left: 4, right: 3 });
    assert_eq!(b, ball(0, 0, 500_000, 50_000));
    assert_eq!(text, "4:3");
}

#[test]
fn right_event_counts_for_the_left_side() {
    let mut b = ball(480_000, 100_000, 500_000, 70_000);
    let mut board = ScoreBoard { left: 4, right: 2 };
    let text = score(&vec![ScoreEvent::Right], &mut b, &mut board);
    assert_eq!(board, ScoreBoard { left: 5, right: 2 });
    assert_eq!(b, ball(0, 0, -500_000, 50_000));
    assert_eq!(text, "5:2");
}

#[test]
fn several_events_all_count_and_the_last_serves() {
    let mut b = ball(7, 9, 1, 2);
    let mut board = ScoreBoard { left: 9, right: 0 };
    let events = vec![ScoreEvent::Right, ScoreEvent::Left, ScoreEvent::Left, ScoreEvent::Right];
    let text = score(&events, &mut b, &mut board);
    assert_eq!(board, ScoreBoard { left: 11, right: 2 });
    assert_eq!(b, ball(0, 0, -500_000, 50_000));
    assert_eq!(text, "11:2");
    let text = score(&vec![ScoreEvent::Right, ScoreEvent::Left], &mut b, &mut board);
    assert_eq!(board, ScoreBoard { left: 12, right: 3 });
    assert_eq!(b, ball(0, 0, 500_000, 50_000));
    assert_eq!(text, "12:3");
}

#[test]
fn counts_may_reach_the_largest_number() {
    let mut b = ball(7, 9, 1, 2);
    let mut board = ScoreBoard { left: usize::MAX - 1, right: usize::MAX - 2 };
    score(&vec![ScoreEvent::Left, ScoreEvent::Right, ScoreEvent::Left], &mut b, &mut board);
    assert_eq!(board, ScoreBoard { left: usize::MAX, right: usize::MAX });
}

#[test]
fn ball_keeps_its_size_when_served() {
    let mut b = Ball {
        position: Vec2::new(1, 2),
        velocity: Vec2::new(3, 4),
        size: Vec2::new(30_000, 20_000),
    };
    let mut board = ScoreBoard::default();
    score(&vec![ScoreEvent::Left], &mut b, &mut board);
    assert_eq!(b.size, Vec2::new(30_000, 20_000));
}

#[test]
fn letting_go_of_the_pause_key_flips_the_state() {
    let mut pauser = Pauser { paused: false };
    pause_system(true, &mut pauser);
    assert!(pauser.paused);
    pause_system(true, &mut pauser);
    assert!(!pauser.paused);
}

#[test]
fn without_the_pause_key_the_state_stands() {
    let mut pauser = Pauser { paused: false };
    pause_system(false, &mut pauser);
    assert!(!pauser.paused);
    let mut held = Pauser { paused: true };
    pause_system(false, &mut held);
    pause_system(false, &mut held);
    assert!(held.paused);
}

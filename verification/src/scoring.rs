//! Scoring: each score event counts for the side that did not concede it
//! and sends the ball back to the centre, served towards the side that did.

use crate::entities::{
    Ball, BallModel, Score, ScoreBoard, ScoreEvent, LAUNCH_SPEED_X, LAUNCH_SPEED_Y,
};
use crate::geometry::{Point, Vec2};
use vstd::prelude::*;
use vstd::string::StringExecFns;

verus! {

/// How many of `events` name `side`.
pub open spec fn count(events: Seq<ScoreEvent>, side: ScoreEvent) -> nat
    decreases events.len(),
{
    if events.len() == 0 {
        0
    } else {
        count(events.drop_last(), side) + if events.last() == side {
            1nat
        } else {
            0nat
        }
    }
}

/// The velocity with which the ball is served after `event`: towards the
/// right after the left side has conceded, towards the left otherwise, and
/// always slightly upwards.
pub open spec fn launch_velocity(event: ScoreEvent) -> Point {
    match event {
        ScoreEvent::Left => Point { x: LAUNCH_SPEED_X as int, y: LAUNCH_SPEED_Y as int },
        ScoreEvent::Right => Point { x: -LAUNCH_SPEED_X, y: LAUNCH_SPEED_Y as int },
    }
}

/// The ball after `events`: untouched if there are none, else at the centre
/// and served as the last of them asks.
pub open spec fn served(ball: BallModel, events: Seq<ScoreEvent>) -> BallModel {
    if events.len() == 0 {
        ball
    } else {
        BallModel {
            position: Point { x: 0, y: 0 },
            velocity: launch_velocity(events.last()),
            size: ball.size,
        }
    }
}

/// The score after `events`: a goal conceded by the left side counts for
/// the right side, and the other way round.
pub open spec fn tallied(score: Score, events: Seq<ScoreEvent>) -> Score {
    Score {
        left: score.left + count(events, ScoreEvent::Right),
        right: score.right + count(events, ScoreEvent::Left),
    }
}

/// The character of a decimal digit.
pub open spec fn digit(d: nat) -> char {
    if d == 0 {
        '0'
    } else if d == 1 {
        '1'
    } else if d == 2 {
        '2'
    } else if d == 3 {
        '3'
    } else if d == 4 {
        '4'
    } else if d == 5 {
        '5'
    } else if d == 6 {
        '6'
    } else if d == 7 {
        '7'
    } else if d == 8 {
        '8'
    } else {
        '9'
    }
}

/// A natural number written in decimal, without leading zeros.
pub open spec fn decimal(n: nat) -> Seq<char>
    decreases n,
{
    if n < 10 {
        seq![digit(n)]
    } else {
        decimal(n / 10).push(digit(n % 10))
    }
}

/// The score as it is shown: the left count, a colon, the right count.
pub open spec fn score_text(score: Score) -> Seq<char> {
    decimal(score.left) + seq![':'] + decimal(score.right)
}

/// A count never shrinks when events are added at the end.
pub proof fn lemma_count_grows(events: Seq<ScoreEvent>, n: int, side: ScoreEvent)
    requires
        0 <= n <= events.len(),
    ensures
        count(events.take(n), side) <= count(events, side),
    decreases events.len(),
{
    if n < events.len() {
        assert(events.drop_last().take(n) =~= events.take(n));
        lemma_count_grows(events.drop_last(), n, side);
    } else {
        assert(events.take(n) =~= events);
    }
}

fn digit_str(d: usize) -> (s: &'static str)
    requires
        d < 10,
    ensures
        s@ == seq![digit(d as nat)],
{
    proof {
        reveal_strlit("0");
        reveal_strlit("1");
        reveal_strlit("2");
        reveal_strlit("3");
        reveal_strlit("4");
        reveal_strlit("5");
        reveal_strlit("6");
        reveal_strlit("7");
        reveal_strlit("8");
        reveal_strlit("9");
    }
    let s = if d == 0 {
        "0"
    } else if d == 1 {
        "1"
    } else if d == 2 {
        "2"
    } else if d == 3 {
        "3"
    } else if d == 4 {
        "4"
    } else if d == 5 {
        "5"
    } else if d == 6 {
        "6"
    } else if d == 7 {
        "7"
    } else if d == 8 {
        "8"
    } else {
        "9"
    };
    assert(s@ =~= seq![digit(d as nat)]);
    s
}

fn push_decimal(n: usize, out: &mut String)
    ensures
        final(out)@ == old(out)@ + decimal(n as nat),
    decreases n,
{
    if n >= 10 {
        push_decimal(n / 10, out);
    }
    out.append(digit_str(n % 10));
    assert(out@ =~= old(out)@ + decimal(n as nat));
}

impl ScoreBoard {
    /// The score as it is shown, such as `3:1`.
    pub fn to_text(&self) -> (text: String)
        ensures
            text@ == score_text(self@),
    {
        let mut text = String::new();
        push_decimal(self.left, &mut text);
        text.append(":");
        push_decimal(self.right, &mut text);
        proof {
            reveal_strlit(":");
            assert(":"@ =~= seq![':']);
            assert(text@ =~= score_text(self@));
        }
        text
    }
}

/// Takes in the score events of one frame, in the order in which they
/// arose. Each counts for the side opposite to the one it names and puts
/// the ball back at the centre, served towards the side that conceded; of
/// several events the last decides how the ball is served. Returns the
/// text to show once all are counted.
///
/// Neither count may pass the largest `usize`.
pub fn score(events: &Vec<ScoreEvent>, ball: &mut Ball, scoreboard: &mut ScoreBoard) -> (text:
    String)
    requires
        tallied(old(scoreboard)@, events@).left <= usize::MAX,
        tallied(old(scoreboard)@, events@).right <= usize::MAX,
    ensures
        final(ball)@ == served(old(ball)@, events@),
        final(scoreboard)@ == tallied(old(scoreboard)@, events@),
        text@ == score_text(final(scoreboard)@),
{
    let mut i: usize = 0;
    while i < events.len()
        invariant
            i <= events.len(),
            ball@ == served(old(ball)@, events@.take(i as int)),
            scoreboard@ == tallied(old(scoreboard)@, events@.take(i as int)),
            tallied(old(scoreboard)@, events@).left <= usize::MAX,
            tallied(old(scoreboard)@, events@).right <= usize::MAX,
        decreases events.len() - i,
    {
        proof {
            assert(events@.take(i + 1).drop_last() =~= events@.take(i as int));
            lemma_count_grows(events@, i + 1, ScoreEvent::Left);
            lemma_count_grows(events@, i + 1, ScoreEvent::Right);
        }
        match events[i] {
            ScoreEvent::Left => {
                scoreboard.right += 1;
                ball.position = Vec2 { x: 0, y: 0 };
                ball.velocity = Vec2 { x: LAUNCH_SPEED_X, y: LAUNCH_SPEED_Y };
            },
            ScoreEvent::Right => {
                scoreboard.left += 1;
                ball.position = Vec2 { x: 0, y: 0 };
                ball.velocity = Vec2 { x: -LAUNCH_SPEED_X, y: LAUNCH_SPEED_Y };
            },
        }
        i += 1;
    }
    proof {
        assert(events@.take(i as int) =~= events@);
    }
    scoreboard.to_text()
}

} // verus!

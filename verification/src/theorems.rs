//! What holds of every game: paddles stay between the walls, a paused game
//! stands still, and a goal counts once, for the other side.

use crate::collision::{
    conceded, goal_events, lemma_clear_of, lemma_events_depend_on_place, lemma_hit_keeps_place,
    single_goal_single_event,
};
use crate::entities::{Collider, Controls, ScoreEvent};
use crate::game::{pause_untouched, GameModel, Step};
use crate::geometry::{overlaps, Point};
use crate::scoring::count;
use vstd::prelude::*;

verus! {

/// After a frame every paddle that moved lies between the walls, however
/// long the frame and however fast the paddle; and a paddle that lay
/// between them stays there.
pub proof fn paddles_stay_between_walls(game: GameModel, controls: Controls, delta: int, i: int)
    requires
        0 <= i < game.paddles.len(),
        !game.paused || game.paddles[i].in_bounds(),
    ensures
        game.tick(controls, delta).paddles.len() == game.paddles.len(),
        game.tick(controls, delta).paddles[i].in_bounds(),
{
}

/// The counts of goals never fall.
pub proof fn scores_never_fall(game: GameModel, controls: Controls, delta: int)
    ensures
        game.tick(controls, delta).score.left >= game.score.left,
        game.tick(controls, delta).score.right >= game.score.right,
{
}

/// A frame never adds or removes a paddle or a boundary, nor moves a
/// boundary, nor changes the size of anything.
pub proof fn court_is_fixed(game: GameModel, controls: Controls, delta: int)
    ensures
        game.tick(controls, delta).boundaries == game.boundaries,
        game.tick(controls, delta).paddles.len() == game.paddles.len(),
        game.tick(controls, delta).ball.size == game.ball.size,
        forall|i: int|
            0 <= i < game.paddles.len() ==> {
                let after = #[trigger] game.tick(controls, delta).paddles[i];
                &&& after.size == game.paddles[i].size
                &&& after.team == game.paddles[i].team
                &&& after.speed == game.paddles[i].speed
                &&& after.position.x == game.paddles[i].position.x
            },
{
    let moved = game.moved(controls, delta);
    lemma_hit_keeps_place(moved.ball, moved.obstacles());
}

/// While the game is paused and the pause key is left alone, the paddles
/// and the ball stay where they are and the score stands, for any number
/// of frames.
///
/// This is said of a ball that overlaps no goal: scoring goes on while the
/// game is paused, and would put a ball that lies in a goal back at the
/// centre.
pub proof fn pause_freezes_positions(game: GameModel, steps: Seq<Step>)
    requires
        game.paused,
        pause_untouched(steps),
        goal_events(game.ball, game.obstacles()).len() == 0,
    ensures
        game.run(steps).paused,
        game.run(steps).paddles == game.paddles,
        game.run(steps).boundaries == game.boundaries,
        game.run(steps).ball.position == game.ball.position,
        game.run(steps).ball.size == game.ball.size,
        game.run(steps).score == game.score,
    decreases steps.len(),
{
    if steps.len() > 0 {
        let earlier = steps.drop_last();
        assert forall|i: int| 0 <= i < earlier.len() implies !(
        #[trigger] earlier[i]).controls.pause_released by {
            assert(earlier[i] == steps[i]);
        }
        pause_freezes_positions(game, earlier);
        let before = game.run(earlier);
        assert(!steps[steps.len() - 1].controls.pause_released);
        lemma_hit_keeps_place(before.ball, before.obstacles());
        lemma_events_depend_on_place(before.ball, game.ball, game.obstacles());
    }
}

/// While the game is paused and the pause key is left alone, a game at
/// rest does not change at all, for any number of frames.
pub proof fn pause_freezes_game(game: GameModel, steps: Seq<Step>)
    requires
        game.paused,
        pause_untouched(steps),
        game.at_rest(),
    ensures
        game.run(steps) == game,
    decreases steps.len(),
{
    if steps.len() > 0 {
        let earlier = steps.drop_last();
        assert forall|i: int| 0 <= i < earlier.len() implies !(
        #[trigger] earlier[i]).controls.pause_released by {
            assert(earlier[i] == steps[i]);
        }
        pause_freezes_game(game, earlier);
        assert(!steps[steps.len() - 1].controls.pause_released);
        assert(goal_events(game.ball, game.obstacles()) =~= Seq::<ScoreEvent>::empty());
    }
}

/// When the pause key is let go after any number of paused frames, a game
/// that was at rest goes on from the very positions and velocities that
/// it was paused with: the frames that follow are those of the game as it
/// was, running.
pub proof fn play_resumes_where_it_paused(
    game: GameModel,
    steps: Seq<Step>,
    release: Step,
    later: Step,
)
    requires
        game.paused,
        pause_untouched(steps),
        game.at_rest(),
        release.controls.pause_released,
    ensures
        game.run(steps.push(release)) == (GameModel { paused: false, ..game }),
        game.run(steps.push(release).push(later)) == (GameModel { paused: false, ..game }).tick(
            later.controls,
            later.delta,
        ),
{
    pause_freezes_game(game, steps);
    let released = steps.push(release);
    assert(released.drop_last() =~= steps);
    assert(released.last() == release);
    assert(goal_events(game.ball, game.obstacles()) =~= Seq::<ScoreEvent>::empty());
    assert(game.run(released) == (GameModel { paused: false, ..game }));
    assert(released.push(later).drop_last() =~= released);
    assert(released.push(later).last() == later);
}

/// A ball that the movement stage has put into one goal, and into no
/// other, scores for the side opposite to that goal: in the left goal it
/// adds exactly one to the right count and is served from the centre
/// towards the right; in the right goal it adds exactly one to the left
/// count and is served from the centre towards the left. The other count
/// stands.
pub proof fn goal_scores_for_other_side(game: GameModel, controls: Controls, delta: int, k: int)
    requires
        0 <= k < game.moved(controls, delta).obstacles().len(),
        conceded(
            game.moved(controls, delta).ball,
            game.moved(controls, delta).obstacles()[k],
        ) is Some,
        forall|j: int|
            0 <= j < game.moved(controls, delta).obstacles().len() && j != k ==> conceded(
                game.moved(controls, delta).ball,
                #[trigger] game.moved(controls, delta).obstacles()[j],
            ) is None,
    ensures
        game.moved(controls, delta).obstacles()[k].collider == Collider::Left ==> {
            let after = game.tick(controls, delta);
            &&& game.events(controls, delta) == seq![ScoreEvent::Left]
            &&& after.score.right == game.score.right + 1
            &&& after.score.left == game.score.left
            &&& after.ball.position == (Point { x: 0, y: 0 })
            &&& after.ball.velocity == (Point { x: 500_000, y: 50_000 })
        },
        game.moved(controls, delta).obstacles()[k].collider == Collider::Right ==> {
            let after = game.tick(controls, delta);
            &&& game.events(controls, delta) == seq![ScoreEvent::Right]
            &&& after.score.left == game.score.left + 1
            &&& after.score.right == game.score.right
            &&& after.ball.position == (Point { x: 0, y: 0 })
            &&& after.ball.velocity == (Point { x: -500_000, y: 50_000 })
        },
        game.moved(controls, delta).obstacles()[k].collider == Collider::Left || game.moved(
            controls,
            delta,
        ).obstacles()[k].collider == Collider::Right,
{
    let moved = game.moved(controls, delta);
    single_goal_single_event(moved.ball, moved.obstacles(), k);
    let events = game.events(controls, delta);
    assert(events.len() == 1);
    assert(events.drop_last() =~= Seq::<ScoreEvent>::empty());
    reveal_with_fuel(count, 2);
}

/// A ball that overlaps no paddle and no boundary is at rest.
pub proof fn clear_ball_is_at_rest(game: GameModel)
    requires
        forall|i: int|
            0 <= i < game.obstacles().len() ==> !overlaps(
                game.ball.position,
                game.ball.size,
                (#[trigger] game.obstacles()[i]).position,
                game.obstacles()[i].size,
            ),
    ensures
        game.at_rest(),
{
    lemma_clear_of(game.ball, game.obstacles());
}

} // verus!

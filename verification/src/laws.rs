//! Laws of the engine: properties that hold of every game state, stated
//! over the abstract model and proved once and for all.

use vstd::prelude::*;

use crate::game_core::{Alien, Cell, Dir, Position, Shot, Status, NUM_SHOTS};
use crate::model::{
    cell_at, collide_upto, count_active_shots, count_exiting_shots, count_living,
    first_inactive_from, lemma_count_at_least_one, lemma_count_bounds, lemma_count_living_update,
    lemma_count_update,
    lemma_exiting_at_least_one, lemma_first_inactive_sound, lemma_free_slot_exists,
    lemma_living_alien_at_bounds, lemma_move_counts, living_alien_at_from, move_aliens_v,
    move_player_v, move_shots_v, player_shoot_v, player_shot_start, resolve_shot, shot_hit,
    shot_step, update_v, wf_view, GameView,
};

verus! {

/// Stepping to a neighboring cell and back returns to the start, whenever
/// the start lies on the board and the step does not leave it.
pub proof fn lemma_neighbor_reverse(p: Position, d: Dir)
    requires
        p.spec_is_legal(),
        p.spec_neighbor(d).spec_is_legal(),
    ensures
        p.spec_neighbor(d).spec_neighbor(d.spec_reverse()) == p,
{
}

/// Collision resolution never moves the player.
pub proof fn lemma_collide_keeps_player_pos(g: GameView, n: int)
    ensures
        collide_upto(g, n).player.pos == g.player.pos,
    decreases n,
{
    if n > 0 {
        lemma_collide_keeps_player_pos(g, n - 1);
    }
}

/// A buffered move whose destination is off the board or a barrier never
/// changes the player's position, however often it is repeated: the whole
/// update leaves the player where it stands.
pub proof fn lemma_barrier_blocks_move(g: GameView, d: Dir)
    requires
        g.last_dir == Some(d),
        g.player.pos.spec_neighbor(d).spec_is_legal() ==> cell_at(
            g,
            g.player.pos.spec_neighbor(d),
        ) == Cell::Barrier,
    ensures
        update_v(g).player.pos == g.player.pos,
{
    if g.status == Status::Normal {
        let g1 = GameView { last_dir: None, ..move_player_v(g) };
        assert(g1.player.pos == g.player.pos);
        let g2 = if g1.fired_shot {
            player_shoot_v(GameView { fired_shot: false, ..g1 })
        } else {
            g1
        };
        assert(g2.player.pos == g.player.pos);
        let g3 = move_aliens_v(g2);
        assert(g3.player.pos == g.player.pos);
        let g4 = move_shots_v(g3);
        assert(g4.player.pos == g.player.pos);
        lemma_collide_keeps_player_pos(g4, NUM_SHOTS as int);
    }
}

/// A fire intent arriving while the player is at its cap changes nothing:
/// in particular the in-flight count does not grow.
pub proof fn lemma_fire_at_cap(g: GameView)
    requires
        g.player.active_shots >= g.player.total_shots,
    ensures
        player_shoot_v(g) == g,
{
}

/// A fire intent arriving below the cap, with the start cell on the board,
/// puts exactly one more player shot in flight.
pub proof fn lemma_fire_below_cap(g: GameView)
    requires
        wf_view(g),
        g.player.active_shots < g.player.total_shots,
        player_shot_start(g.player).spec_is_legal(),
    ensures
        player_shoot_v(g).player.active_shots == g.player.active_shots + 1,
        count_active_shots(player_shoot_v(g).shots, true) == count_active_shots(g.shots, true)
            + 1,
        count_active_shots(player_shoot_v(g).shots, false) == count_active_shots(g.shots, false),
{
    lemma_free_slot_exists(g.shots);
    lemma_first_inactive_sound(g.shots, 0);
    let j = first_inactive_from(g.shots, 0)->Some_0;
    let fired = Shot {
        pos: player_shot_start(g.player),
        active: true,
        dir: Dir::N,
        player_fired: true,
    };
    lemma_count_update(g.shots, j, fired, true);
    lemma_count_update(g.shots, j, fired, false);
}

/// A shot whose next step of travel leaves the board leaves flight during
/// the advance, and its owner's in-flight counter drops by exactly one per
/// exiting shot of that owner - each such shot counted exactly once.
pub proof fn lemma_shot_exit_decrements(g: GameView, i: int)
    requires
        wf_view(g),
        0 <= i < g.shots.len(),
        g.shots[i].active,
        !g.shots[i].pos.spec_neighbor(g.shots[i].dir).spec_is_legal(),
    ensures
        !move_shots_v(g).shots[i].active,
        count_exiting_shots(g.shots, g.shots[i].player_fired) >= 1,
        g.shots[i].player_fired ==> move_shots_v(g).player.active_shots
            == g.player.active_shots - count_exiting_shots(g.shots, true),
        !g.shots[i].player_fired ==> move_shots_v(g).alien_shots == g.alien_shots
            - count_exiting_shots(g.shots, false),
{
    let moved = Seq::new(g.shots.len(), |k: int| shot_step(g.shots[k]));
    assert(moved[i] == shot_step(g.shots[i]));
    lemma_move_counts(g.shots, true);
    lemma_move_counts(g.shots, false);
    lemma_count_bounds(moved, true);
    lemma_count_bounds(moved, false);
    lemma_exiting_at_least_one(g.shots, i, g.shots[i].player_fired);
}

/// A shot that collides leaves flight during resolution and its owner's
/// in-flight counter drops by exactly one.
pub proof fn lemma_resolved_shot_decrements(g: GameView, i: int)
    requires
        wf_view(g),
        0 <= i < g.shots.len(),
        g.shots[i].active,
        shot_hit(g, i),
    ensures
        !resolve_shot(g, i).shots[i].active,
        g.shots[i].player_fired ==> resolve_shot(g, i).player.active_shots
            == g.player.active_shots - 1,
        !g.shots[i].player_fired ==> resolve_shot(g, i).alien_shots == g.alien_shots - 1,
{
    lemma_count_at_least_one(g.shots, i, g.shots[i].player_fired);
}

/// Collision resolution only ever raises the score and only ever lowers
/// the number of living aliens; and as long as the score counter has
/// headroom, the score rises by exactly one per alien killed - a dead alien
/// is never matched again.
pub proof fn lemma_collide_score(g: GameView, n: int)
    requires
        0 <= n,
    ensures
        collide_upto(g, n).score >= g.score,
        count_living(collide_upto(g, n).aliens) <= count_living(g.aliens),
        g.score + (count_living(g.aliens) - count_living(collide_upto(g, n).aliens)) <= u64::MAX
            ==> collide_upto(g, n).score == g.score + (count_living(g.aliens) - count_living(
            collide_upto(g, n).aliens,
        )),
    decreases n,
{
    if n > 0 {
        lemma_collide_score(g, n - 1);
        let gi = collide_upto(g, n - 1);
        let i = n - 1;
        if 0 <= i < gi.shots.len() && gi.shots[i].active && shot_hit(gi, i) {
            let p = gi.shots[i].pos;
            if cell_at(gi, p) == Cell::Barrier {
            } else if p == gi.player.pos {
            } else if gi.shots[i].player_fired {
                match living_alien_at_from(gi.aliens, p, 0) {
                    Some(k) => {
                        lemma_living_alien_at_bounds(gi.aliens, p, 0);
                        lemma_count_living_update(
                            gi.aliens,
                            k,
                            Alien { alive: false, ..gi.aliens[k] },
                        );
                    },
                    None => {},
                }
            }
        }
    }
}

/// Across one whole update the score never decreases.
pub proof fn lemma_update_score_monotone(g: GameView)
    ensures
        update_v(g).score >= g.score,
{
    if g.status == Status::Normal {
        let g1 = GameView { last_dir: None, ..move_player_v(g) };
        assert(g1.score == g.score);
        let g2 = if g1.fired_shot {
            player_shoot_v(GameView { fired_shot: false, ..g1 })
        } else {
            g1
        };
        assert(g2.score == g.score);
        let g3 = move_aliens_v(g2);
        assert(g3.score == g.score);
        let g4 = move_shots_v(g3);
        assert(g4.score == g.score);
        lemma_collide_score(g4, NUM_SHOTS as int);
    }
}

/// Once the round is over, updates change nothing at all: the game stays
/// frozen until a restart re-derives the board.
pub proof fn lemma_over_is_terminal(g: GameView)
    requires
        g.status == Status::Over,
    ensures
        update_v(g) == g,
{
}

} // verus!

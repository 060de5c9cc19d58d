//! A fixed-grid, tick-driven arcade game engine: a player unit moves
//! laterally and fires projectiles, a formation of aliens advances and
//! fires back, and projectiles erode static barrier terrain.
//!
//! The engine consumes abstract input events (`submit_direction`,
//! `submit_fire`, `submit_restart`) and exposes queryable state; rendering
//! and input decoding are the host's responsibility.

use vstd::prelude::*;

pub mod board;
pub mod game_core;
pub mod laws;
pub mod model;

use crate::game_core::{SpaceInvadersGame, UPDATE_FREQUENCY};
use crate::model::{update_v, GameView};

verus! {

/// One timer interrupt: runs a game update when the countdown gate fires.
/// Returns true when an update ran, so the host knows to redraw.
pub fn tick(game: &mut SpaceInvadersGame) -> (updated: bool)
    requires
        old(game).wf(),
    ensures
        final(game).wf(),
        updated == (old(game)@.countdown == 0),
        updated ==> final(game)@ == update_v(
            GameView { countdown: UPDATE_FREQUENCY, ..old(game)@ },
        ),
        !updated ==> final(game)@ == (GameView {
            countdown: (old(game)@.countdown - 1) as usize,
            ..old(game)@
        }),
{
    if game.countdown_complete() {
        game.update();
        true
    } else {
        false
    }
}

} // verus!

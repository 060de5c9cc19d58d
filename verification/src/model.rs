//! The mathematical model of the game: an abstract view of the whole game
//! state and pure transition functions for each phase of a tick. Every
//! executable method of the engine promises that its effect equals one of
//! these transitions.

use vstd::prelude::*;

use crate::game_core::{
    Alien, Cell, Dir, Player, Position, Shot, Status, ALIEN_MAX_SHOTS, DANGER_ROW, GRID_CELLS,
    NUM_ALIENS, NUM_SHOTS, PLAYER_MAX_SHOTS, WIDTH,
};

verus! {

/// The abstract state of a game: the board as one row-major sequence of
/// cells, the units, the projectile pool, and the buffered input.
#[verifier::ext_equal]
pub ghost struct GameView {
    pub cells: Seq<Cell>,
    pub status: Status,
    pub player: Player,
    pub aliens: Seq<Alien>,
    pub alien_dir: Dir,
    pub alien_shots: u8,
    pub alien_total: u8,
    pub shots: Seq<Shot>,
    pub score: u64,
    pub last_dir: Option<Dir>,
    pub countdown: usize,
    pub fired_shot: bool,
}

/// Index of position `p` in the row-major cell sequence.
pub open spec fn cell_index(p: Position) -> int {
    p.row * WIDTH + p.col
}

/// The cell of the board at position `p`.
pub open spec fn cell_at(g: GameView, p: Position) -> Cell {
    g.cells[cell_index(p)]
}

/// How many shots of the pool are in flight for one owner
/// (`by_player == true` counts the player's, `false` the formation's).
pub open spec fn count_active_shots(shots: Seq<Shot>, by_player: bool) -> int
    decreases shots.len(),
{
    if shots.len() == 0 {
        0
    } else {
        count_active_shots(shots.drop_last(), by_player) + if shots.last().active
            && shots.last().player_fired == by_player {
            1int
        } else {
            0int
        }
    }
}

/// Well-formedness of a game view: the grid, formation and pool have their
/// fixed sizes, the owners' counters equal the number of their in-flight
/// shots and respect the caps, and every unit or in-flight shot that the
/// engine reads the board through sits on the board.
pub open spec fn wf_view(g: GameView) -> bool {
    &&& g.cells.len() == GRID_CELLS
    &&& g.aliens.len() == NUM_ALIENS
    &&& g.shots.len() == NUM_SHOTS
    &&& g.player.total_shots == PLAYER_MAX_SHOTS
    &&& g.alien_total == ALIEN_MAX_SHOTS
    &&& g.player.active_shots == count_active_shots(g.shots, true)
    &&& g.alien_shots == count_active_shots(g.shots, false)
    &&& g.player.active_shots <= PLAYER_MAX_SHOTS
    &&& g.alien_shots <= ALIEN_MAX_SHOTS
    &&& g.player.pos.spec_is_legal()
    &&& forall|k: int| 0 <= k < g.aliens.len() ==> (#[trigger] g.aliens[k]).pos.spec_is_legal()
    &&& forall|k: int|
        0 <= k < g.shots.len() && (#[trigger] g.shots[k]).active ==> g.shots[k].pos.spec_is_legal()
}

/// The least pool index at or after `i` whose slot is free.
pub open spec fn first_inactive_from(shots: Seq<Shot>, i: int) -> Option<int>
    decreases shots.len() - i,
{
    if i < 0 || i >= shots.len() {
        None
    } else if !shots[i].active {
        Some(i)
    } else {
        first_inactive_from(shots, i + 1)
    }
}

/// The least formation index at or after `i` holding a living alien at `p`.
pub open spec fn living_alien_at_from(aliens: Seq<Alien>, p: Position, i: int) -> Option<int>
    decreases aliens.len() - i,
{
    if i < 0 || i >= aliens.len() {
        None
    } else if aliens[i].alive && aliens[i].pos == p {
        Some(i)
    } else {
        living_alien_at_from(aliens, p, i + 1)
    }
}

/// A successful lookup returns an in-range index of a living alien at `p`.
pub proof fn lemma_living_alien_at_bounds(aliens: Seq<Alien>, p: Position, i: int)
    requires
        0 <= i,
        living_alien_at_from(aliens, p, i) is Some,
    ensures
        ({
            let k = living_alien_at_from(aliens, p, i)->Some_0;
            i <= k < aliens.len() && aliens[k].alive && aliens[k].pos == p
        }),
    decreases aliens.len() - i,
{
    if i < aliens.len() && !(aliens[i].alive && aliens[i].pos == p) {
        lemma_living_alien_at_bounds(aliens, p, i + 1);
    }
}

/// The least formation index at or after `i` holding a living alien.
pub open spec fn first_living_from(aliens: Seq<Alien>, i: int) -> Option<int>
    decreases aliens.len() - i,
{
    if i < 0 || i >= aliens.len() {
        None
    } else if aliens[i].alive {
        Some(i)
    } else {
        first_living_from(aliens, i + 1)
    }
}

/// The least formation index at or after `i` holding a living alien in
/// board column `c`.
pub open spec fn first_living_in_col_from(aliens: Seq<Alien>, c: i16, i: int) -> Option<int>
    decreases aliens.len() - i,
{
    if i < 0 || i >= aliens.len() {
        None
    } else if aliens[i].alive && aliens[i].pos.col == c {
        Some(i)
    } else {
        first_living_in_col_from(aliens, c, i + 1)
    }
}

/// Which alien fires: the first living alien directly above the player
/// (lowest formation index, i.e. lowest formation row then column), or,
/// when no living alien shares the player's column, the first living alien.
pub open spec fn alien_fire_choice(aliens: Seq<Alien>, player_col: i16) -> Option<int> {
    match first_living_in_col_from(aliens, player_col, 0) {
        Some(k) => Some(k),
        None => first_living_from(aliens, 0),
    }
}

/// Applying the buffered move: the player steps to the neighboring cell
/// when that cell is on the board and not a barrier, and otherwise (or with
/// no buffered move) stays put.
pub open spec fn move_player_v(g: GameView) -> GameView {
    match g.last_dir {
        Option::None => g,
        Option::Some(d) => {
            let n = g.player.pos.spec_neighbor(d);
            if n.spec_is_legal() && cell_at(g, n) != Cell::Barrier {
                GameView { player: Player { pos: n, ..g.player }, ..g }
            } else {
                g
            }
        },
    }
}

/// Where a player shot starts: one cell north of the player.
pub open spec fn player_shot_start(p: Player) -> Position {
    Position { row: (p.pos.row - 1) as i16, col: p.pos.col }
}

/// Where a shot fired by alien `a` starts: one cell south of it.
pub open spec fn alien_shot_start(a: Alien) -> Position {
    Position { row: (a.pos.row + 1) as i16, col: a.pos.col }
}

/// Recycling the first free pool slot into a new shot at `origin`, and
/// crediting it to its owner's in-flight counter. With no free slot the
/// request is dropped.
pub open spec fn fire_slot_v(g: GameView, origin: Position, d: Dir, by_player: bool) -> GameView {
    match first_inactive_from(g.shots, 0) {
        Some(j) => GameView {
            shots: g.shots.update(j, Shot { pos: origin, active: true, dir: d, player_fired: by_player }),
            player: if by_player {
                Player { active_shots: (g.player.active_shots + 1) as u8, ..g.player }
            } else {
                g.player
            },
            alien_shots: if by_player {
                g.alien_shots
            } else {
                (g.alien_shots + 1) as u8
            },
            ..g
        },
        None => g,
    }
}

/// Resolving a buffered fire intent: under the cap, and with the start
/// cell on the board, a new player shot heads north; otherwise the intent
/// is silently dropped.
pub open spec fn player_shoot_v(g: GameView) -> GameView {
    if g.player.active_shots < g.player.total_shots && player_shot_start(g.player).spec_is_legal() {
        fire_slot_v(g, player_shot_start(g.player), Dir::N, true)
    } else {
        g
    }
}

/// True when some living alien's next lateral step would leave the board.
pub open spec fn living_hits_wall(aliens: Seq<Alien>, d: Dir) -> bool {
    exists|k: int|
        0 <= k < aliens.len() && (#[trigger] aliens[k]).alive && !aliens[k].pos.spec_neighbor(
            d,
        ).spec_is_legal()
}

/// True when some living alien's descent would reach the danger row.
pub open spec fn descent_reaches_danger(aliens: Seq<Alien>) -> bool {
    exists|k: int|
        0 <= k < aliens.len() && (#[trigger] aliens[k]).alive && aliens[k].pos.row + 1 >= DANGER_ROW
}

/// Every living alien steps one cell in direction `d`; dead slots are inert.
pub open spec fn step_living(aliens: Seq<Alien>, d: Dir) -> Seq<Alien> {
    Seq::new(
        aliens.len(),
        |k: int|
            if aliens[k].alive {
                Alien { pos: aliens[k].pos.spec_neighbor(d), ..aliens[k] }
            } else {
                aliens[k]
            },
    )
}

/// The formation's march. On an ordinary tick every living alien steps
/// laterally in the shared direction. When some living alien's next lateral
/// step would leave the board, the direction flips and the formation
/// descends one row instead - unless that descent would reach the danger
/// row, in which case the game ends with the formation frozen in place.
pub open spec fn march_aliens_v(g: GameView) -> GameView {
    let hit = living_hits_wall(g.aliens, g.alien_dir);
    let ndir = if hit {
        g.alien_dir.spec_reverse()
    } else {
        g.alien_dir
    };
    if hit && descent_reaches_danger(g.aliens) {
        GameView { status: Status::Over, alien_dir: ndir, ..g }
    } else if hit {
        GameView { aliens: step_living(g.aliens, Dir::S), alien_dir: ndir, ..g }
    } else {
        GameView { aliens: step_living(g.aliens, g.alien_dir), alien_dir: ndir, ..g }
    }
}

/// The formation's fire policy: while the round is live and the formation
/// is under its cap, the chosen alien fires one shot south from the cell
/// below it, provided that cell is on the board.
pub open spec fn alien_fire_v(g: GameView) -> GameView {
    if g.status == Status::Normal && g.alien_shots < g.alien_total {
        match alien_fire_choice(g.aliens, g.player.pos.col) {
            Some(k) => if alien_shot_start(g.aliens[k]).spec_is_legal() {
                fire_slot_v(g, alien_shot_start(g.aliens[k]), Dir::S, false)
            } else {
                g
            },
            None => g,
        }
    } else {
        g
    }
}

/// One formation turn: march, then possibly fire.
pub open spec fn move_aliens_v(g: GameView) -> GameView {
    alien_fire_v(march_aliens_v(g))
}

/// One step of travel for one pool slot: an active shot moves to its
/// neighboring cell, or leaves flight when that cell is off the board.
pub open spec fn shot_step(s: Shot) -> Shot {
    if s.active {
        let n = s.pos.spec_neighbor(s.dir);
        if n.spec_is_legal() {
            Shot { pos: n, ..s }
        } else {
            Shot { active: false, ..s }
        }
    } else {
        s
    }
}

/// Advancing the whole pool one step; the owners' counters afterwards
/// equal the number of their shots still in flight.
pub open spec fn move_shots_v(g: GameView) -> GameView {
    let moved = Seq::new(g.shots.len(), |i: int| shot_step(g.shots[i]));
    GameView {
        shots: moved,
        player: Player { active_shots: count_active_shots(moved, true) as u8, ..g.player },
        alien_shots: count_active_shots(moved, false) as u8,
        ..g
    }
}

/// A scored kill: the score grows by one, saturating at the counter's cap.
pub open spec fn bump_score(s: u64) -> u64 {
    if s < u64::MAX {
        (s + 1) as u64
    } else {
        s
    }
}

/// Whether the active shot in slot `i` collides with anything where it
/// now stands: barrier terrain, the player, or a living alien.
pub open spec fn shot_hit(g: GameView, i: int) -> bool {
    let p = g.shots[i].pos;
    ||| cell_at(g, p) == Cell::Barrier
    ||| p == g.player.pos
    ||| (g.shots[i].player_fired && living_alien_at_from(g.aliens, p, 0) is Some)
}

/// The board-side effect of the collision of the shot in slot `i`, in
/// fixed priority order: a barrier absorbs the shot and erodes; otherwise
/// a shot on the player's cell ends the game; otherwise the first living
/// alien on the shot's cell dies and scores one point. Only player-fired
/// shots kill aliens.
pub open spec fn apply_hit(g: GameView, i: int) -> GameView {
    let p = g.shots[i].pos;
    if cell_at(g, p) == Cell::Barrier {
        GameView { cells: g.cells.update(cell_index(p), Cell::Empty), ..g }
    } else if p == g.player.pos {
        GameView { status: Status::Over, ..g }
    } else if g.shots[i].player_fired {
        match living_alien_at_from(g.aliens, p, 0) {
            Some(k) => GameView {
                aliens: g.aliens.update(k, Alien { alive: false, ..g.aliens[k] }),
                score: bump_score(g.score),
                ..g
            },
            None => g,
        }
    } else {
        g
    }
}

/// Slot `i` leaves flight and its owner's counter drops by one.
pub open spec fn deactivate_shot_v(g: GameView, i: int) -> GameView {
    let s = g.shots[i];
    GameView {
        shots: g.shots.update(i, Shot { active: false, ..s }),
        player: if s.player_fired {
            Player { active_shots: (g.player.active_shots - 1) as u8, ..g.player }
        } else {
            g.player
        },
        alien_shots: if s.player_fired {
            g.alien_shots
        } else {
            (g.alien_shots - 1) as u8
        },
        ..g
    }
}

/// Full resolution of pool slot `i`: an active, colliding shot applies its
/// effect and leaves flight; anything else is left alone.
pub open spec fn resolve_shot(g: GameView, i: int) -> GameView {
    if 0 <= i < g.shots.len() && g.shots[i].active && shot_hit(g, i) {
        deactivate_shot_v(apply_hit(g, i), i)
    } else {
        g
    }
}

/// Collision resolution for the pool slots below `n`, in slot order.
pub open spec fn collide_upto(g: GameView, n: int) -> GameView
    decreases n,
{
    if n <= 0 {
        g
    } else {
        resolve_shot(collide_upto(g, n - 1), n - 1)
    }
}

/// One whole update while the round is live: apply and clear the buffered
/// move, resolve and clear the fire intent, march the formation, advance
/// the pool, resolve collisions. Once the game is over an update changes
/// nothing.
pub open spec fn update_v(g: GameView) -> GameView {
    if g.status == Status::Normal {
        let g1 = GameView { last_dir: None, ..move_player_v(g) };
        let g2 = if g1.fired_shot {
            player_shoot_v(GameView { fired_shot: false, ..g1 })
        } else {
            g1
        };
        let g3 = move_aliens_v(g2);
        let g4 = move_shots_v(g3);
        collide_upto(g4, NUM_SHOTS as int)
    } else {
        g
    }
}

/// Wrapping shot `i` of the hit-check: whether the shot in slot `i` of
/// view `g` is active. A helper for stating counter facts.
pub open spec fn is_owned_active(s: Shot, by_player: bool) -> bool {
    s.active && s.player_fired == by_player
}

/// Replacing one slot changes an owner's count exactly by the difference
/// the two slot values make.
pub proof fn lemma_count_update(shots: Seq<Shot>, i: int, s: Shot, by_player: bool)
    requires
        0 <= i < shots.len(),
    ensures
        count_active_shots(shots.update(i, s), by_player) == count_active_shots(shots, by_player)
            - (if is_owned_active(shots[i], by_player) { 1int } else { 0int })
            + (if is_owned_active(s, by_player) { 1int } else { 0int }),
    decreases shots.len(),
{
    let upd = shots.update(i, s);
    if i == shots.len() - 1 {
        assert(upd.drop_last() =~= shots.drop_last());
    } else {
        assert(upd.drop_last() =~= shots.drop_last().update(i, s));
        lemma_count_update(shots.drop_last(), i, s, by_player);
    }
}

/// An owner's count lies between zero and the pool size.
pub proof fn lemma_count_bounds(shots: Seq<Shot>, by_player: bool)
    ensures
        0 <= count_active_shots(shots, by_player) <= shots.len(),
    decreases shots.len(),
{
    if shots.len() > 0 {
        lemma_count_bounds(shots.drop_last(), by_player);
    }
}

/// With no slot in flight, both owners' counts are zero.
pub proof fn lemma_count_none_active(shots: Seq<Shot>, by_player: bool)
    requires
        forall|k: int| 0 <= k < shots.len() ==> !(#[trigger] shots[k]).active,
    ensures
        count_active_shots(shots, by_player) == 0,
    decreases shots.len(),
{
    if shots.len() > 0 {
        lemma_count_none_active(shots.drop_last(), by_player);
    }
}

/// A slot in flight for an owner witnesses that the owner's count is
/// at least one.
pub proof fn lemma_count_at_least_one(shots: Seq<Shot>, i: int, by_player: bool)
    requires
        0 <= i < shots.len(),
        is_owned_active(shots[i], by_player),
    ensures
        count_active_shots(shots, by_player) >= 1,
    decreases shots.len(),
{
    lemma_count_bounds(shots.drop_last(), by_player);
    if i < shots.len() - 1 {
        lemma_count_at_least_one(shots.drop_last(), i, by_player);
    }
}

/// When every slot is in flight, the two owners' counts fill the pool.
pub proof fn lemma_all_active_counts(shots: Seq<Shot>)
    requires
        forall|k: int| 0 <= k < shots.len() ==> (#[trigger] shots[k]).active,
    ensures
        count_active_shots(shots, true) + count_active_shots(shots, false) == shots.len(),
    decreases shots.len(),
{
    if shots.len() > 0 {
        assert(shots.drop_last().len() == shots.len() - 1);
        assert(forall|k: int|
            0 <= k < shots.drop_last().len() ==> (#[trigger] shots.drop_last()[k]).active);
        lemma_all_active_counts(shots.drop_last());
        assert(shots.last().active);
    }
}

/// When the owners' counts do not fill the pool, some slot is free, and
/// the first-free search finds one.
pub proof fn lemma_free_slot_exists(shots: Seq<Shot>)
    requires
        count_active_shots(shots, true) + count_active_shots(shots, false) < shots.len(),
    ensures
        first_inactive_from(shots, 0) is Some,
{
    if forall|k: int| 0 <= k < shots.len() ==> (#[trigger] shots[k]).active {
        lemma_all_active_counts(shots);
        assert(false);
    } else {
        let w = choose|k: int| 0 <= k < shots.len() && !(#[trigger] shots[k]).active;
        lemma_first_inactive_finds(shots, 0, w);
    }
}

/// If slot `w` at or after `i` is free, the first-free search from `i`
/// returns a free slot index no later than `w`.
pub proof fn lemma_first_inactive_finds(shots: Seq<Shot>, i: int, w: int)
    requires
        0 <= i <= w < shots.len(),
        !shots[w].active,
    ensures
        first_inactive_from(shots, i) is Some,
    decreases w - i,
{
    if i < w && shots[i].active {
        lemma_first_inactive_finds(shots, i + 1, w);
    }
}

/// What the first-free search returns is a free slot, and every slot
/// before it is in flight.
pub proof fn lemma_first_inactive_sound(shots: Seq<Shot>, i: int)
    requires
        0 <= i,
    ensures
        match first_inactive_from(shots, i) {
            Some(j) => i <= j < shots.len() && !shots[j].active && forall|k: int|
                i <= k < j ==> (#[trigger] shots[k]).active,
            None => forall|k: int|
                i <= k < shots.len() ==> (#[trigger] shots[k]).active,
        },
    decreases shots.len() - i,
{
    if 0 <= i < shots.len() && shots[i].active {
        lemma_first_inactive_sound(shots, i + 1);
    }
}


/// How many formation slots hold a living alien.
pub open spec fn count_living(aliens: Seq<Alien>) -> int
    decreases aliens.len(),
{
    if aliens.len() == 0 {
        0
    } else {
        count_living(aliens.drop_last()) + if aliens.last().alive {
            1int
        } else {
            0int
        }
    }
}

/// Replacing one formation slot changes the living count exactly by the
/// difference the two slot values make.
pub proof fn lemma_count_living_update(aliens: Seq<Alien>, k: int, a: Alien)
    requires
        0 <= k < aliens.len(),
    ensures
        count_living(aliens.update(k, a)) == count_living(aliens) - (if aliens[k].alive {
            1int
        } else {
            0int
        }) + (if a.alive {
            1int
        } else {
            0int
        }),
    decreases aliens.len(),
{
    let upd = aliens.update(k, a);
    if k == aliens.len() - 1 {
        assert(upd.drop_last() =~= aliens.drop_last());
    } else {
        assert(upd.drop_last() =~= aliens.drop_last().update(k, a));
        lemma_count_living_update(aliens.drop_last(), k, a);
    }
}

/// How many of an owner's shots are in flight and about to leave the board
/// on their next step of travel.
pub open spec fn count_exiting_shots(shots: Seq<Shot>, by_player: bool) -> int
    decreases shots.len(),
{
    if shots.len() == 0 {
        0
    } else {
        count_exiting_shots(shots.drop_last(), by_player) + if shots.last().active
            && shots.last().player_fired == by_player && !shots.last().pos.spec_neighbor(
            shots.last().dir,
        ).spec_is_legal() {
            1int
        } else {
            0int
        }
    }
}

/// A slot about to exit for an owner witnesses that the owner's exiting
/// count is at least one.
pub proof fn lemma_exiting_at_least_one(shots: Seq<Shot>, i: int, by_player: bool)
    requires
        0 <= i < shots.len(),
        is_owned_active(shots[i], by_player),
        !shots[i].pos.spec_neighbor(shots[i].dir).spec_is_legal(),
    ensures
        count_exiting_shots(shots, by_player) >= 1,
        count_exiting_shots(shots, by_player) <= shots.len(),
    decreases shots.len(),
{
    lemma_exiting_bounds(shots.drop_last(), by_player);
    if i < shots.len() - 1 {
        lemma_exiting_at_least_one(shots.drop_last(), i, by_player);
    }
}

/// An owner's exiting count lies between zero and the pool size.
pub proof fn lemma_exiting_bounds(shots: Seq<Shot>, by_player: bool)
    ensures
        0 <= count_exiting_shots(shots, by_player) <= shots.len(),
    decreases shots.len(),
{
    if shots.len() > 0 {
        lemma_exiting_bounds(shots.drop_last(), by_player);
    }
}

/// Advancing the pool one step removes exactly the exiting shots from each
/// owner's in-flight count.
pub proof fn lemma_move_counts(shots: Seq<Shot>, by_player: bool)
    ensures
        count_active_shots(Seq::new(shots.len(), |k: int| shot_step(shots[k])), by_player)
            == count_active_shots(shots, by_player) - count_exiting_shots(shots, by_player),
    decreases shots.len(),
{
    let moved = Seq::new(shots.len(), |k: int| shot_step(shots[k]));
    if shots.len() > 0 {
        lemma_move_counts(shots.drop_last(), by_player);
        assert(moved.drop_last() =~= Seq::new(
            shots.drop_last().len(),
            |k: int| shot_step(shots.drop_last()[k]),
        ));
        assert(moved.last() == shot_step(shots.last()));
    }
}

} // verus!

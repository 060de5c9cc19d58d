//! The board layout: the textual template format, the default template, and
//! the translation of a template into terrain, player and formation.
//!
//! A template is one byte per cell, row-major: `.` an empty cell, `#` a
//! barrier, `^` the player's start (the cell itself is empty), `@` the next
//! alien of the formation in row-major order (the cell itself is empty).
//! Any other byte is a fatal configuration error and the whole template is
//! rejected.

use vstd::prelude::*;

use crate::game_core::{Alien, Cell, Position, ALIEN_MAX_SHOTS, GRID_CELLS, HEIGHT, NUM_ALIENS, NUM_SHOTS, PLAYER_MAX_SHOTS, WIDTH};
use crate::game_core::{Dir, Player, Shot, Status};
use crate::model::GameView;

verus! {

/// Template symbol: an empty cell (`.`).
pub const SYM_EMPTY: u8 = 46;

/// Template symbol: a barrier cell (`#`).
pub const SYM_BARRIER: u8 = 35;

/// Template symbol: the player's start (`^`).
pub const SYM_PLAYER: u8 = 94;

/// Template symbol: the next alien of the formation (`@`).
pub const SYM_ALIEN: u8 = 64;

/// True iff `ch` is one of the four template symbols.
pub open spec fn recognized(ch: u8) -> bool {
    ch == SYM_EMPTY || ch == SYM_BARRIER || ch == SYM_PLAYER || ch == SYM_ALIEN
}

/// A template is valid when it has exactly the board's dimensions and
/// every byte is a recognized symbol.
pub open spec fn valid_template(t: Seq<Seq<u8>>) -> bool {
    &&& t.len() == HEIGHT
    &&& forall|r: int| 0 <= r < HEIGHT ==> (#[trigger] t[r]).len() == WIDTH
    &&& forall|r: int, c: int|
        0 <= r < HEIGHT && 0 <= c < WIDTH ==> recognized(#[trigger] t[r][c])
}

/// The abstract value of a template held as a vector of rows.
pub open spec fn rows_view(t: &Vec<Vec<u8>>) -> Seq<Seq<u8>> {
    Seq::new(t@.len(), |r: int| t@[r]@)
}

/// What a template derives: the terrain, the player's start, the formation,
/// and how many formation slots have been filled so far.
pub ghost struct LoadState {
    pub cells: Seq<Cell>,
    pub player_pos: Position,
    pub aliens: Seq<Alien>,
    pub alien_idx: int,
}

/// Before any template byte is read: an all-empty board, the player at the
/// origin, and a formation of dead aliens at the origin.
pub open spec fn load_init() -> LoadState {
    LoadState {
        cells: Seq::new(GRID_CELLS as nat, |i: int| Cell::Empty),
        player_pos: Position { row: 0, col: 0 },
        aliens: Seq::new(
            NUM_ALIENS as nat,
            |i: int| Alien { pos: Position { row: 0, col: 0 }, alive: false },
        ),
        alien_idx: 0,
    }
}

/// Reading one template byte at `(r, c)`: the cell is classified, `^` also
/// places the player, and `@` also fills the next formation slot (extra
/// markers beyond the formation's capacity leave only an empty cell).
pub open spec fn load_step(s: LoadState, r: int, c: int, ch: u8) -> LoadState {
    let idx = r * WIDTH + c;
    if ch == SYM_BARRIER {
        LoadState { cells: s.cells.update(idx, Cell::Barrier), ..s }
    } else if ch == SYM_PLAYER {
        LoadState {
            cells: s.cells.update(idx, Cell::Empty),
            player_pos: Position { row: r as i16, col: c as i16 },
            ..s
        }
    } else if ch == SYM_ALIEN {
        if s.alien_idx < NUM_ALIENS {
            LoadState {
                cells: s.cells.update(idx, Cell::Empty),
                aliens: s.aliens.update(
                    s.alien_idx,
                    Alien { pos: Position { row: r as i16, col: c as i16 }, alive: true },
                ),
                alien_idx: s.alien_idx + 1,
                ..s
            }
        } else {
            LoadState { cells: s.cells.update(idx, Cell::Empty), ..s }
        }
    } else {
        LoadState { cells: s.cells.update(idx, Cell::Empty), ..s }
    }
}

/// The load state after the first `n` cells of the board, row-major.
pub open spec fn load_upto(t: Seq<Seq<u8>>, n: int) -> LoadState
    decreases n,
{
    if n <= 0 {
        load_init()
    } else {
        let i = n - 1;
        load_step(load_upto(t, i), i / (WIDTH as int), i % (WIDTH as int), t[i / (WIDTH as int)][i % (WIDTH as int)])
    }
}

/// The load state of a whole template.
pub open spec fn load_template_spec(t: Seq<Seq<u8>>) -> LoadState {
    load_upto(t, GRID_CELLS as int)
}

/// The game state that re-deriving the board from template `t` yields:
/// the loaded terrain, player and formation, an all-free projectile pool,
/// the formation heading east, a live round with no buffered input, and
/// the given score and countdown carried over.
pub open spec fn setup_view(t: Seq<Seq<u8>>, score: u64, countdown: usize) -> GameView {
    let ls = load_template_spec(t);
    GameView {
        cells: ls.cells,
        status: Status::Normal,
        player: Player { pos: ls.player_pos, active_shots: 0, total_shots: PLAYER_MAX_SHOTS },
        aliens: ls.aliens,
        alien_dir: Dir::E,
        alien_shots: 0,
        alien_total: ALIEN_MAX_SHOTS,
        shots: Seq::new(
            NUM_SHOTS as nat,
            |i: int| Shot { pos: Position { row: 0, col: 0 }, active: false, dir: Dir::N, player_fired: false },
        ),
        score,
        last_dir: None,
        countdown,
        fired_shot: false,
    }
}

/// The state of a brand-new game: the default board, score zero, and an
/// update due on the next tick.
pub open spec fn initial_view() -> GameView {
    setup_view(default_template_view(), 0, 0)
}

/// Loading keeps the grid and formation sizes, keeps every placed unit on
/// the board, and never overfills the formation.
pub proof fn lemma_load_wf(t: Seq<Seq<u8>>, n: int)
    requires
        0 <= n <= GRID_CELLS,
    ensures
        load_upto(t, n).cells.len() == GRID_CELLS,
        load_upto(t, n).aliens.len() == NUM_ALIENS,
        0 <= load_upto(t, n).alien_idx <= NUM_ALIENS,
        load_upto(t, n).player_pos.spec_is_legal(),
        forall|k: int|
            0 <= k < NUM_ALIENS ==> (#[trigger] load_upto(t, n).aliens[k]).pos.spec_is_legal(),
    decreases n,
{
    if n > 0 {
        lemma_load_wf(t, n - 1);
        let i = n - 1;
        assert(0 <= i / (WIDTH as int) < HEIGHT);
        assert(0 <= i % (WIDTH as int) < WIDTH);
    }
}

/// Column where the leftmost alien of template alien row `r` stands.
pub open spec fn alien_row_offset(r: int) -> int {
    if r == 1 || r == 5 {
        3
    } else if r == 2 || r == 4 {
        4
    } else {
        5
    }
}

/// The default board template, as a function from cell coordinates to the
/// template symbol there: a wall around the board, five rows of 24 aliens
/// each in a staggered pattern, three rows of barrier bunkers with gaps,
/// and the player centered near the bottom.
pub open spec fn template_char(r: int, c: int) -> u8 {
    if 1 <= r <= 5 {
        if c == 0 || c == WIDTH - 1 {
            SYM_BARRIER
        } else if alien_row_offset(r) <= c <= alien_row_offset(r) + 69 && (c - alien_row_offset(r))
            % 3 == 0 {
            SYM_ALIEN
        } else {
            SYM_EMPTY
        }
    } else if 17 <= r <= 19 {
        if (c <= 74 && (c % 5 == 3 || c % 5 == 4)) || c == 77 {
            SYM_EMPTY
        } else {
            SYM_BARRIER
        }
    } else if r == 21 {
        if c == 0 || c == WIDTH - 1 {
            SYM_BARRIER
        } else if c == 36 {
            SYM_PLAYER
        } else {
            SYM_EMPTY
        }
    } else {
        if c == 0 || c == WIDTH - 1 {
            SYM_BARRIER
        } else {
            SYM_EMPTY
        }
    }
}

/// The default template as an abstract grid of symbols.
pub open spec fn default_template_view() -> Seq<Seq<u8>> {
    Seq::new(HEIGHT as nat, |r: int| Seq::new(WIDTH as nat, |c: int| template_char(r, c)))
}

/// The default template is a valid template.
pub proof fn lemma_default_template_valid()
    ensures
        valid_template(default_template_view()),
{
    assert forall|r: int, c: int|
        0 <= r < HEIGHT && 0 <= c < WIDTH implies recognized(
        #[trigger] default_template_view()[r][c],
    ) by {
        assert(default_template_view()[r][c] == template_char(r, c));
    }
}

/// The symbol of the default template at `(r, c)`.
pub fn template_char_at(r: usize, c: usize) -> (ch: u8)
    requires
        r < HEIGHT,
        c < WIDTH,
    ensures
        ch == template_char(r as int, c as int),
{
    if 1 <= r && r <= 5 {
        let off: usize = if r == 1 || r == 5 {
            3
        } else if r == 2 || r == 4 {
            4
        } else {
            5
        };
        if c == 0 || c == WIDTH - 1 {
            SYM_BARRIER
        } else if off <= c && c <= off + 69 && (c - off) % 3 == 0 {
            SYM_ALIEN
        } else {
            SYM_EMPTY
        }
    } else if 17 <= r && r <= 19 {
        if (c <= 74 && (c % 5 == 3 || c % 5 == 4)) || c == 77 {
            SYM_EMPTY
        } else {
            SYM_BARRIER
        }
    } else if r == 21 {
        if c == 0 || c == WIDTH - 1 {
            SYM_BARRIER
        } else if c == 36 {
            SYM_PLAYER
        } else {
            SYM_EMPTY
        }
    } else {
        if c == 0 || c == WIDTH - 1 {
            SYM_BARRIER
        } else {
            SYM_EMPTY
        }
    }
}

/// Build the default template as rows of bytes.
pub fn default_template() -> (t: Vec<Vec<u8>>)
    ensures
        rows_view(&t) =~~= default_template_view(),
        valid_template(rows_view(&t)),
{
    let mut rows: Vec<Vec<u8>> = Vec::new();
    for r in 0..HEIGHT
        invariant
            rows@.len() == r,
            forall|i: int| 0 <= i < r ==> (#[trigger] rows@[i])@.len() == WIDTH,
            forall|i: int, j: int|
                0 <= i < r && 0 <= j < WIDTH ==> (#[trigger] rows@[i]@[j]) == template_char(i, j),
    {
        let mut row: Vec<u8> = Vec::new();
        for c in 0..WIDTH
            invariant
                r < HEIGHT,
                row@.len() == c,
                forall|j: int| 0 <= j < c ==> (#[trigger] row@[j]) == template_char(r as int, j),
        {
            row.push(template_char_at(r, c));
        }
        rows.push(row);
    }
    proof {
        assert(rows_view(&rows) =~~= default_template_view());
        lemma_default_template_valid();
    }
    rows
}

} // verus!

//! The game engine: board geometry, units, and the per-tick state machine.
//!
//! The board is a fixed rectangle sized for an 80x25 text display with two
//! rows reserved for the host's header, so the playfield is 80 columns by
//! 23 rows. Every public operation states its effect on the abstract game
//! view ([`crate::model::GameView`]).

use vstd::prelude::*;

use crate::board::{
    default_template, default_template_view, initial_view, load_init, load_step, load_upto,
    lemma_load_wf, recognized, rows_view, setup_view, valid_template, LoadState, SYM_ALIEN, SYM_EMPTY,
    SYM_BARRIER, SYM_PLAYER,
};
use crate::model::{
    alien_fire_choice, alien_shot_start, apply_hit, cell_at, collide_upto, count_active_shots,
    deactivate_shot_v, descent_reaches_danger, fire_slot_v, first_inactive_from,
    first_living_from, first_living_in_col_from, lemma_count_at_least_one,
    lemma_count_none_active, lemma_count_update, lemma_living_alien_at_bounds,
    living_alien_at_from, living_hits_wall, march_aliens_v, move_aliens_v, move_player_v,
    move_shots_v, player_shoot_v, resolve_shot, shot_hit, shot_step, step_living, update_v,
    wf_view, GameView,
};

verus! {

/// Board width in columns.
pub const WIDTH: usize = 80;

/// Board height in rows (a 25-row display minus two header rows).
pub const HEIGHT: usize = 23;

/// Number of board cells.
pub const GRID_CELLS: usize = 1840;

/// A game update runs once every `UPDATE_FREQUENCY + 1` timer ticks.
pub const UPDATE_FREQUENCY: usize = 3;

/// The formation is this many alien rows tall.
pub const ALIEN_ROWS: usize = 5;

/// Each formation row holds this many aliens.
pub const ALIEN_COLS: usize = 24;

/// Total alien slots in the formation grid.
pub const NUM_ALIENS: usize = 120;

/// Capacity of the shared projectile pool.
pub const NUM_SHOTS: usize = 4;

/// The player may have this many shots in flight at once.
pub const PLAYER_MAX_SHOTS: u8 = 3;

/// The formation may have this many shots in flight at once.
pub const ALIEN_MAX_SHOTS: u8 = 1;

/// When a living alien's descent would reach this row, the game is over.
/// The check runs before the descent is committed, so the loss is raised
/// one step before the formation visually reaches the row.
pub const DANGER_ROW: i16 = 17;

/// A compass direction; the formation steers with `reverse`, and the
/// rotations `left` and `right` are available to movement policies.
#[derive(Debug, Copy, Clone, Eq, PartialEq, Structural)]
pub enum Dir {
    N,
    S,
    E,
    W,
}

impl Dir {
    /// The opposite direction.
    pub open spec fn spec_reverse(&self) -> Dir {
        match self {
            Dir::N => Dir::S,
            Dir::S => Dir::N,
            Dir::E => Dir::W,
            Dir::W => Dir::E,
        }
    }

    #[verifier::when_used_as_spec(spec_reverse)]
    pub fn reverse(&self) -> (r: Dir)
        ensures
            r == self.spec_reverse(),
    {
        match self {
            Dir::N => Dir::S,
            Dir::S => Dir::N,
            Dir::E => Dir::W,
            Dir::W => Dir::E,
        }
    }

    /// The direction ninety degrees counterclockwise.
    pub open spec fn spec_left(&self) -> Dir {
        match self {
            Dir::N => Dir::W,
            Dir::S => Dir::E,
            Dir::E => Dir::N,
            Dir::W => Dir::S,
        }
    }

    #[verifier::when_used_as_spec(spec_left)]
    pub fn left(&self) -> (r: Dir)
        ensures
            r == self.spec_left(),
    {
        match self {
            Dir::N => Dir::W,
            Dir::S => Dir::E,
            Dir::E => Dir::N,
            Dir::W => Dir::S,
        }
    }

    /// The direction ninety degrees clockwise.
    pub open spec fn spec_right(&self) -> Dir {
        match self {
            Dir::N => Dir::E,
            Dir::S => Dir::W,
            Dir::E => Dir::S,
            Dir::W => Dir::N,
        }
    }

    #[verifier::when_used_as_spec(spec_right)]
    pub fn right(&self) -> (r: Dir)
        ensures
            r == self.spec_right(),
    {
        match self {
            Dir::N => Dir::E,
            Dir::S => Dir::W,
            Dir::E => Dir::S,
            Dir::W => Dir::N,
        }
    }
}

/// A board coordinate: `row` grows southward, `col` grows eastward.
/// The pair may lie outside the board; `is_legal` tells.
#[derive(Debug, Copy, Clone, Eq, PartialEq, Structural)]
pub struct Position {
    pub col: i16,
    pub row: i16,
}

impl Position {
    /// Make a position from a row and a column.
    pub fn new(row: i16, col: i16) -> (p: Position)
        ensures
            p.row == row,
            p.col == col,
    {
        Position { col, row }
    }

    /// True iff the position lies on the board.
    pub open spec fn spec_is_legal(&self) -> bool {
        0 <= self.col < WIDTH && 0 <= self.row < HEIGHT
    }

    #[verifier::when_used_as_spec(spec_is_legal)]
    pub fn is_legal(&self) -> (r: bool)
        ensures
            r == self.spec_is_legal(),
    {
        0 <= self.col && self.col < WIDTH as i16 && 0 <= self.row && self.row < HEIGHT as i16
    }

    /// The row and column as unsigned indices.
    pub fn row_col(&self) -> (r: (usize, usize))
        requires
            self.row >= 0,
            self.col >= 0,
        ensures
            r == (self.row as usize, self.col as usize),
    {
        (self.row as usize, self.col as usize)
    }

    /// The adjacent position one step in direction `d` (no bounds check).
    pub open spec fn spec_neighbor(&self, d: Dir) -> Position {
        match d {
            Dir::N => Position { row: (self.row - 1) as i16, col: self.col },
            Dir::S => Position { row: (self.row + 1) as i16, col: self.col },
            Dir::E => Position { row: self.row, col: (self.col + 1) as i16 },
            Dir::W => Position { row: self.row, col: (self.col - 1) as i16 },
        }
    }

    #[verifier::when_used_as_spec(spec_neighbor)]
    pub fn neighbor(&self, d: Dir) -> (p: Position)
        requires
            d == Dir::N ==> self.row > i16::MIN,
            d == Dir::S ==> self.row < i16::MAX,
            d == Dir::E ==> self.col < i16::MAX,
            d == Dir::W ==> self.col > i16::MIN,
        ensures
            p == self.spec_neighbor(d),
    {
        match d {
            Dir::N => Position { row: self.row - 1, col: self.col },
            Dir::S => Position { row: self.row + 1, col: self.col },
            Dir::E => Position { row: self.row, col: self.col + 1 },
            Dir::W => Position { row: self.row, col: self.col - 1 },
        }
    }
}

/// What a board tile holds. Barrier cells absorb shots and erode.
#[derive(Debug, Copy, Clone, Eq, PartialEq, Structural)]
pub enum Cell {
    Empty,
    Barrier,
}

/// Whether the round is still being played.
#[derive(Debug, Copy, Clone, Eq, PartialEq, Structural)]
pub enum Status {
    Normal,
    Over,
}

/// One slot of the projectile pool. An inactive shot's position and
/// direction are meaningless leftovers; only active shots occupy a cell.
#[derive(Debug, Copy, Clone, Eq, PartialEq, Structural)]
pub struct Shot {
    pub pos: Position,
    pub active: bool,
    pub dir: Dir,
    /// True when the player fired this shot, false when the formation did.
    pub player_fired: bool,
}

impl Shot {
    /// A fresh, inactive pool slot.
    pub fn new(pos: Position) -> (s: Shot)
        ensures
            s == (Shot { pos, active: false, dir: Dir::N, player_fired: false }),
    {
        Shot { pos, active: false, dir: Dir::N, player_fired: false }
    }

    /// Activate this slot as a shot at `pos` travelling in `direction`.
    pub fn fire(&mut self, pos: Position, direction: Dir, player: bool)
        ensures
            *final(self) == (Shot { pos, active: true, dir: direction, player_fired: player }),
    {
        self.pos = pos;
        self.active = true;
        self.dir = direction;
        self.player_fired = player;
    }

    /// Take this shot out of flight.
    pub fn deactivate(&mut self)
        ensures
            *final(self) == (Shot { active: false, ..*old(self) }),
    {
        self.active = false;
    }

    /// True iff the player owns this shot.
    pub fn fired_by_player(&self) -> (r: bool)
        ensures
            r == self.player_fired,
    {
        self.player_fired
    }

    /// The cell this shot would occupy after one step of travel.
    pub fn next_pos(&self) -> (p: Position)
        requires
            self.pos.is_legal(),
        ensures
            p == self.pos.spec_neighbor(self.dir),
    {
        self.pos.neighbor(self.dir)
    }

    /// How the host draws a shot.
    pub fn icon() -> (c: char)
        ensures
            c == '|',
    {
        '|'
    }
}

/// The player unit: a position and a bounded budget of in-flight shots.
#[derive(Debug, Copy, Clone, Eq, PartialEq, Structural)]
pub struct Player {
    pub pos: Position,
    pub active_shots: u8,
    pub total_shots: u8,
}

impl Player {
    /// A player at `pos` with no shots in flight.
    pub fn new(pos: Position) -> (p: Player)
        ensures
            p == (Player { pos, active_shots: 0, total_shots: PLAYER_MAX_SHOTS }),
    {
        Player { pos, active_shots: 0, total_shots: PLAYER_MAX_SHOTS }
    }

    /// True iff the player is under its in-flight shot cap.
    pub fn can_fire_shot(&self) -> (r: bool)
        ensures
            r == (self.active_shots < self.total_shots),
    {
        self.active_shots < self.total_shots
    }

    /// Where a newly fired player shot starts: one cell north of the player.
    pub fn get_shot_position(&self) -> (p: Position)
        requires
            self.pos.row > i16::MIN,
        ensures
            p == (Position { row: (self.pos.row - 1) as i16, col: self.pos.col }),
    {
        Position { row: self.pos.row - 1, col: self.pos.col }
    }

    /// How the host draws the player.
    pub fn icon() -> (c: char)
        ensures
            c == '^',
    {
        '^'
    }
}

/// One alien slot of the formation grid. Dead aliens keep their slot and
/// position but are inert: they neither move, fire, nor collide.
#[derive(Debug, Copy, Clone, Eq, PartialEq, Structural)]
pub struct Alien {
    pub pos: Position,
    pub alive: bool,
}

impl Alien {
    /// A living alien at `pos`.
    pub fn new(pos: Position) -> (a: Alien)
        ensures
            a == (Alien { pos, alive: true }),
    {
        Alien { pos, alive: true }
    }

    /// True iff this alien shares a column with the player.
    pub fn directly_above_player(&self, player: Player) -> (r: bool)
        ensures
            r == (player.pos.col == self.pos.col),
    {
        player.pos.col == self.pos.col
    }

    /// How the host draws a living alien.
    pub fn icon() -> (c: char)
        ensures
            c == '@',
    {
        '@'
    }
}


/// The formation: a fixed row-major grid of alien slots (`ALIEN_ROWS` rows
/// of `ALIEN_COLS`), one shared movement direction, and the formation's own
/// projectile budget.
#[derive(Debug)]
pub struct Aliens {
    pub(crate) aliens: Vec<Alien>,
    pub(crate) active_shots: u8,
    pub(crate) total_shots: u8,
    pub(crate) dir: Dir,
}

impl Aliens {
    /// A full formation of living aliens, all parked at the origin until a
    /// template places them, heading east, with no shot in flight.
    pub(crate) fn new() -> (a: Aliens)
        ensures
            a.aliens@.len() == NUM_ALIENS,
            forall|k: int|
                0 <= k < NUM_ALIENS ==> a.aliens@[k] == (Alien {
                    pos: Position { row: 0, col: 0 },
                    alive: true,
                }),
            a.active_shots == 0,
            a.total_shots == ALIEN_MAX_SHOTS,
            a.dir == Dir::E,
    {
        let mut v: Vec<Alien> = Vec::new();
        for k in 0..NUM_ALIENS
            invariant
                v@.len() == k,
                forall|j: int|
                    0 <= j < k ==> v@[j] == (Alien {
                        pos: Position { row: 0, col: 0 },
                        alive: true,
                    }),
        {
            v.push(Alien::new(Position { row: 0, col: 0 }));
        }
        Aliens { aliens: v, active_shots: 0, total_shots: ALIEN_MAX_SHOTS, dir: Dir::E }
    }

    /// True iff the formation is under its in-flight shot cap.
    pub(crate) fn can_fire_shot(&self) -> (r: bool)
        ensures
            r == (self.active_shots < self.total_shots),
    {
        self.active_shots < self.total_shots
    }
}

/// The whole game: terrain, round status, player, formation, projectile
/// pool, score, the buffered input, and the tick-rate countdown.
#[derive(Debug)]
pub struct SpaceInvadersGame {
    cells: Vec<Cell>,
    status: Status,
    player: Player,
    aliens: Aliens,
    shots: Vec<Shot>,
    score: u64,
    last_dir: Option<Dir>,
    countdown: usize,
    fired_shot: bool,
}

impl View for SpaceInvadersGame {
    type V = GameView;

    closed spec fn view(&self) -> GameView {
        GameView {
            cells: self.cells@,
            status: self.status,
            player: self.player,
            aliens: self.aliens.aliens@,
            alien_dir: self.aliens.dir,
            alien_shots: self.aliens.active_shots,
            alien_total: self.aliens.total_shots,
            shots: self.shots@,
            score: self.score,
            last_dir: self.last_dir,
            countdown: self.countdown,
            fired_shot: self.fired_shot,
        }
    }
}

impl SpaceInvadersGame {
    /// The game is well formed; see [`wf_view`].
    pub open spec fn wf(&self) -> bool {
        wf_view(self@)
    }

    /// Check a template's dimensions and symbols.
    fn template_ok(template: &Vec<Vec<u8>>) -> (ok: bool)
        ensures
            ok == valid_template(rows_view(template)),
    {
        if template.len() != HEIGHT {
            return false;
        }
        for r in 0..HEIGHT
            invariant
                template@.len() == HEIGHT,
                forall|i: int| 0 <= i < r ==> (#[trigger] template@[i])@.len() == WIDTH,
                forall|i: int, j: int|
                    0 <= i < r && 0 <= j < WIDTH ==> recognized(#[trigger] template@[i]@[j]),
        {
            if template[r].len() != WIDTH {
                proof {
                    assert(rows_view(template)[r as int].len() != WIDTH);
                }
                return false;
            }
            for c in 0..WIDTH
                invariant
                    template@.len() == HEIGHT,
                    r < HEIGHT,
                    template@[r as int]@.len() == WIDTH,
                    forall|i: int| 0 <= i < r ==> (#[trigger] template@[i])@.len() == WIDTH,
                    forall|i: int, j: int|
                        0 <= i < r && 0 <= j < WIDTH ==> recognized(#[trigger] template@[i]@[j]),
                    forall|j: int| 0 <= j < c ==> recognized(#[trigger] template@[r as int]@[j]),
            {
                let ch = template[r][c];
                if !(ch == SYM_EMPTY || ch == SYM_BARRIER || ch == SYM_PLAYER || ch == SYM_ALIEN) {
                    proof {
                        assert(rows_view(template)[r as int][c as int] == ch);
                    }
                    return false;
                }
            }
        }
        proof {
            assert forall|i: int| 0 <= i < HEIGHT implies (#[trigger] rows_view(template)[i]).len()
                == WIDTH by {
                assert(rows_view(template)[i] == template@[i]@);
            }
            assert forall|i: int, j: int| 0 <= i < HEIGHT && 0 <= j < WIDTH implies recognized(
                #[trigger] rows_view(template)[i][j],
            ) by {
                assert(rows_view(template)[i] == template@[i]@);
            }
        }
        true
    }

    /// Classify one template byte into the board state being built; one
    /// step of the abstract loader.
    fn translate_icon(
        cells: &mut Vec<Cell>,
        player_pos: &mut Position,
        aliens: &mut Vec<Alien>,
        alien_idx: &mut usize,
        row: usize,
        col: usize,
        icon: u8,
    )
        requires
            recognized(icon),
            row < HEIGHT,
            col < WIDTH,
            old(cells)@.len() == GRID_CELLS,
            old(aliens)@.len() == NUM_ALIENS,
            *old(alien_idx) <= NUM_ALIENS,
        ensures
            ({
                let s2 = load_step(
                    LoadState {
                        cells: old(cells)@,
                        player_pos: *old(player_pos),
                        aliens: old(aliens)@,
                        alien_idx: *old(alien_idx) as int,
                    },
                    row as int,
                    col as int,
                    icon,
                );
                &&& final(cells)@ == s2.cells
                &&& *final(player_pos) == s2.player_pos
                &&& final(aliens)@ == s2.aliens
                &&& *final(alien_idx) as int == s2.alien_idx
            }),
    {
        let idx = row * WIDTH + col;
        if icon == SYM_BARRIER {
            cells[idx] = Cell::Barrier;
        } else if icon == SYM_PLAYER {
            cells[idx] = Cell::Empty;
            *player_pos = Position { row: row as i16, col: col as i16 };
        } else if icon == SYM_ALIEN {
            cells[idx] = Cell::Empty;
            if *alien_idx < NUM_ALIENS {
                aliens[*alien_idx] = Alien::new(Position { row: row as i16, col: col as i16 });
                *alien_idx = *alien_idx + 1;
            }
        } else {
            cells[idx] = Cell::Empty;
        }
    }

    /// Re-derive terrain, player and formation from `template`, empty the
    /// projectile pool, and start a live round with no buffered input;
    /// score and countdown are left alone. A malformed template (wrong
    /// dimensions or an unrecognized symbol) is rejected whole: the game
    /// is unchanged and the result is false.
    pub(crate) fn set_up_game(&mut self, template: &Vec<Vec<u8>>) -> (ok: bool)
        ensures
            ok == valid_template(rows_view(template)),
            ok ==> final(self)@ == setup_view(
                rows_view(template),
                old(self)@.score,
                old(self)@.countdown,
            ),
            ok ==> final(self).wf(),
            !ok ==> final(self)@ == old(self)@,
    {
        if !Self::template_ok(template) {
            return false;
        }
        let mut cells: Vec<Cell> = Vec::new();
        for i in 0..GRID_CELLS
            invariant
                cells@.len() == i,
                forall|j: int| 0 <= j < i ==> cells@[j] == Cell::Empty,
        {
            cells.push(Cell::Empty);
        }
        let mut player_pos = Position { row: 0, col: 0 };
        let mut aliens: Vec<Alien> = Vec::new();
        for i in 0..NUM_ALIENS
            invariant
                aliens@.len() == i,
                forall|j: int|
                    0 <= j < i ==> aliens@[j] == (Alien {
                        pos: Position { row: 0, col: 0 },
                        alive: false,
                    }),
        {
            aliens.push(Alien { pos: Position { row: 0, col: 0 }, alive: false });
        }
        let mut alien_idx: usize = 0;
        proof {
            assert(cells@ =~= load_init().cells);
            assert(aliens@ =~= load_init().aliens);
            assert(load_upto(rows_view(template), 0) == load_init());
        }
        let mut n: usize = 0;
        while n < GRID_CELLS
            invariant
                n <= GRID_CELLS,
                valid_template(rows_view(template)),
                cells@ == load_upto(rows_view(template), n as int).cells,
                player_pos == load_upto(rows_view(template), n as int).player_pos,
                aliens@ == load_upto(rows_view(template), n as int).aliens,
                alien_idx as int == load_upto(rows_view(template), n as int).alien_idx,
            decreases GRID_CELLS - n,
        {
            let ghost tv = rows_view(template);
            let r = n / WIDTH;
            let c = n % WIDTH;
            proof {
                lemma_load_wf(tv, n as int);
                assert(r < HEIGHT);
                assert(c < WIDTH);
                assert(tv[r as int] == template@[r as int]@);
                assert(recognized(tv[r as int][c as int]));
            }
            let ch = template[r][c];
            Self::translate_icon(&mut cells, &mut player_pos, &mut aliens, &mut alien_idx, r, c, ch);
            n = n + 1;
            proof {
                let i = n - 1;
                assert(load_upto(tv, n as int) == load_step(
                    load_upto(tv, i as int),
                    i as int / (WIDTH as int),
                    i as int % (WIDTH as int),
                    tv[i as int / (WIDTH as int)][i as int % (WIDTH as int)],
                ));
            }
        }
        self.cells = cells;
        self.player = Player::new(player_pos);
        self.aliens = Aliens { aliens, active_shots: 0, total_shots: ALIEN_MAX_SHOTS, dir: Dir::E };
        let mut shots: Vec<Shot> = Vec::new();
        for i in 0..NUM_SHOTS
            invariant
                shots@.len() == i,
                forall|j: int|
                    0 <= j < i ==> shots@[j] == (Shot {
                        pos: Position { row: 0, col: 0 },
                        active: false,
                        dir: Dir::N,
                        player_fired: false,
                    }),
        {
            shots.push(Shot::new(Position { row: 0, col: 0 }));
        }
        self.shots = shots;
        self.status = Status::Normal;
        self.last_dir = None;
        self.fired_shot = false;
        proof {
            let tv = rows_view(template);
            let target = setup_view(tv, old(self)@.score, old(self)@.countdown);
            lemma_count_none_active(self@.shots, true);
            lemma_count_none_active(self@.shots, false);
            lemma_load_wf(tv, GRID_CELLS as int);
            assert(self@.shots =~= target.shots);
            assert(self@ =~= target);
        }
        true
    }

    /// A fresh game on the default board with score zero.
    pub fn new() -> (game: SpaceInvadersGame)
        ensures
            game.wf(),
            game@ == initial_view(),
    {
        let mut game = SpaceInvadersGame {
            cells: Vec::new(),
            status: Status::Normal,
            player: Player::new(Position { row: 0, col: 0 }),
            aliens: Aliens::new(),
            shots: Vec::new(),
            score: 0,
            last_dir: None,
            countdown: 0,
            fired_shot: false,
        };
        game.reset();
        game
    }

    /// Build a game from an arbitrary template, with score zero. Returns
    /// `None` exactly when the template is malformed: wrong dimensions, or
    /// a byte outside the recognized symbol set.
    pub fn from_template(template: &Vec<Vec<u8>>) -> (r: Option<SpaceInvadersGame>)
        ensures
            match r {
                Some(game) => valid_template(rows_view(template)) && game.wf() && game@
                    == setup_view(rows_view(template), 0, 0),
                None => !valid_template(rows_view(template)),
            },
    {
        let mut game = SpaceInvadersGame {
            cells: Vec::new(),
            status: Status::Normal,
            player: Player::new(Position { row: 0, col: 0 }),
            aliens: Aliens::new(),
            shots: Vec::new(),
            score: 0,
            last_dir: None,
            countdown: 0,
            fired_shot: false,
        };
        if game.set_up_game(template) {
            Some(game)
        } else {
            None
        }
    }

    /// Start a fresh round on the default board and zero the score.
    pub fn reset(&mut self)
        ensures
            final(self).wf(),
            final(self)@ == setup_view(default_template_view(), 0, old(self)@.countdown),
    {
        let t = default_template();
        let ok = self.set_up_game(&t);
        assert(ok);
        self.score = 0;
        proof {
            assert(self@ =~= setup_view(default_template_view(), 0, old(self)@.countdown));
        }
    }

    /// Start the next round on the default board, keeping the score.
    pub fn next_screen(&mut self)
        ensures
            final(self).wf(),
            final(self)@ == setup_view(
                default_template_view(),
                old(self)@.score,
                old(self)@.countdown,
            ),
    {
        let t = default_template();
        let ok = self.set_up_game(&t);
        assert(ok);
    }

    /// Whether the round is live or over.
    pub fn status(&self) -> (s: Status)
        ensures
            s == self@.status,
    {
        self.status
    }

    /// The score so far.
    pub fn score(&self) -> (s: u64)
        ensures
            s == self@.score,
    {
        self.score
    }

    /// The terrain at board position `p`.
    pub fn cell(&self, p: Position) -> (c: Cell)
        requires
            self.wf(),
            p.is_legal(),
        ensures
            c == cell_at(self@, p),
    {
        let (row, col) = p.row_col();
        self.cells[row * WIDTH + col]
    }

    /// A fresh row-major cursor over the whole board.
    pub fn cell_pos_iter(&self) -> (it: RowColIter)
        ensures
            it == (RowColIter { row: 0, col: 0 }),
    {
        RowColIter { row: 0, col: 0 }
    }

    /// True iff the player stands at `p`.
    pub fn player_at(&self, p: Position) -> (r: bool)
        ensures
            r == (p == self@.player.pos),
    {
        p == self.player.pos
    }

    /// The first living alien at `p`, if any, as its formation row and
    /// column indices and its value.
    pub fn alien_at(&self, p: Position) -> (r: Option<(usize, usize, Alien)>)
        requires
            self.wf(),
        ensures
            match living_alien_at_from(self@.aliens, p, 0) {
                Some(k) => r == Some(
                    (
                        (k / (ALIEN_COLS as int)) as usize,
                        (k % (ALIEN_COLS as int)) as usize,
                        self@.aliens[k],
                    ),
                ),
                None => r == None::<(usize, usize, Alien)>,
            },
    {
        let mut k: usize = 0;
        while k < NUM_ALIENS
            invariant
                self.wf(),
                k <= NUM_ALIENS,
                living_alien_at_from(self@.aliens, p, 0) == living_alien_at_from(
                    self@.aliens,
                    p,
                    k as int,
                ),
            decreases NUM_ALIENS - k,
        {
            let a = self.aliens.aliens[k];
            if a.alive && a.pos == p {
                return Some((k / ALIEN_COLS, k % ALIEN_COLS, a));
            }
            k = k + 1;
        }
        None
    }

    /// True iff some in-flight shot (of either owner) occupies `p`.
    pub fn shot_at(&self, p: Position) -> (r: bool)
        requires
            self.wf(),
        ensures
            r == exists|i: int|
                0 <= i < self@.shots.len() && (#[trigger] self@.shots[i]).active
                    && self@.shots[i].pos == p,
    {
        let mut i: usize = 0;
        while i < NUM_SHOTS
            invariant
                self.wf(),
                i <= NUM_SHOTS,
                forall|j: int|
                    0 <= j < i ==> !((#[trigger] self@.shots[j]).active && self@.shots[j].pos
                        == p),
            decreases NUM_SHOTS - i,
        {
            let s = self.shots[i];
            if s.active && s.pos == p {
                return true;
            }
            i = i + 1;
        }
        false
    }

    /// Buffer a lateral move request, consumed by the next update. Honored
    /// only while the round is live; any direction other than east or west
    /// is ignored. A second request before the next update overwrites the
    /// first.
    pub fn submit_direction(&mut self, d: Dir)
        ensures
            old(self).wf() ==> final(self).wf(),
            if old(self)@.status == Status::Normal && (d == Dir::E || d == Dir::W) {
                final(self)@ == (GameView { last_dir: Some(d), ..old(self)@ })
            } else {
                final(self)@ == old(self)@
            },
    {
        match self.status {
            Status::Normal => {
                if d == Dir::E || d == Dir::W {
                    self.last_dir = Some(d);
                }
            },
            Status::Over => {},
        }
    }

    /// Buffer a fire intent, consumed by the next update. Honored only
    /// while the round is live.
    pub fn submit_fire(&mut self)
        ensures
            old(self).wf() ==> final(self).wf(),
            if old(self)@.status == Status::Normal {
                final(self)@ == (GameView { fired_shot: true, ..old(self)@ })
            } else {
                final(self)@ == old(self)@
            },
    {
        match self.status {
            Status::Normal => {
                self.fired_shot = true;
            },
            Status::Over => {},
        }
    }

    /// Restart the game. Honored only once the round is over: the board is
    /// re-derived from the default template and the score zeroed.
    pub fn submit_restart(&mut self)
        ensures
            old(self).wf() ==> final(self).wf(),
            if old(self)@.status == Status::Over {
                final(self).wf() && final(self)@ == setup_view(
                    default_template_view(),
                    0,
                    old(self)@.countdown,
                )
            } else {
                final(self)@ == old(self)@
            },
    {
        match self.status {
            Status::Over => self.reset(),
            Status::Normal => {},
        }
    }

    /// The tick-rate divider: true once every `UPDATE_FREQUENCY + 1` calls,
    /// counting down in between.
    pub fn countdown_complete(&mut self) -> (complete: bool)
        ensures
            old(self).wf() ==> final(self).wf(),
            complete == (old(self)@.countdown == 0),
            complete ==> final(self)@ == (GameView { countdown: UPDATE_FREQUENCY, ..old(self)@ }),
            !complete ==> final(self)@ == (GameView {
                countdown: (old(self)@.countdown - 1) as usize,
                ..old(self)@
            }),
    {
        if self.countdown == 0 {
            self.countdown = UPDATE_FREQUENCY;
            true
        } else {
            self.countdown = self.countdown - 1;
            false
        }
    }
}


impl SpaceInvadersGame {
    /// Apply the buffered move: the player steps to the neighboring cell
    /// when it is on the board and not a barrier, and otherwise stays put.
    fn move_player(&mut self)
        requires
            old(self).wf(),
        ensures
            final(self).wf(),
            final(self)@ == move_player_v(old(self)@),
    {
        match self.last_dir {
            Some(dir) => {
                let neighbor_pos = self.player.pos.neighbor(dir);
                if neighbor_pos.is_legal() {
                    let (row, col) = neighbor_pos.row_col();
                    if self.cells[row * WIDTH + col] != Cell::Barrier {
                        self.player.pos = neighbor_pos;
                    }
                }
            },
            None => {},
        }
        proof {
            assert(self@ =~= move_player_v(old(self)@));
        }
    }

    /// The first free pool slot, if any.
    fn find_free_slot(&self) -> (r: Option<usize>)
        requires
            self.wf(),
        ensures
            match r {
                Some(j) => j < NUM_SHOTS && !self@.shots[j as int].active && first_inactive_from(
                    self@.shots,
                    0,
                ) == Some(j as int),
                None => first_inactive_from(self@.shots, 0) is None,
            },
    {
        let mut i: usize = 0;
        while i < NUM_SHOTS
            invariant
                self.wf(),
                i <= NUM_SHOTS,
                first_inactive_from(self@.shots, 0) == first_inactive_from(self@.shots, i as int),
            decreases NUM_SHOTS - i,
        {
            if !self.shots[i].active {
                return Some(i);
            }
            i = i + 1;
        }
        None
    }

    /// The slot a player shot would use: the first free slot, provided the
    /// player is under its cap.
    fn find_shot_for_player(&self) -> (r: Option<usize>)
        requires
            self.wf(),
        ensures
            match r {
                Some(j) => j < NUM_SHOTS && self@.player.active_shots < self@.player.total_shots
                    && !self@.shots[j as int].active && first_inactive_from(self@.shots, 0)
                    == Some(j as int),
                None => self@.player.active_shots >= self@.player.total_shots
                    || first_inactive_from(self@.shots, 0) is None,
            },
    {
        if self.player.can_fire_shot() {
            self.find_free_slot()
        } else {
            None
        }
    }

    /// Resolve a fire intent: under the cap, and with the start cell on the
    /// board, a new player shot heads north from one cell above the player.
    fn player_shoot(&mut self)
        requires
            old(self).wf(),
        ensures
            final(self).wf(),
            final(self)@ == player_shoot_v(old(self)@),
    {
        let fireable_shot = self.find_shot_for_player();
        match fireable_shot {
            Some(i) => {
                let pos = self.player.get_shot_position();
                if pos.is_legal() {
                    let mut shot = self.shots[i];
                    shot.fire(pos, Dir::N, true);
                    self.shots[i] = shot;
                    self.player.active_shots = self.player.active_shots + 1;
                    proof {
                        lemma_count_update(old(self)@.shots, i as int, shot, true);
                        lemma_count_update(old(self)@.shots, i as int, shot, false);
                        assert(self@ =~= player_shoot_v(old(self)@));
                    }
                }
            },
            None => {},
        }
    }

    /// Advance every in-flight shot one step of travel; a shot whose next
    /// cell is off the board leaves flight instead and is recycled, its
    /// owner's counter dropping by one.
    fn move_shots(&mut self)
        requires
            old(self).wf(),
        ensures
            final(self).wf(),
            final(self)@ == move_shots_v(old(self)@),
    {
        let ghost g0 = old(self)@;
        let mut i: usize = 0;
        while i < NUM_SHOTS
            invariant
                i <= NUM_SHOTS,
                wf_view(g0),
                self@ == (GameView {
                    shots: self@.shots,
                    player: Player { active_shots: self@.player.active_shots, ..g0.player },
                    alien_shots: self@.alien_shots,
                    ..g0
                }),
                self@.shots.len() == NUM_SHOTS,
                forall|k: int| 0 <= k < i ==> self@.shots[k] == shot_step(#[trigger] g0.shots[k]),
                forall|k: int| i <= k < NUM_SHOTS ==> self@.shots[k] == #[trigger] g0.shots[k],
                self@.player.active_shots == count_active_shots(self@.shots, true),
                self@.alien_shots == count_active_shots(self@.shots, false),
                self@.player.active_shots <= g0.player.active_shots,
                self@.alien_shots <= g0.alien_shots,
            decreases NUM_SHOTS - i,
        {
            let ghost pre = self@.shots;
            let s = self.shots[i];
            if s.active {
                proof {
                    assert(s == g0.shots[i as int]);
                    assert(s.pos.spec_is_legal());
                }
                let new_pos = s.next_pos();
                if new_pos.is_legal() {
                    self.shots[i] = Shot { pos: new_pos, ..s };
                    proof {
                        lemma_count_update(pre, i as int, Shot { pos: new_pos, ..s }, true);
                        lemma_count_update(pre, i as int, Shot { pos: new_pos, ..s }, false);
                    }
                } else {
                    self.shots[i] = Shot { active: false, ..s };
                    proof {
                        lemma_count_update(pre, i as int, Shot { active: false, ..s }, true);
                        lemma_count_update(pre, i as int, Shot { active: false, ..s }, false);
                        lemma_count_at_least_one(pre, i as int, s.player_fired);
                    }
                    if s.player_fired {
                        self.player.active_shots = self.player.active_shots - 1;
                    } else {
                        self.aliens.active_shots = self.aliens.active_shots - 1;
                    }
                }
            }
            i = i + 1;
        }
        proof {
            assert(self@.shots =~= Seq::new(g0.shots.len(), |k: int| shot_step(g0.shots[k])));
            assert forall|k: int|
                0 <= k < NUM_SHOTS && (#[trigger] self@.shots[k]).active implies self@.shots[k].pos.spec_is_legal() by {
                assert(self@.shots[k] == shot_step(g0.shots[k]));
                assert(g0.shots[k].active);
            }
            assert(self@ =~= move_shots_v(g0));
        }
    }

    /// The board-side effect of the collision, if any, of the in-flight
    /// shot in slot `shot_index`, in fixed priority order: barrier terrain
    /// absorbs the shot and erodes; otherwise a shot on the player's cell
    /// ends the round; otherwise a player-fired shot kills the first living
    /// alien on its cell and scores one point (the formation's shots never
    /// collide with aliens). Returns whether the shot collided; recycling
    /// the shot itself is the caller's task.
    fn check_shot_collision(&mut self, shot_index: usize) -> (hit: bool)
        requires
            old(self).wf(),
            shot_index < NUM_SHOTS,
            old(self)@.shots[shot_index as int].active,
        ensures
            final(self).wf(),
            hit == shot_hit(old(self)@, shot_index as int),
            final(self)@ == apply_hit(old(self)@, shot_index as int),
    {
        let shot_pos = self.shots[shot_index].pos;
        if self.cell(shot_pos) == Cell::Barrier {
            let (row, col) = shot_pos.row_col();
            self.cells[row * WIDTH + col] = Cell::Empty;
            proof {
                assert(self@ =~= apply_hit(old(self)@, shot_index as int));
            }
            true
        } else if self.player_at(shot_pos) {
            self.status = Status::Over;
            proof {
                assert(self@ =~= apply_hit(old(self)@, shot_index as int));
            }
            true
        } else if self.shots[shot_index].fired_by_player() {
            match self.alien_at(shot_pos) {
                Some((row, col, _alien)) => {
                    proof {
                        lemma_living_alien_at_bounds(self@.aliens, shot_pos, 0);
                    }
                    let k = row * ALIEN_COLS + col;
                    let a = self.aliens.aliens[k];
                    self.aliens.aliens[k] = Alien { alive: false, ..a };
                    if self.score < u64::MAX {
                        self.score = self.score + 1;
                    }
                    proof {
                        assert(self@ =~= apply_hit(old(self)@, shot_index as int));
                    }
                    true
                },
                None => false,
            }
        } else {
            false
        }
    }

    /// Resolve collisions for every pool slot, in slot order: each
    /// in-flight shot that collides applies its effect, leaves flight and
    /// is recycled, its owner's counter dropping by one.
    fn check_collisions(&mut self)
        requires
            old(self).wf(),
        ensures
            final(self).wf(),
            final(self)@ == collide_upto(old(self)@, NUM_SHOTS as int),
    {
        let ghost g0 = old(self)@;
        let mut i: usize = 0;
        while i < NUM_SHOTS
            invariant
                i <= NUM_SHOTS,
                self.wf(),
                self@ == collide_upto(g0, i as int),
            decreases NUM_SHOTS - i,
        {
            let ghost gi = self@;
            if self.shots[i].active {
                let hit = self.check_shot_collision(i);
                if hit {
                    let s = self.shots[i];
                    proof {
                        assert(s == gi.shots[i as int]);
                        lemma_count_update(self@.shots, i as int, Shot { active: false, ..s }, true);
                        lemma_count_update(self@.shots, i as int, Shot { active: false, ..s }, false);
                        lemma_count_at_least_one(gi.shots, i as int, s.player_fired);
                    }
                    self.shots[i] = Shot { active: false, ..s };
                    if s.player_fired {
                        self.player.active_shots = self.player.active_shots - 1;
                    } else {
                        self.aliens.active_shots = self.aliens.active_shots - 1;
                    }
                    proof {
                        assert(self@ =~= deactivate_shot_v(apply_hit(gi, i as int), i as int));
                        assert forall|k: int|
                            0 <= k < NUM_SHOTS && (#[trigger] self@.shots[k]).active implies self@.shots[k].pos.spec_is_legal() by {
                            if k != i {
                                assert(self@.shots[k] == gi.shots[k]);
                            }
                        }
                    }
                }
            }
            i = i + 1;
            proof {
                assert(collide_upto(g0, i as int) == resolve_shot(
                    collide_upto(g0, i - 1),
                    i - 1,
                ));
                assert(self@ =~= collide_upto(g0, i as int));
            }
        }
    }

    /// Choose the alien that fires this turn: the first living alien in the
    /// player's column, if any, else the first living alien overall (first
    /// in row-major formation order each time).
    fn find_firing_alien(&self) -> (r: Option<usize>)
        requires
            self.wf(),
        ensures
            r is Some ==> r->Some_0 < NUM_ALIENS,
            match alien_fire_choice(self@.aliens, self@.player.pos.col) {
                Some(k) => r == Some(k as usize) && 0 <= k < NUM_ALIENS,
                None => r == None::<usize>,
            },
    {
        let pcol = self.player.pos.col;
        let mut k: usize = 0;
        while k < NUM_ALIENS
            invariant
                self.wf(),
                k <= NUM_ALIENS,
                pcol == self@.player.pos.col,
                first_living_in_col_from(self@.aliens, pcol, 0) == first_living_in_col_from(
                    self@.aliens,
                    pcol,
                    k as int,
                ),
            decreases NUM_ALIENS - k,
        {
            let a = self.aliens.aliens[k];
            if a.alive && a.pos.col == pcol {
                return Some(k);
            }
            k = k + 1;
        }
        let mut m: usize = 0;
        while m < NUM_ALIENS
            invariant
                self.wf(),
                m <= NUM_ALIENS,
                pcol == self@.player.pos.col,
                first_living_in_col_from(self@.aliens, pcol, 0) is None,
                first_living_from(self@.aliens, 0) == first_living_from(self@.aliens, m as int),
            decreases NUM_ALIENS - m,
        {
            let a = self.aliens.aliens[m];
            if a.alive {
                return Some(m);
            }
            m = m + 1;
        }
        None
    }

    /// One formation turn. March: every living alien steps laterally in the
    /// shared direction; when some living alien's next lateral step would
    /// leave the board, the direction flips and the formation descends one
    /// row instead - unless that descent would reach the danger row, in
    /// which case the round ends with the formation frozen in place. Fire:
    /// while the round stays live and the formation is under its cap, the
    /// chosen alien fires south from the cell below it.
    pub fn move_aliens(&mut self)
        requires
            old(self).wf(),
        ensures
            final(self).wf(),
            final(self)@ == move_aliens_v(old(self)@),
    {
        let ghost g0 = old(self)@;
        let mut will_hit_wall = false;
        let mut k: usize = 0;
        while k < NUM_ALIENS
            invariant
                self.wf(),
                self@ == g0,
                k <= NUM_ALIENS,
                will_hit_wall == exists|j: int|
                    0 <= j < k && (#[trigger] g0.aliens[j]).alive
                        && !g0.aliens[j].pos.spec_neighbor(g0.alien_dir).spec_is_legal(),
            decreases NUM_ALIENS - k,
        {
            let a = self.aliens.aliens[k];
            if a.alive {
                let next_pos = a.pos.neighbor(self.aliens.dir);
                if !next_pos.is_legal() {
                    will_hit_wall = true;
                    proof {
                        assert(g0.aliens[k as int].alive && !g0.aliens[k as int].pos.spec_neighbor(
                            g0.alien_dir,
                        ).spec_is_legal());
                    }
                }
            }
            k = k + 1;
        }
        proof {
            assert(will_hit_wall == living_hits_wall(g0.aliens, g0.alien_dir));
        }
        if will_hit_wall {
            self.aliens.dir = self.aliens.dir.reverse();
        }
        let ghost ndir = if will_hit_wall {
            g0.alien_dir.spec_reverse()
        } else {
            g0.alien_dir
        };
        proof {
            assert(self@ =~= (GameView { alien_dir: ndir, ..g0 }));
        }
        let mut danger = false;
        if will_hit_wall {
            let mut d: usize = 0;
            while d < NUM_ALIENS
                invariant
                    self.wf(),
                    self@ == (GameView { alien_dir: ndir, ..g0 }),
                    d <= NUM_ALIENS,
                    danger == exists|j: int|
                        0 <= j < d && (#[trigger] g0.aliens[j]).alive && g0.aliens[j].pos.row + 1
                            >= DANGER_ROW,
                decreases NUM_ALIENS - d,
            {
                let a = self.aliens.aliens[d];
                if a.alive && a.pos.row + 1 >= DANGER_ROW {
                    danger = true;
                    proof {
                        assert(g0.aliens[d as int].alive && g0.aliens[d as int].pos.row + 1
                            >= DANGER_ROW);
                    }
                }
                d = d + 1;
            }
            proof {
                assert(danger == descent_reaches_danger(g0.aliens));
            }
        }
        if will_hit_wall && danger {
            self.status = Status::Over;
        } else {
            let step_dir = if will_hit_wall {
                Dir::S
            } else {
                self.aliens.dir
            };
            let ghost pre = self@;
            let mut m: usize = 0;
            while m < NUM_ALIENS
                invariant
                    m <= NUM_ALIENS,
                    wf_view(g0),
                    pre == (GameView { alien_dir: ndir, ..g0 }),
                    step_dir == (if will_hit_wall {
                        Dir::S
                    } else {
                        g0.alien_dir
                    }),
                    will_hit_wall == living_hits_wall(g0.aliens, g0.alien_dir),
                    will_hit_wall ==> !descent_reaches_danger(g0.aliens),
                    self@ == (GameView { aliens: self@.aliens, ..pre }),
                    self@.aliens.len() == NUM_ALIENS,
                    forall|j: int| 0 <= j < m ==> self@.aliens[j] == step_living(g0.aliens, step_dir)[j],
                    forall|j: int| m <= j < NUM_ALIENS ==> self@.aliens[j] == #[trigger] g0.aliens[j],
                decreases NUM_ALIENS - m,
            {
                let a = self.aliens.aliens[m];
                if a.alive {
                    proof {
                        assert(a == g0.aliens[m as int]);
                        assert(a.pos.spec_is_legal());
                    }
                    let np = a.pos.neighbor(step_dir);
                    self.aliens.aliens[m] = Alien { pos: np, ..a };
                }
                m = m + 1;
            }
            proof {
                assert(self@.aliens =~= step_living(g0.aliens, step_dir));
                assert forall|j: int|
                    0 <= j < NUM_ALIENS implies (#[trigger] self@.aliens[j]).pos.spec_is_legal() by {
                    assert(self@.aliens[j] == step_living(g0.aliens, step_dir)[j]);
                    assert(g0.aliens[j].pos.spec_is_legal());
                    if g0.aliens[j].alive {
                        if will_hit_wall {
                            assert(!(g0.aliens[j].alive && g0.aliens[j].pos.row + 1 >= DANGER_ROW));
                        } else {
                            assert(!(g0.aliens[j].alive && !g0.aliens[j].pos.spec_neighbor(
                                g0.alien_dir,
                            ).spec_is_legal()));
                        }
                    }
                }
            }
        }
        proof {
            assert(self@ =~= march_aliens_v(g0));
            assert(self.wf());
        }
        let ghost gm = self@;
        if self.status == Status::Normal && self.aliens.can_fire_shot() {
            let target = self.find_firing_alien();
            match target {
                Some(k) => {
                    proof {
                        assert(gm.aliens.len() == NUM_ALIENS);
                    }
                    let a = self.aliens.aliens[k];
                    proof {
                        assert(a == gm.aliens[k as int]);
                        assert(a.pos.spec_is_legal());
                    }
                    let origin = a.pos.neighbor(Dir::S);
                    if origin.is_legal() {
                        match self.find_free_slot() {
                            Some(j) => {
                                self.shots[j] = Shot {
                                    pos: origin,
                                    active: true,
                                    dir: Dir::S,
                                    player_fired: false,
                                };
                                self.aliens.active_shots = self.aliens.active_shots + 1;
                                proof {
                                    lemma_count_update(
                                        gm.shots,
                                        j as int,
                                        Shot {
                                            pos: origin,
                                            active: true,
                                            dir: Dir::S,
                                            player_fired: false,
                                        },
                                        true,
                                    );
                                    lemma_count_update(
                                        gm.shots,
                                        j as int,
                                        Shot {
                                            pos: origin,
                                            active: true,
                                            dir: Dir::S,
                                            player_fired: false,
                                        },
                                        false,
                                    );
                                    assert(self@ =~= fire_slot_v(
                                        gm,
                                        alien_shot_start(gm.aliens[k as int]),
                                        Dir::S,
                                        false,
                                    ));
                                }
                            },
                            None => {},
                        }
                    }
                },
                None => {},
            }
        }
        proof {
            assert(self@ =~= move_aliens_v(g0));
        }
    }

    /// One whole engine tick while the round is live: apply and clear the
    /// buffered move, resolve and clear the fire intent, march the
    /// formation, advance every shot one step, and resolve collisions.
    /// Once the round is over, an update changes nothing.
    pub fn update(&mut self)
        requires
            old(self).wf(),
        ensures
            final(self).wf(),
            final(self)@ == update_v(old(self)@),
    {
        if self.status == Status::Normal {
            self.move_player();
            self.last_dir = None;
            proof {
                assert(self@ =~= (GameView { last_dir: None, ..move_player_v(old(self)@) }));
            }
            let ghost g1 = self@;
            if self.fired_shot {
                self.fired_shot = false;
                proof {
                    assert(self@ =~= (GameView { fired_shot: false, ..g1 }));
                }
                self.player_shoot();
            }
            self.move_aliens();
            self.move_shots();
            self.check_collisions();
            proof {
                assert(self@ =~= update_v(old(self)@));
            }
        }
    }
}

/// A cursor over every board position in row-major order, for the host's
/// full-board redraw.
#[derive(Debug, Copy, Clone)]
pub struct RowColIter {
    pub row: usize,
    pub col: usize,
}

impl RowColIter {
    /// The next position in row-major order, or `None` once every position
    /// has been produced.
    pub fn next(&mut self) -> (r: Option<Position>)
        requires
            old(self).col < WIDTH,
            old(self).row <= HEIGHT,
        ensures
            final(self).col < WIDTH,
            final(self).row <= HEIGHT,
            old(self).row < HEIGHT ==> {
                &&& r == Some(Position { row: old(self).row as i16, col: old(self).col as i16 })
                &&& (old(self).col + 1 < WIDTH ==> *final(self) == (RowColIter {
                    row: old(self).row,
                    col: (old(self).col + 1) as usize,
                }))
                &&& (old(self).col + 1 == WIDTH ==> *final(self) == (RowColIter {
                    row: (old(self).row + 1) as usize,
                    col: 0,
                }))
            },
            old(self).row >= HEIGHT ==> r == None::<Position> && *final(self) == *old(self),
    {
        if self.row < HEIGHT {
            let result = Some(Position { row: self.row as i16, col: self.col as i16 });
            self.col = self.col + 1;
            if self.col == WIDTH {
                self.col = 0;
                self.row = self.row + 1;
            }
            result
        } else {
            None
        }
    }
}

} // verus!

use baremetal_game::game_core::{
    Cell, Dir, Position, SpaceInvadersGame, Status, HEIGHT, UPDATE_FREQUENCY, WIDTH,
};

fn blank_template() -> Vec<Vec<u8>> {
    let mut t = Vec::new();
    for _ in 0..HEIGHT {
        let mut row = Vec::new();
        for _ in 0..WIDTH {
            row.push(b'.');
        }
        t.push(row);
    }
    t
}

fn count_shots(g: &SpaceInvadersGame) -> usize {
    let mut n = 0;
    for r in 0..HEIGHT as i16 {
        for c in 0..WIDTH as i16 {
            if g.shot_at(Position::new(r, c)) {
                n += 1;
            }
        }
    }
    n
}

fn collect_aliens(g: &SpaceInvadersGame) -> Vec<(i16, i16)> {
    let mut v = Vec::new();
    for r in 0..HEIGHT as i16 {
        for c in 0..WIDTH as i16 {
            if g.alien_at(Position::new(r, c)).is_some() {
                v.push((r, c));
            }
        }
    }
    v
}

fn find_player(g: &SpaceInvadersGame) -> (i16, i16) {
    for r in 0..HEIGHT as i16 {
        for c in 0..WIDTH as i16 {
            if g.player_at(Position::new(r, c)) {
                return (r, c);
            }
        }
    }
    panic!("player not on the board");
}

#[test]
fn fresh_game_matches_the_default_template() {
    let g = SpaceInvadersGame::new();
    assert_eq!(g.status(), Status::Normal);
    assert_eq!(g.score(), 0);
    assert_eq!(find_player(&g), (21, 36));
    assert_eq!(g.cell(Position::new(0, 0)), Cell::Barrier);
    assert_eq!(g.cell(Position::new(0, 79)), Cell::Barrier);
    assert_eq!(g.cell(Position::new(10, 40)), Cell::Empty);
    assert_eq!(g.cell(Position::new(17, 36)), Cell::Barrier);
    assert_eq!(g.cell(Position::new(19, 36)), Cell::Barrier);
    assert_eq!(g.cell(Position::new(17, 3)), Cell::Empty);
    assert_eq!(collect_aliens(&g).len(), 120);
    assert!(g.alien_at(Position::new(1, 3)).is_some());
    assert_eq!(g.alien_at(Position::new(1, 3)).unwrap().0, 0);
    assert_eq!(g.alien_at(Position::new(1, 3)).unwrap().1, 0);
    assert!(g.alien_at(Position::new(3, 5)).is_some());
    assert!(g.alien_at(Position::new(1, 4)).is_none());
    assert_eq!(count_shots(&g), 0);
}

#[test]
fn loader_rejects_wrong_dimensions() {
    let mut t = blank_template();
    t.pop();
    assert!(SpaceInvadersGame::from_template(&t).is_none());
    let mut t2 = blank_template();
    t2[5].pop();
    assert!(SpaceInvadersGame::from_template(&t2).is_none());
}

#[test]
fn loader_rejects_an_unrecognized_symbol() {
    let mut t = blank_template();
    t[0][0] = b'x';
    assert!(SpaceInvadersGame::from_template(&t).is_none());
    assert!(SpaceInvadersGame::from_template(&blank_template()).is_some());
}

#[test]
fn loader_is_deterministic() {
    let mut t = blank_template();
    t[21][10] = b'^';
    t[4][24] = b'@';
    t[10][10] = b'#';
    let a = SpaceInvadersGame::from_template(&t).unwrap();
    let b = SpaceInvadersGame::from_template(&t).unwrap();
    assert_eq!(a.score(), b.score());
    assert_eq!(a.status(), b.status());
    assert_eq!(find_player(&a), find_player(&b));
    assert_eq!(collect_aliens(&a), collect_aliens(&b));
    for r in 0..HEIGHT as i16 {
        for c in 0..WIDTH as i16 {
            assert_eq!(a.cell(Position::new(r, c)), b.cell(Position::new(r, c)));
        }
    }
}

#[test]
fn player_moves_laterally_on_a_clear_cell() {
    let mut g = SpaceInvadersGame::new();
    g.submit_direction(Dir::E);
    g.update();
    assert_eq!(find_player(&g), (21, 37));
    g.submit_direction(Dir::W);
    g.update();
    assert_eq!(find_player(&g), (21, 36));
}

#[test]
fn barrier_blocks_the_player_even_on_repeat() {
    let mut t = blank_template();
    t[21][10] = b'^';
    t[21][11] = b'#';
    let mut g = SpaceInvadersGame::from_template(&t).unwrap();
    for _ in 0..3 {
        g.submit_direction(Dir::E);
        g.update();
        assert_eq!(find_player(&g), (21, 10));
    }
    g.submit_direction(Dir::W);
    g.update();
    assert_eq!(find_player(&g), (21, 9));
}

#[test]
fn vertical_move_requests_are_ignored() {
    let mut g = SpaceInvadersGame::new();
    g.submit_direction(Dir::N);
    g.submit_direction(Dir::S);
    g.update();
    assert_eq!(find_player(&g), (21, 36));
}

#[test]
fn one_fire_intent_puts_one_shot_in_flight() {
    let mut t = blank_template();
    t[21][10] = b'^';
    let mut g = SpaceInvadersGame::from_template(&t).unwrap();
    g.submit_fire();
    g.update();
    // the shot spawns one cell ahead of the player and advances once in
    // the same tick, so it ends the firing tick two cells ahead
    assert_eq!(count_shots(&g), 1);
    assert!(g.shot_at(Position::new(19, 10)));
}

#[test]
fn firing_at_the_cap_is_dropped() {
    let mut t = blank_template();
    t[21][10] = b'^';
    let mut g = SpaceInvadersGame::from_template(&t).unwrap();
    for tick in 1..=4 {
        g.submit_fire();
        g.update();
        let expected = if tick < 3 { tick } else { 3 };
        assert_eq!(count_shots(&g), expected);
    }
}

#[test]
fn an_exiting_shot_frees_its_slot_exactly_once() {
    let mut t = blank_template();
    t[21][10] = b'^';
    let mut g = SpaceInvadersGame::from_template(&t).unwrap();
    for _ in 0..3 {
        g.submit_fire();
        g.update();
    }
    assert_eq!(count_shots(&g), 3);
    // the oldest shot, fired on the first tick, sits at row 17 now; each
    // shot exits the board 21 ticks after it was fired
    for _ in 4..=20 {
        g.update();
    }
    assert_eq!(count_shots(&g), 3);
    g.update();
    assert_eq!(count_shots(&g), 2);
    g.update();
    assert_eq!(count_shots(&g), 1);
    g.update();
    assert_eq!(count_shots(&g), 0);
    // all three slots are free again
    for _ in 0..3 {
        g.submit_fire();
        g.update();
    }
    assert_eq!(count_shots(&g), 3);
}

#[test]
fn a_player_shot_kills_a_living_alien_and_scores_once() {
    // two aliens: one at the east wall forces an immediate flip, so the
    // formation descends once and then marches west, carrying the other
    // alien into the path of the player's shot on the fifteenth tick
    let mut t = blank_template();
    t[4][24] = b'@';
    t[4][79] = b'@';
    t[21][10] = b'^';
    let mut g = SpaceInvadersGame::from_template(&t).unwrap();
    g.submit_fire();
    for _ in 1..=14 {
        g.update();
    }
    assert_eq!(g.score(), 0);
    assert!(g.alien_at(Position::new(5, 11)).is_some());
    g.update();
    assert_eq!(g.score(), 1);
    assert!(g.alien_at(Position::new(5, 10)).is_none());
    assert!(!g.shot_at(Position::new(5, 10)));
    // the other alien marches on, alive
    assert!(g.alien_at(Position::new(5, 65)).is_some());
    assert_eq!(g.status(), Status::Normal);
    // the dead alien is inert: nothing at its old cells later either
    g.update();
    assert_eq!(g.score(), 1);
}

#[test]
fn formation_flips_at_the_wall_and_descends_one_row() {
    let mut g = SpaceInvadersGame::new();
    for _ in 0..5 {
        g.update();
    }
    // rightmost alien now at the east edge; next step would leave the board
    let before = collect_aliens(&g);
    assert!(before.contains(&(3, 79)));
    g.update();
    let after = collect_aliens(&g);
    assert_eq!(after.len(), before.len());
    let descended: Vec<(i16, i16)> = before.iter().map(|&(r, c)| (r + 1, c)).collect();
    let mut sorted_after = after.clone();
    sorted_after.sort();
    let mut sorted_descended = descended.clone();
    sorted_descended.sort();
    assert_eq!(sorted_after, sorted_descended);
    // the direction flipped: the next tick marches west
    g.update();
    let westward = collect_aliens(&g);
    let mut expected: Vec<(i16, i16)> = after.iter().map(|&(r, c)| (r, c - 1)).collect();
    expected.sort();
    let mut sorted_westward = westward.clone();
    sorted_westward.sort();
    assert_eq!(sorted_westward, expected);
}

#[test]
fn a_barrier_absorbs_a_shot_and_erodes() {
    let mut g = SpaceInvadersGame::new();
    assert_eq!(g.cell(Position::new(19, 36)), Cell::Barrier);
    g.submit_fire();
    g.update();
    // the shot spawned at row 20 and advanced onto the barrier at row 19
    assert_eq!(g.cell(Position::new(19, 36)), Cell::Empty);
    assert!(!g.shot_at(Position::new(19, 36)));
    assert!(!g.shot_at(Position::new(20, 36)));
    assert_eq!(g.score(), 0);
}

#[test]
fn reaching_the_danger_row_ends_the_game_with_the_formation_frozen() {
    let mut t = blank_template();
    t[16][79] = b'@';
    t[21][10] = b'^';
    let mut g = SpaceInvadersGame::from_template(&t).unwrap();
    g.update();
    assert_eq!(g.status(), Status::Over);
    assert!(g.alien_at(Position::new(16, 79)).is_some());
}

#[test]
fn over_is_sticky_until_restart() {
    let mut t = blank_template();
    t[16][79] = b'@';
    t[21][10] = b'^';
    let mut g = SpaceInvadersGame::from_template(&t).unwrap();
    g.update();
    assert_eq!(g.status(), Status::Over);
    let score_then = g.score();
    g.submit_fire();
    g.submit_direction(Dir::W);
    for _ in 0..3 {
        g.update();
    }
    assert_eq!(g.status(), Status::Over);
    assert_eq!(g.score(), score_then);
    assert!(g.alien_at(Position::new(16, 79)).is_some());
    assert_eq!(find_player(&g), (21, 10));
    assert_eq!(count_shots(&g), 0);
    // restart re-derives the default board and zeroes the score
    g.submit_restart();
    assert_eq!(g.status(), Status::Normal);
    assert_eq!(g.score(), 0);
    assert_eq!(find_player(&g), (21, 36));
    assert_eq!(collect_aliens(&g).len(), 120);
}

#[test]
fn restart_is_ignored_while_the_round_is_live() {
    let mut g = SpaceInvadersGame::new();
    g.submit_direction(Dir::E);
    g.update();
    g.submit_restart();
    assert_eq!(find_player(&g), (21, 37));
}

#[test]
fn next_screen_keeps_the_score() {
    let mut t = blank_template();
    t[4][24] = b'@';
    t[4][79] = b'@';
    t[21][10] = b'^';
    let mut g = SpaceInvadersGame::from_template(&t).unwrap();
    g.submit_fire();
    for _ in 0..15 {
        g.update();
    }
    assert_eq!(g.score(), 1);
    g.next_screen();
    assert_eq!(g.score(), 1);
    assert_eq!(g.status(), Status::Normal);
    assert_eq!(count_shots(&g), 0);
    g.reset();
    assert_eq!(g.score(), 0);
}

#[test]
fn the_formation_fires_back_one_shot_at_a_time() {
    // a single alien away from the player's column fires from the cell
    // below itself, heading south
    let mut t = blank_template();
    t[4][24] = b'@';
    t[21][10] = b'^';
    let mut g = SpaceInvadersGame::from_template(&t).unwrap();
    g.update();
    // the alien marched east to (4, 25) and fired from (5, 25); the shot
    // advanced south once in the same tick
    assert_eq!(count_shots(&g), 1);
    assert!(g.shot_at(Position::new(6, 25)));
    // the cap of one formation shot holds while it is in flight
    g.update();
    assert_eq!(count_shots(&g), 1);
    assert!(g.shot_at(Position::new(7, 25)));
}

#[test]
fn an_enemy_shot_reaching_the_player_ends_the_game() {
    let mut t = blank_template();
    t[19][9] = b'@';
    t[21][10] = b'^';
    let mut g = SpaceInvadersGame::from_template(&t).unwrap();
    // tick 1: the alien marches east to (19, 10) - the player's column -
    // and fires from (20, 10); the shot advances onto the player's cell
    g.update();
    assert_eq!(g.status(), Status::Over);
}

#[test]
fn tick_is_gated_by_the_countdown() {
    let mut g = SpaceInvadersGame::new();
    g.submit_direction(Dir::E);
    assert!(baremetal_game::tick(&mut g));
    assert_eq!(find_player(&g), (21, 37));
    for _ in 0..UPDATE_FREQUENCY {
        g.submit_direction(Dir::E);
        assert!(!baremetal_game::tick(&mut g));
        assert_eq!(find_player(&g), (21, 37));
    }
    assert!(baremetal_game::tick(&mut g));
    assert_eq!(find_player(&g), (21, 38));
}

#[test]
fn cell_pos_iter_sweeps_the_whole_board_once() {
    let g = SpaceInvadersGame::new();
    let mut it = g.cell_pos_iter();
    let mut n = 0;
    let mut first = None;
    let mut last = None;
    while let Some(p) = it.next() {
        if first.is_none() {
            first = Some(p.row_col());
        }
        last = Some(p.row_col());
        n += 1;
    }
    assert_eq!(n, WIDTH * HEIGHT);
    assert_eq!(first, Some((0, 0)));
    assert_eq!(last, Some((HEIGHT - 1, WIDTH - 1)));
    assert!(it.next().is_none());
}

#[test]
fn extra_alien_markers_beyond_the_formation_are_ignored() {
    let mut t = blank_template();
    for r in 1..4 {
        for c in 0..WIDTH {
            t[r][c] = b'@';
        }
    }
    t[21][10] = b'^';
    let g = SpaceInvadersGame::from_template(&t).unwrap();
    // 240 markers, but the formation holds 120 slots; the first 120 fill it
    assert_eq!(collect_aliens(&g).len(), 120);
    assert!(g.alien_at(Position::new(1, 0)).is_some());
    assert!(g.alien_at(Position::new(2, 39)).is_some());
    assert!(g.alien_at(Position::new(2, 40)).is_none());
}

#[test]
fn the_last_player_marker_wins() {
    let mut t = blank_template();
    t[21][10] = b'^';
    t[21][30] = b'^';
    let g = SpaceInvadersGame::from_template(&t).unwrap();
    assert_eq!(find_player(&g), (21, 30));
}

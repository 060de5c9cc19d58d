use baremetal_game::game_core::{Alien, Dir, Player, Position, Shot, HEIGHT, WIDTH};

#[test]
fn dir_reverse_maps_each_direction() {
    assert_eq!(Dir::N.reverse(), Dir::S);
    assert_eq!(Dir::S.reverse(), Dir::N);
    assert_eq!(Dir::E.reverse(), Dir::W);
    assert_eq!(Dir::W.reverse(), Dir::E);
}

#[test]
fn dir_left_maps_each_direction() {
    assert_eq!(Dir::N.left(), Dir::W);
    assert_eq!(Dir::S.left(), Dir::E);
    assert_eq!(Dir::E.left(), Dir::N);
    assert_eq!(Dir::W.left(), Dir::S);
}

#[test]
fn dir_right_maps_each_direction() {
    assert_eq!(Dir::N.right(), Dir::E);
    assert_eq!(Dir::S.right(), Dir::W);
    assert_eq!(Dir::E.right(), Dir::S);
    assert_eq!(Dir::W.right(), Dir::N);
}

#[test]
fn position_legality_at_the_edges() {
    assert!(Position::new(0, 0).is_legal());
    assert!(Position::new(HEIGHT as i16 - 1, WIDTH as i16 - 1).is_legal());
    assert!(!Position::new(-1, 0).is_legal());
    assert!(!Position::new(0, -1).is_legal());
    assert!(!Position::new(HEIGHT as i16, 0).is_legal());
    assert!(!Position::new(0, WIDTH as i16).is_legal());
}

#[test]
fn neighbor_steps_one_cell() {
    let p = Position::new(10, 20);
    assert_eq!(p.neighbor(Dir::N).row_col(), (9, 20));
    assert_eq!(p.neighbor(Dir::S).row_col(), (11, 20));
    assert_eq!(p.neighbor(Dir::E).row_col(), (10, 21));
    assert_eq!(p.neighbor(Dir::W).row_col(), (10, 19));
}

#[test]
fn neighbor_then_reverse_returns_home() {
    let p = Position::new(5, 7);
    for d in [Dir::N, Dir::S, Dir::E, Dir::W] {
        assert_eq!(p.neighbor(d).neighbor(d.reverse()), p);
    }
}

#[test]
fn row_col_converts_to_indices() {
    assert_eq!(Position::new(3, 4).row_col(), (3, 4));
    assert_eq!(Position::new(0, 0).row_col(), (0, 0));
}

#[test]
fn icons_are_fixed() {
    assert_eq!(Shot::icon(), '|');
    assert_eq!(Player::icon(), '^');
    assert_eq!(Alien::icon(), '@');
}

#[test]
fn shot_lifecycle() {
    let mut s = Shot::new(Position::new(0, 0));
    assert!(!s.active);
    assert!(!s.fired_by_player());
    s.fire(Position::new(10, 10), Dir::N, true);
    assert!(s.active);
    assert!(s.fired_by_player());
    assert_eq!(s.next_pos(), Position::new(9, 10));
    s.deactivate();
    assert!(!s.active);
    assert!(s.fired_by_player());
}

#[test]
fn player_fires_one_cell_north_until_its_cap() {
    let p = Player::new(Position::new(21, 36));
    assert!(p.can_fire_shot());
    assert_eq!(p.get_shot_position(), Position::new(20, 36));
}

#[test]
fn alien_is_above_player_when_columns_match() {
    let a = Alien::new(Position::new(4, 36));
    assert!(a.directly_above_player(Player::new(Position::new(21, 36))));
    assert!(!a.directly_above_player(Player::new(Position::new(21, 35))));
}

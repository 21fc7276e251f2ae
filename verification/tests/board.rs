use tic_tac_toe::{Board, Line, Player, Pos};

#[test]
fn player_swap_flips() {
    let mut p = Player::X;
    p.swap();
    assert_eq!(p, Player::O);
    p.swap();
    assert_eq!(p, Player::X);
}

#[test]
fn player_texts() {
    assert_eq!(Player::X.image(), "Cross");
    assert_eq!(Player::O.image(), "Nought");
    assert_eq!(Player::X.name(), "X");
    assert_eq!(Player::O.name(), "O");
}

#[test]
fn pos_is_compared_by_value() {
    assert_eq!(Pos::new(1, 2), Pos(1, 2));
    assert_eq!(Pos::new(1, 2), Pos::new(1, 2));
    assert_ne!(Pos::new(1, 2), Pos::new(2, 1));
    assert_ne!(Pos::new(0, 0), Pos::new(0, 1));
    let p = Pos::new(-7, 9);
    assert_eq!(p.0, -7);
    assert_eq!(p.1, 9);
}

#[test]
fn empty_board_has_no_occupant() {
    let board = Board::new();
    assert_eq!(board.get(&Pos::new(0, 0)), None);
    assert_eq!(board.get(&Pos::new(2, 2)), None);
    assert!(board.any_more_moves());
}

#[test]
fn set_then_get() {
    let mut board = Board::new();
    board.set(Pos::new(1, 2), Player::O);
    assert_eq!(board.get(&Pos::new(1, 2)), Some(&Player::O));
    assert_eq!(board.get(&Pos::new(2, 1)), None);
    board.set(Pos::new(1, 2), Player::X);
    assert_eq!(board.get(&Pos::new(1, 2)), Some(&Player::X));
}

#[test]
fn overwriting_does_not_count_twice() {
    let mut board = Board::new();
    for _ in 0..20 {
        board.set(Pos::new(0, 0), Player::X);
    }
    assert!(board.any_more_moves());
}

#[test]
fn nine_cells_fill_the_board() {
    let mut board = Board::new();
    let mut n = 0;
    for x in 0..3 {
        for y in 0..3 {
            assert!(board.any_more_moves());
            board.set(Pos::new(x, y), Player::X);
            n += 1;
        }
    }
    assert_eq!(n, 9);
    assert!(!board.any_more_moves());
    board.set(Pos::new(5, 5), Player::O);
    assert!(!board.any_more_moves());
}

#[test]
fn far_cells_are_distinct_cells() {
    let corners = [
        Pos::new(i32::MIN, i32::MIN),
        Pos::new(i32::MIN, i32::MAX),
        Pos::new(i32::MAX, i32::MIN),
        Pos::new(i32::MAX, i32::MAX),
        Pos::new(0, -1),
        Pos::new(-1, 0),
        Pos::new(-1, -1),
        Pos::new(0, 0),
    ];
    let mut board = Board::new();
    for (n, p) in corners.iter().enumerate() {
        for q in corners.iter().skip(n) {
            assert_eq!(board.get(q), None);
        }
        board.set(*p, if n % 2 == 0 { Player::X } else { Player::O });
    }
    for (n, p) in corners.iter().enumerate() {
        let expected = if n % 2 == 0 { Player::X } else { Player::O };
        assert_eq!(board.get(p), Some(&expected));
    }
    assert!(board.any_more_moves());
    board.set(Pos::new(1, 0), Player::X);
    assert!(!board.any_more_moves());
}

#[test]
fn get_line_reads_in_argument_order() {
    let mut board = Board::new();
    board.set(Pos::new(0, 0), Player::X);
    board.set(Pos::new(2, 0), Player::O);
    let row = board.get_line(&[Pos::new(0, 0), Pos::new(1, 0), Pos::new(2, 0)]);
    assert_eq!(row.0, vec![Some(Player::X), None, Some(Player::O)]);
    let back = board.get_line(&[Pos::new(2, 0), Pos::new(1, 0), Pos::new(0, 0)]);
    assert_eq!(back.0, vec![Some(Player::O), None, Some(Player::X)]);
    let same = board.get_line(&[Pos::new(0, 0), Pos::new(0, 0), Pos::new(0, 0)]);
    assert_eq!(same.0, vec![Some(Player::X), Some(Player::X), Some(Player::X)]);
    assert_eq!(same.get_winner(), Some(Player::X));
}

#[test]
fn line_winner_needs_three_of_a_kind() {
    let x = Some(Player::X);
    let o = Some(Player::O);
    assert_eq!(Line(vec![x, x, x]).get_winner(), Some(Player::X));
    assert_eq!(Line(vec![o, o, o]).get_winner(), Some(Player::O));
    assert_eq!(Line(vec![None, None, None]).get_winner(), None);
    assert_eq!(Line(vec![x, x, o]).get_winner(), None);
    assert_eq!(Line(vec![x, o, x]).get_winner(), None);
    assert_eq!(Line(vec![o, x, x]).get_winner(), None);
    assert_eq!(Line(vec![x, x, None]).get_winner(), None);
    assert_eq!(Line(vec![None, o, o]).get_winner(), None);
    assert_eq!(Line(vec![o, None, o]).get_winner(), None);
}

#[test]
fn line_of_another_length_has_no_winner() {
    let x = Some(Player::X);
    assert_eq!(Line(vec![]).get_winner(), None);
    assert_eq!(Line(vec![x]).get_winner(), None);
    assert_eq!(Line(vec![x, x]).get_winner(), None);
    assert_eq!(Line(vec![x, x, x, x]).get_winner(), None);
}

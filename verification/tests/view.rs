use tic_tac_toe::binding::{msg, one_way};
use tic_tac_toe::grid::grid_positions;
use tic_tac_toe::{view, Model, Msg, Pos, ViewBinding};

#[test]
fn grid_has_nine_cells_row_by_row() {
    let cells = grid_positions();
    assert_eq!(
        cells,
        vec![
            Pos::new(0, 0),
            Pos::new(1, 0),
            Pos::new(2, 0),
            Pos::new(0, 1),
            Pos::new(1, 1),
            Pos::new(2, 1),
            Pos::new(0, 2),
            Pos::new(1, 2),
            Pos::new(2, 2),
        ]
    );
}

#[test]
fn view_declares_three_bindings_a_cell_and_two_more() {
    let bindings = view();
    assert_eq!(bindings.len(), 29);
    assert!(bindings.iter().all(|b| *b == ViewBinding));
}

#[test]
fn bindings_carry_nothing() {
    assert_eq!(msg("Restart", Msg::Restart), ViewBinding);
    assert_eq!(msg("Play", Msg::Play(Pos::new(1, 1))), ViewBinding);
    assert_eq!(one_way("TurnMessage", |m: Model| m.get_message()), ViewBinding);
}

#[test]
fn one_way_does_not_call_the_getter() {
    let mut called = false;
    let binding = one_way("Probe", |_m: Model| called = true);
    assert_eq!(binding, ViewBinding);
    assert!(!called);
}

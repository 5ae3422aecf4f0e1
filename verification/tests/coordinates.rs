use bight_grid::coords::{
    cell_pos, cursor_position, cursor_position_visual, move_cells, move_cells_visual, move_down,
    move_down_visual, move_left, move_left_visual, move_right, move_right_visual, move_up,
    move_up_visual, normalize_cursor_position, CellPos,
};

#[test]
fn it_works() {
    let result = bight_grid::add(2, 2);
    assert_eq!(result, 4);
}

#[test]
fn cell_pos_example() {
    // With a cell unit width of 9, the cursor at line 3, column 20 sits
    // in cell (2, 2): 20 / 9 = 2 and 3 - 1 = 2.
    let p = cell_pos(20, 3);
    assert_eq!(p, CellPos { x: 2, y: 2 });
}

#[test]
fn cell_pos_first_cell() {
    assert_eq!(cell_pos(0, 1), CellPos { x: 0, y: 0 });
    assert_eq!(cell_pos(8, 1), CellPos { x: 0, y: 0 });
    assert_eq!(cell_pos(9, 1), CellPos { x: 1, y: 0 });
}

#[test]
fn round_trip_lands_on_normalized_position() {
    // from_cell(to_cell(col, line)) equals normalize(line, col).
    for (line, col) in [(1usize, 0usize), (3, 20), (5, 13), (2, 9), (7, 8)] {
        let p = cell_pos(col, line);
        assert_eq!(cursor_position(p), normalize_cursor_position(line, col));
    }
}

#[test]
fn normalize_is_idempotent() {
    let once = normalize_cursor_position(3, 20);
    let twice = normalize_cursor_position(once.0, once.1);
    assert_eq!(once, (3, 18));
    assert_eq!(twice, once);
}

#[test]
fn visual_cursor_rests_at_cell_end() {
    assert_eq!(cursor_position_visual(CellPos { x: 2, y: 2 }), (3, 26));
    assert_eq!(cursor_position_visual(CellPos { x: 0, y: 0 }), (1, 8));
}

#[test]
fn move_cells_clamps_at_origin() {
    assert_eq!(move_cells(CellPos { x: 0, y: 0 }, -3, -1), CellPos { x: 0, y: 0 });
    assert_eq!(move_cells(CellPos { x: 2, y: 1 }, -1, 2), CellPos { x: 1, y: 3 });
}

#[test]
fn single_step_moves() {
    let p = CellPos { x: 1, y: 1 };
    assert_eq!(move_left(p), CellPos { x: 0, y: 1 });
    assert_eq!(move_right(p), CellPos { x: 2, y: 1 });
    assert_eq!(move_up(p), CellPos { x: 1, y: 0 });
    assert_eq!(move_down(p), CellPos { x: 1, y: 2 });
    assert_eq!(move_left(CellPos { x: 0, y: 0 }), CellPos { x: 0, y: 0 });
    assert_eq!(move_up(CellPos { x: 0, y: 0 }), CellPos { x: 0, y: 0 });
}

#[test]
fn visual_moves_land_at_cell_end() {
    // One step right from the origin lands at the end of cell 1: column
    // 9 + 8 = 17 on line 1.
    assert_eq!(move_cells_visual(CellPos { x: 0, y: 0 }, 1, 0), (1, 17));
    let p = CellPos { x: 1, y: 1 };
    assert_eq!(move_left_visual(p), (2, 8));
    assert_eq!(move_right_visual(p), (2, 26));
    assert_eq!(move_up_visual(p), (1, 17));
    assert_eq!(move_down_visual(p), (3, 17));
}

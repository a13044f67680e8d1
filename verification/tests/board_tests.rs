use battleship_twist::GRID_SIZE;
use battleship_twist::board::{Board, Cells};

#[test]
fn new_board_is_empty() {
    let b = Board::new();
    assert_eq!(b.cells.len(), GRID_SIZE);
    for row in &b.cells {
        assert_eq!(row.len(), GRID_SIZE);
        for c in row {
            assert_eq!(*c, Cells::Empty);
        }
    }
}

#[test]
fn change_cell_writes_value() {
    let mut b = Board::new();
    b.change_cell(2, 3, Cells::Occupied);
    assert_eq!(b.cells[2][3], Cells::Occupied);
    assert_eq!(b.cells[3][2], Cells::Empty);
}

#[test]
fn hit_cell_is_terminal() {
    let mut b = Board::new();
    b.change_cell(4, 4, Cells::Occupied);
    b.change_cell(4, 4, Cells::Hit);
    assert_eq!(b.cells[4][4], Cells::Hit);
    b.change_cell(4, 4, Cells::Miss);
    assert_eq!(b.cells[4][4], Cells::Hit);
    b.change_cell(4, 4, Cells::Empty);
    assert_eq!(b.cells[4][4], Cells::Hit);
    b.change_cell(4, 4, Cells::Occupied);
    assert_eq!(b.cells[4][4], Cells::Hit);
    b.change_cell(4, 4, Cells::Reinforced);
    assert_eq!(b.cells[4][4], Cells::Hit);
}

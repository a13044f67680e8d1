use battleship_twist::PATROL_FRAMES;
use battleship_twist::board::{Board, Cells};
use battleship_twist::deck::ActionType;
use battleship_twist::player::BasePlayer;
use battleship_twist::ship::{Orientation, Ship, ShipType};
use battleship_twist::twist::TwistPlayer;

fn empty_base() -> BasePlayer {
    BasePlayer {
        board: Board::new(),
        guess_board: Board::new(),
        ships: Vec::new(),
        ship_count: 5,
    }
}

fn put_ship(p: &mut BasePlayer, cells: &[(usize, usize)], t: ShipType, o: Orientation) {
    for &(x, y) in cells {
        p.board.change_cell(x, y, Cells::Occupied);
    }
    p.ships.push(Ship { ship_type: t, positions: cells.to_vec(), orientation: o });
}

fn twist_of(base: BasePlayer) -> TwistPlayer {
    let mut p = TwistPlayer::new(empty_base());
    p.base = base;
    p
}

#[test]
fn start_patrol_selects_undamaged_ship() {
    let mut base = empty_base();
    put_ship(&mut base, &[(2, 2), (2, 3)], ShipType::Destroyer, Orientation::Horizontal);
    let mut p = twist_of(base);
    let hand_before = p.hand.len();
    assert!(p.start_patrol(2, 2));
    assert!(p.patrol_mode);
    assert_eq!(p.patrol_ship, Some(0));
    assert_eq!(p.patrol_frames, PATROL_FRAMES);
    assert_eq!(p.hand.len(), hand_before);
}

#[test]
fn start_patrol_on_hit_ship_fails_and_returns_card() {
    let mut base = empty_base();
    put_ship(&mut base, &[(2, 2), (2, 3)], ShipType::Destroyer, Orientation::Horizontal);
    base.board.change_cell(2, 3, Cells::Hit);
    let mut p = twist_of(base);
    let hand_before = p.hand.len();
    assert!(!p.start_patrol(2, 2));
    assert!(!p.patrol_mode);
    assert_eq!(p.hand.len(), hand_before + 1);
    assert_eq!(*p.hand.last().unwrap(), ActionType::Patrol);
}

#[test]
fn start_patrol_on_empty_cell_fails_and_returns_card() {
    let mut p = twist_of(empty_base());
    let hand_before = p.hand.len();
    assert!(!p.start_patrol(9, 9));
    assert!(!p.patrol_mode);
    assert_eq!(p.hand.len(), hand_before + 1);
    assert_eq!(*p.hand.last().unwrap(), ActionType::Patrol);
}

#[test]
fn patrol_move_shifts_ship_and_board() {
    let mut base = empty_base();
    put_ship(&mut base, &[(5, 5), (5, 6)], ShipType::Destroyer, Orientation::Horizontal);
    let mut p = twist_of(base);
    assert!(p.start_patrol(5, 5));
    assert!(p.try_patrol_move(1, 0));
    assert_eq!(p.base.ships[0].positions, vec![(6, 5), (6, 6)]);
    assert_eq!(p.base.board.cells[5][5], Cells::Empty);
    assert_eq!(p.base.board.cells[5][6], Cells::Empty);
    assert_eq!(p.base.board.cells[6][5], Cells::Occupied);
    assert_eq!(p.base.board.cells[6][6], Cells::Occupied);
    assert!(!p.patrol_mode, "a completed move ends the patrol");
    assert_eq!(p.patrol_ship, None);
}

#[test]
fn patrol_move_preserves_reinforced_cells() {
    let mut base = empty_base();
    put_ship(&mut base, &[(4, 4), (4, 5), (4, 6)], ShipType::Cruiser, Orientation::Horizontal);
    base.board.change_cell(4, 5, Cells::Reinforced);
    let mut p = twist_of(base);
    assert!(p.start_patrol(4, 4));
    assert!(p.try_patrol_move(0, 1));
    assert_eq!(p.base.ships[0].positions, vec![(4, 5), (4, 6), (4, 7)]);
    assert_eq!(p.base.board.cells[4][4], Cells::Empty);
    assert_eq!(p.base.board.cells[4][5], Cells::Occupied);
    assert_eq!(p.base.board.cells[4][6], Cells::Reinforced, "protection moves with the cell");
    assert_eq!(p.base.board.cells[4][7], Cells::Occupied);
}

#[test]
fn patrol_move_out_of_bounds_fails() {
    let mut base = empty_base();
    put_ship(&mut base, &[(0, 0), (0, 1)], ShipType::Destroyer, Orientation::Horizontal);
    let mut p = twist_of(base);
    assert!(p.start_patrol(0, 0));
    assert!(!p.try_patrol_move(-1, 0));
    assert_eq!(p.base.ships[0].positions, vec![(0, 0), (0, 1)]);
    assert_eq!(p.base.board.cells[0][0], Cells::Occupied);
    assert!(p.patrol_mode, "a blocked move leaves the patrol open");
}

#[test]
fn patrol_move_into_another_ship_fails() {
    let mut base = empty_base();
    put_ship(&mut base, &[(3, 3), (3, 4)], ShipType::Destroyer, Orientation::Horizontal);
    put_ship(&mut base, &[(4, 3), (4, 4)], ShipType::Destroyer, Orientation::Horizontal);
    let mut p = twist_of(base);
    assert!(p.start_patrol(3, 3));
    assert!(!p.try_patrol_move(1, 0));
    assert_eq!(p.base.ships[0].positions, vec![(3, 3), (3, 4)]);
    assert_eq!(p.base.board.cells[3][3], Cells::Occupied);
    assert_eq!(p.base.board.cells[4][3], Cells::Occupied);
}

#[test]
fn patrol_move_without_patrol_fails() {
    let mut p = twist_of(empty_base());
    assert!(!p.try_patrol_move(0, 1));
}

#[test]
fn patrol_times_out_and_returns_card() {
    let mut base = empty_base();
    put_ship(&mut base, &[(7, 2), (8, 2)], ShipType::Destroyer, Orientation::Verticle);
    let mut p = twist_of(base);
    assert!(p.start_patrol(7, 2));
    let hand_before = p.hand.len();
    for _ in 0..PATROL_FRAMES {
        p.update_patrol();
    }
    assert!(!p.patrol_mode, "the countdown cancels the patrol");
    assert_eq!(p.patrol_ship, None);
    assert_eq!(p.patrol_frames, 0);
    assert_eq!(p.hand.len(), hand_before + 1);
    assert_eq!(*p.hand.last().unwrap(), ActionType::Patrol);
    assert_eq!(p.base.board.cells[7][2], Cells::Occupied, "the ship has not moved");
}

#[test]
fn cancel_patrol_with_return_flag() {
    let mut base = empty_base();
    put_ship(&mut base, &[(1, 1), (1, 2)], ShipType::Destroyer, Orientation::Horizontal);
    let mut p = twist_of(base);
    assert!(p.start_patrol(1, 1));
    let hand_before = p.hand.len();
    p.cancel_patrol(true);
    assert!(!p.patrol_mode);
    assert_eq!(p.patrol_ship, None);
    assert_eq!(p.patrol_frames, 0);
    assert_eq!(p.hand.len(), hand_before + 1);
}

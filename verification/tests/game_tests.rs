use battleship_twist::board::{Board, Cells};
use battleship_twist::deck::ActionType;
use battleship_twist::game::{ActionOutcome, GameState, MatchState};
use battleship_twist::player::BasePlayer;
use battleship_twist::twist::TwistPlayer;

fn fresh_match() -> MatchState {
    let p1 = TwistPlayer::new(BasePlayer::new());
    let p2 = TwistPlayer::new(BasePlayer::new());
    MatchState::new(p1, p2)
}

#[test]
fn new_match_starts_with_player_one() {
    let m = fresh_match();
    assert_eq!(m.game_state, GameState::Player1);
    assert_eq!(m.player_turn, GameState::Player1);
    assert!(!m.player_acted);
    assert_eq!(m.turn_counter, 1);
}

#[test]
fn check_winner_tracks_ship_counts() {
    let mut m = fresh_match();
    assert_eq!(m.check_winner(), GameState::Else);
    m.player2.base.ship_count = 0;
    assert_eq!(m.check_winner(), GameState::Player1);
    m.player2.base.ship_count = 3;
    m.player1.base.ship_count = 0;
    assert_eq!(m.check_winner(), GameState::Player2);
}

#[test]
fn end_turn_after_action_draws_and_hands_over() {
    let mut m = fresh_match();
    m.player_acted = true;
    let hand_before = m.player1.hand.len();
    let deck_before = m.player1.deck.deck_list.len();
    m.end_turn();
    assert_eq!(m.game_state, GameState::Else);
    assert!(!m.player_acted);
    assert_eq!(m.turn_counter, 2);
    assert_eq!(m.player1.hand.len(), hand_before + 1);
    assert_eq!(m.player1.deck.deck_list.len(), deck_before - 1);
}

#[test]
fn end_turn_with_empty_deck_draws_nothing() {
    let mut m = fresh_match();
    m.player_acted = true;
    m.player1.deck.deck_list.clear();
    let hand_before = m.player1.hand.len();
    m.end_turn();
    assert_eq!(m.player1.hand.len(), hand_before);
    assert_eq!(m.game_state, GameState::Else);
}

#[test]
fn end_turn_from_handover_switches_player() {
    let mut m = fresh_match();
    m.player_acted = true;
    m.end_turn();
    assert_eq!(m.game_state, GameState::Else);
    m.end_turn();
    assert_eq!(m.game_state, GameState::Player2);
    assert_eq!(m.player_turn, GameState::Player2);
    m.player_acted = true;
    m.end_turn();
    m.end_turn();
    assert_eq!(m.game_state, GameState::Player1);
}

#[test]
fn intent_rejected_after_acting() {
    let mut m = fresh_match();
    m.player_acted = true;
    assert_eq!(m.intent_missile(0, 0), ActionOutcome::Rejected);
    assert_eq!(m.intent_torpedo(0), ActionOutcome::Rejected);
    assert_eq!(m.intent_reinforce(0, 0), ActionOutcome::Rejected);
    assert_eq!(m.intent_radar_scan(0, 0), ActionOutcome::Rejected);
    assert_eq!(m.intent_start_patrol(0, 0), ActionOutcome::Rejected);
    assert_eq!(m.intent_patrol_move(0, 1), ActionOutcome::Rejected);
}

#[test]
fn intent_without_card_is_refused() {
    let mut m = fresh_match();
    m.player1.hand.clear();
    m.player1.hand.push(ActionType::Torpedo);
    assert_eq!(m.intent_missile(0, 0), ActionOutcome::NoCard);
    assert!(!m.player_acted);
    assert_eq!(m.player1.hand.len(), 1);
}

#[test]
fn intent_missile_spends_card_and_resolves() {
    let mut m = fresh_match();
    m.player1.hand.clear();
    m.player1.hand.push(ActionType::Missile);
    let target = m.player2.base.ships[0].positions[0];
    let r = m.intent_missile(target.0, target.1);
    assert_eq!(r, ActionOutcome::Hit);
    assert!(m.player_acted);
    assert!(m.player1.hand.is_empty());
    assert_eq!(m.player2.base.board.cells[target.0][target.1], Cells::Hit);
    assert_eq!(m.player1.base.guess_board.cells[target.0][target.1], Cells::Hit);
}

#[test]
fn intent_missile_miss_on_empty_water() {
    let mut m = fresh_match();
    m.player1.hand.clear();
    m.player1.hand.push(ActionType::Missile);
    let mut shot = None;
    'outer: for x in 0..10usize {
        for y in 0..10usize {
            if m.player2.base.board.cells[x][y] == Cells::Empty {
                shot = Some((x, y));
                break 'outer;
            }
        }
    }
    let (x, y) = shot.expect("17 of 100 cells are occupied, so an empty one exists");
    assert_eq!(m.intent_missile(x, y), ActionOutcome::Miss);
    assert_eq!(m.player2.base.board.cells[x][y], Cells::Miss);
}

#[test]
fn intent_reinforce_failure_returns_card_and_keeps_turn() {
    let mut m = fresh_match();
    m.player1.hand.clear();
    m.player1.hand.push(ActionType::Reinforce);
    let mut empty = None;
    'outer: for x in 0..10usize {
        for y in 0..10usize {
            if m.player1.base.board.cells[x][y] == Cells::Empty {
                empty = Some((x, y));
                break 'outer;
            }
        }
    }
    let (x, y) = empty.unwrap();
    assert_eq!(m.intent_reinforce(x, y), ActionOutcome::Failure);
    assert!(!m.player_acted, "a rule rejection does not consume the turn");
    assert_eq!(m.player1.hand.len(), 1);
    assert_eq!(m.player1.hand[0], ActionType::Reinforce);
}

#[test]
fn intent_reinforce_success() {
    let mut m = fresh_match();
    m.player1.hand.clear();
    m.player1.hand.push(ActionType::Reinforce);
    let own = m.player1.base.ships[0].positions[0];
    assert_eq!(m.intent_reinforce(own.0, own.1), ActionOutcome::Success);
    assert!(m.player_acted);
    assert!(m.player1.hand.is_empty());
    assert_eq!(m.player1.base.board.cells[own.0][own.1], Cells::Reinforced);
}

#[test]
fn intent_radar_scan_reveals_on_guess_board() {
    let mut m = fresh_match();
    m.player1.hand.clear();
    m.player1.hand.push(ActionType::RadarScan);
    let spot = m.player2.base.ships[0].positions[0];
    assert_eq!(m.intent_radar_scan(spot.0, spot.1), ActionOutcome::Success);
    assert!(m.player_acted);
    assert_eq!(m.player1.base.guess_board.cells[spot.0][spot.1], Cells::Occupied);
}

#[test]
fn player_two_acts_on_their_turn() {
    let mut m = fresh_match();
    m.game_state = GameState::Player2;
    m.player2.hand.clear();
    m.player2.hand.push(ActionType::Missile);
    let target = m.player1.base.ships[0].positions[0];
    assert_eq!(m.intent_missile(target.0, target.1), ActionOutcome::Hit);
    assert_eq!(m.player1.base.board.cells[target.0][target.1], Cells::Hit);
    assert_eq!(m.player2.base.guess_board.cells[target.0][target.1], Cells::Hit);
}

#[test]
fn hit_cells_survive_every_later_action() {
    let mut m = fresh_match();
    let target = m.player2.base.ships[0].positions[0];
    m.player1.base.fire_missile(&mut m.player2.base, target.0, target.1);
    assert_eq!(m.player2.base.board.cells[target.0][target.1], Cells::Hit);
    // A missile, a torpedo, and a radar scan later, the cell is still Hit.
    m.player1.base.fire_missile(&mut m.player2.base, target.0, target.1);
    m.player1.fire_torpedo(&mut m.player2, target.1);
    m.player1.radar_scan(&mut m.player2, target.0, target.1);
    assert_eq!(m.player2.base.board.cells[target.0][target.1], Cells::Hit);
}

#[test]
fn sinking_the_whole_fleet_wins_and_no_sooner() {
    let mut p1 = TwistPlayer::new(BasePlayer::new());
    let mut p2 = TwistPlayer::new(BasePlayer::new());
    assert_eq!(p2.base.ships.len(), 5);
    let mut coords: Vec<(usize, usize)> = Vec::new();
    for ship in &p2.base.ships {
        for &c in &ship.positions {
            coords.push(c);
        }
    }
    assert_eq!(coords.len(), 17, "lengths 4+3+3+2+5 give 17 occupied cells");
    for (i, &(x, y)) in coords.iter().enumerate() {
        assert!(p2.base.ship_count > 0, "no win before the last ship cell is hit");
        let hit = p1.base.fire_missile(&mut p2.base, x, y);
        assert!(hit, "every true ship coordinate is a hit");
        if i + 1 < coords.len() {
            assert!(p2.base.ship_count > 0);
        }
    }
    assert_eq!(p2.base.ship_count, 0, "all ships sunk");
}

#[test]
fn tick_patrol_counts_down_for_current_player() {
    let mut m = fresh_match();
    let spot = m.player1.base.ships[0].positions[0];
    m.player1.hand.clear();
    m.player1.hand.push(ActionType::Patrol);
    assert_eq!(m.intent_start_patrol(spot.0, spot.1), ActionOutcome::Success);
    let frames = m.player1.patrol_frames;
    m.tick_patrol();
    assert_eq!(m.player1.patrol_frames, frames - 1);
}

#[test]
fn intent_patrol_move_consumes_turn_on_success() {
    let mut m = fresh_match();
    let mut base = BasePlayer {
        board: Board::new(),
        guess_board: Board::new(),
        ships: Vec::new(),
        ship_count: 5,
    };
    for &(x, y) in &[(5usize, 5usize), (5, 6)] {
        base.board.change_cell(x, y, Cells::Occupied);
    }
    base.ships.push(battleship_twist::ship::Ship {
        ship_type: battleship_twist::ship::ShipType::Destroyer,
        positions: vec![(5, 5), (5, 6)],
        orientation: battleship_twist::ship::Orientation::Horizontal,
    });
    m.player1.base = base;
    m.player1.hand.clear();
    m.player1.hand.push(ActionType::Patrol);
    assert_eq!(m.intent_start_patrol(5, 5), ActionOutcome::Success);
    assert!(!m.player_acted, "starting a patrol does not consume the turn");
    assert_eq!(m.intent_patrol_move(1, 0), ActionOutcome::Success);
    assert!(m.player_acted);
    assert_eq!(m.player1.base.ships[0].positions, vec![(6, 5), (6, 6)]);
}

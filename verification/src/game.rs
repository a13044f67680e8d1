//! The turn and match state machine: whose turn it is, the one-action-per-
//! turn gate, the end-of-turn card draw, and win detection.  Each player
//! intent is gated here: a card is spent before its action resolves, and a
//! rule rejection returns the card and leaves the turn unconsumed.

use vstd::prelude::*;
use crate::GRID_SIZE;
use crate::board::{Cells, cell_write};
use crate::deck::ActionType;
use crate::player::{first_ship_at, missile_is_hit, missile_write, no_ship_at};
use crate::ship::{alive_count, ship_destroyed, ship_has_hit};
use crate::twist::{
    TwistPlayer, first_card_at, patrol_move_ok, radar_covers, shifted_positions, torpedo_block,
    twist_wf,
};
use crate::ship::run_covers;
use crate::PATROL_FRAMES;

verus! {

/// Whose turn is active, or the hand-over state between turns.
#[derive(Copy, Clone, PartialEq, Eq, Structural, Debug)]
pub enum GameState {
    Player1,
    Player2,
    Else,
}

/// What an intent reports back to the caller.
#[derive(Copy, Clone, PartialEq, Eq, Structural, Debug)]
pub enum ActionOutcome {
    /// The turn gate refused the intent: the player already acted.
    Rejected,
    /// The required card is not in the hand.
    NoCard,
    /// An attack struck a ship cell.
    Hit,
    /// An attack struck nothing.
    Miss,
    /// The action resolved as asked.
    Success,
    /// The action was a rule rejection; the card went back to the hand.
    Failure,
}

/// The whole match: both players, whose turn it is, whether the active
/// player has used their action, and the count of turns.
pub struct MatchState {
    pub player1: TwistPlayer,
    pub player2: TwistPlayer,
    pub game_state: GameState,
    pub player_turn: GameState,
    pub player_acted: bool,
    pub turn_counter: usize,
}

/// Both players are well formed.
pub open spec fn match_wf(m: MatchState) -> bool {
    &&& twist_wf(m.player1)
    &&& twist_wf(m.player2)
}

/// The player whose turn the match state names as acting.
pub open spec fn cur(m: MatchState) -> TwistPlayer {
    if m.game_state == GameState::Player1 {
        m.player1
    } else {
        m.player2
    }
}

/// The player the acting player's attacks are aimed at.
pub open spec fn opp(m: MatchState) -> TwistPlayer {
    if m.game_state == GameState::Player1 {
        m.player2
    } else {
        m.player1
    }
}

impl MatchState {
    /// A fresh match: both players ready, player one to act first, no
    /// action used, and the turn count started.
    pub fn new(player1: TwistPlayer, player2: TwistPlayer) -> (m: MatchState)
        requires
            twist_wf(player1),
            twist_wf(player2),
        ensures
            match_wf(m),
            m.player1 == player1,
            m.player2 == player2,
            m.game_state == GameState::Player1,
            m.player_turn == GameState::Player1,
            !m.player_acted,
            m.turn_counter == 1,
    {
        MatchState {
            player1,
            player2,
            game_state: GameState::Player1,
            player_turn: GameState::Player1,
            player_acted: false,
            turn_counter: 1,
        }
    }

    /// The winner so far: a player whose opponent has no ship left wins;
    /// `Else` while both fleets still float.
    pub fn check_winner(&self) -> (r: GameState)
        ensures
            r == (if self.player1.base.ship_count == 0 {
                GameState::Player2
            } else if self.player2.base.ship_count == 0 {
                GameState::Player1
            } else {
                GameState::Else
            }),
    {
        if self.player1.base.ship_count == 0 {
            GameState::Player2
        } else if self.player2.base.ship_count == 0 {
            GameState::Player1
        } else {
            GameState::Else
        }
    }

    /// The fire-missile intent: spend a Missile card and resolve the shot
    /// at `(x, y)` on the opponent's board; gated on the turn not yet
    /// being used and the card being in hand.
    pub fn intent_missile(&mut self, x: usize, y: usize) -> (r: ActionOutcome)
        requires
            match_wf(*old(self)),
            x < GRID_SIZE,
            y < GRID_SIZE,
        ensures
            match_wf(*final(self)),
            final(self).game_state == old(self).game_state,
            final(self).player_turn == old(self).player_turn,
            final(self).turn_counter == old(self).turn_counter,
            old(self).player_acted ==> *final(self) == *old(self) && r == ActionOutcome::Rejected,
            !old(self).player_acted && !cur(*old(self)).hand@.contains(ActionType::Missile)
                ==> *final(self) == *old(self) && r == ActionOutcome::NoCard,
            !old(self).player_acted && cur(*old(self)).hand@.contains(ActionType::Missile) ==> {
                let c0 = cur(*old(self));
                let o0 = opp(*old(self));
                let c1 = cur(*final(self));
                let o1 = opp(*final(self));
                let tcell = o0.base.board@[x as int][y as int];
                &&& final(self).player_acted
                &&& r == (if missile_is_hit(tcell) {
                    ActionOutcome::Hit
                } else {
                    ActionOutcome::Miss
                })
                &&& exists|i: int|
                    #[trigger] first_card_at(c0.hand@, ActionType::Missile, i) && c1.hand@
                        == c0.hand@.remove(i)
                &&& o1.base.board@ == cell_write(
                    o0.base.board@,
                    x as int,
                    y as int,
                    missile_write(tcell),
                )
                &&& c1.base.guess_board@ == cell_write(
                    c0.base.guess_board@,
                    x as int,
                    y as int,
                    missile_write(tcell),
                )
                &&& c1.base.board == c0.base.board
                &&& c1.base.ships == c0.base.ships
                &&& c1.base.ship_count == c0.base.ship_count
                &&& c1.deck == c0.deck
                &&& c1.patrol_mode == c0.patrol_mode
                &&& c1.patrol_ship == c0.patrol_ship
                &&& c1.patrol_frames == c0.patrol_frames
                &&& o1.base.guess_board == o0.base.guess_board
                &&& o1.base.ships == o0.base.ships
                &&& o1.hand == o0.hand
                &&& o1.deck == o0.deck
                &&& o1.patrol_mode == o0.patrol_mode
                &&& o1.patrol_ship == o0.patrol_ship
                &&& o1.patrol_frames == o0.patrol_frames
                &&& o1.base.ship_count as int == (if tcell == Cells::Occupied && (exists|k: int|
                    #[trigger] first_ship_at(o0.base.ships@, x as int, y as int, k)
                        && ship_destroyed(o0.base.ships@[k], o1.base.board@)) {
                    alive_count(o0.base.ships@, o1.base.board@) as int
                } else {
                    o0.base.ship_count as int
                })
            },
    {
        if self.player_acted {
            return ActionOutcome::Rejected;
        }
        match self.game_state {
            GameState::Player1 => {
                if self.player1.use_card(ActionType::Missile) {
                    let hit = self.player1.base.fire_missile(&mut self.player2.base, x, y);
                    self.player_acted = true;
                    if hit {
                        ActionOutcome::Hit
                    } else {
                        ActionOutcome::Miss
                    }
                } else {
                    ActionOutcome::NoCard
                }
            },
            _ => {
                if self.player2.use_card(ActionType::Missile) {
                    let hit = self.player2.base.fire_missile(&mut self.player1.base, x, y);
                    self.player_acted = true;
                    if hit {
                        ActionOutcome::Hit
                    } else {
                        ActionOutcome::Miss
                    }
                } else {
                    ActionOutcome::NoCard
                }
            },
        }
    }

    /// The fire-torpedo intent: spend a Torpedo card and resolve the scan
    /// up column `col` of the opponent's board.
    pub fn intent_torpedo(&mut self, col: usize) -> (r: ActionOutcome)
        requires
            match_wf(*old(self)),
            col < GRID_SIZE,
        ensures
            match_wf(*final(self)),
            final(self).game_state == old(self).game_state,
            final(self).player_turn == old(self).player_turn,
            final(self).turn_counter == old(self).turn_counter,
            old(self).player_acted ==> *final(self) == *old(self) && r == ActionOutcome::Rejected,
            !old(self).player_acted && !cur(*old(self)).hand@.contains(ActionType::Torpedo)
                ==> *final(self) == *old(self) && r == ActionOutcome::NoCard,
            !old(self).player_acted && cur(*old(self)).hand@.contains(ActionType::Torpedo) ==> {
                let c0 = cur(*old(self));
                let o0 = opp(*old(self));
                let c1 = cur(*final(self));
                let o1 = opp(*final(self));
                let g = o0.base.board@;
                let blk = torpedo_block(g, col as int);
                &&& final(self).player_acted
                &&& r == (if blk >= 0 && g[blk][col as int] != Cells::Hit {
                    ActionOutcome::Hit
                } else {
                    ActionOutcome::Miss
                })
                &&& exists|i: int|
                    #[trigger] first_card_at(c0.hand@, ActionType::Torpedo, i) && c1.hand@
                        == c0.hand@.remove(i)
                &&& forall|xx: int, yy: int|
                    0 <= xx < GRID_SIZE && 0 <= yy < GRID_SIZE
                        ==> #[trigger] o1.base.board@[xx][yy] == (if yy != col {
                        g[xx][yy]
                    } else if xx > blk {
                        Cells::Miss
                    } else if xx == blk && g[xx][yy] != Cells::Hit {
                        missile_write(g[xx][yy])
                    } else {
                        g[xx][yy]
                    })
                &&& forall|xx: int, yy: int|
                    0 <= xx < GRID_SIZE && 0 <= yy < GRID_SIZE
                        ==> #[trigger] c1.base.guess_board@[xx][yy] == (
                    if yy != col {
                        c0.base.guess_board@[xx][yy]
                    } else if c0.base.guess_board@[xx][yy] == Cells::Hit {
                        Cells::Hit
                    } else if xx > blk {
                        Cells::Miss
                    } else if xx == blk && g[xx][yy] != Cells::Hit {
                        missile_write(g[xx][yy])
                    } else {
                        c0.base.guess_board@[xx][yy]
                    })
                &&& o1.base.ship_count as int == (if blk >= 0 && g[blk][col as int]
                    == Cells::Occupied && (exists|k: int|
                    #[trigger] first_ship_at(o0.base.ships@, blk, col as int, k) && ship_destroyed(
                        o0.base.ships@[k],
                        o1.base.board@,
                    )) {
                    alive_count(o0.base.ships@, o1.base.board@) as int
                } else {
                    o0.base.ship_count as int
                })
                &&& c1.base.board == c0.base.board
                &&& c1.base.ships == c0.base.ships
                &&& c1.base.ship_count == c0.base.ship_count
                &&& c1.deck == c0.deck
                &&& c1.patrol_mode == c0.patrol_mode
                &&& c1.patrol_ship == c0.patrol_ship
                &&& c1.patrol_frames == c0.patrol_frames
                &&& o1.base.guess_board == o0.base.guess_board
                &&& o1.base.ships == o0.base.ships
                &&& o1.hand == o0.hand
                &&& o1.deck == o0.deck
                &&& o1.patrol_mode == o0.patrol_mode
                &&& o1.patrol_ship == o0.patrol_ship
                &&& o1.patrol_frames == o0.patrol_frames
            },
    {
        if self.player_acted {
            return ActionOutcome::Rejected;
        }
        match self.game_state {
            GameState::Player1 => {
                if self.player1.use_card(ActionType::Torpedo) {
                    let hit = self.player1.fire_torpedo(&mut self.player2, col);
                    self.player_acted = true;
                    if hit {
                        ActionOutcome::Hit
                    } else {
                        ActionOutcome::Miss
                    }
                } else {
                    ActionOutcome::NoCard
                }
            },
            _ => {
                if self.player2.use_card(ActionType::Torpedo) {
                    let hit = self.player2.fire_torpedo(&mut self.player1, col);
                    self.player_acted = true;
                    if hit {
                        ActionOutcome::Hit
                    } else {
                        ActionOutcome::Miss
                    }
                } else {
                    ActionOutcome::NoCard
                }
            },
        }
    }

    /// The reinforce intent: spend a Reinforce card to protect an occupied
    /// cell of the acting player's own board.  A rule rejection (the cell
    /// is not plainly occupied) returns the card to the hand and leaves
    /// the turn unconsumed.
    pub fn intent_reinforce(&mut self, x: usize, y: usize) -> (r: ActionOutcome)
        requires
            match_wf(*old(self)),
            x < GRID_SIZE,
            y < GRID_SIZE,
        ensures
            match_wf(*final(self)),
            final(self).game_state == old(self).game_state,
            final(self).player_turn == old(self).player_turn,
            final(self).turn_counter == old(self).turn_counter,
            old(self).player_acted ==> *final(self) == *old(self) && r == ActionOutcome::Rejected,
            !old(self).player_acted && !cur(*old(self)).hand@.contains(ActionType::Reinforce)
                ==> *final(self) == *old(self) && r == ActionOutcome::NoCard,
            !old(self).player_acted && cur(*old(self)).hand@.contains(ActionType::Reinforce) ==> {
                let c0 = cur(*old(self));
                let c1 = cur(*final(self));
                let cell0 = c0.base.board@[x as int][y as int];
                &&& opp(*final(self)) == opp(*old(self))
                &&& r == (if cell0 == Cells::Occupied {
                    ActionOutcome::Success
                } else {
                    ActionOutcome::Failure
                })
                &&& (cell0 == Cells::Occupied ==> {
                    &&& final(self).player_acted
                    &&& exists|i: int|
                        #[trigger] first_card_at(c0.hand@, ActionType::Reinforce, i) && c1.hand@
                            == c0.hand@.remove(i)
                    &&& c1.base.board@ == c0.base.board@.update(
                        x as int,
                        c0.base.board@[x as int].update(y as int, Cells::Reinforced),
                    )
                })
                &&& (cell0 != Cells::Occupied ==> {
                    &&& !final(self).player_acted
                    &&& exists|i: int|
                        #[trigger] first_card_at(c0.hand@, ActionType::Reinforce, i) && c1.hand@
                            == c0.hand@.remove(i).push(ActionType::Reinforce)
                    &&& c1.base == c0.base
                })
                &&& c1.base.guess_board == c0.base.guess_board
                &&& c1.base.ships == c0.base.ships
                &&& c1.base.ship_count == c0.base.ship_count
                &&& c1.deck == c0.deck
                &&& c1.patrol_mode == c0.patrol_mode
                &&& c1.patrol_ship == c0.patrol_ship
                &&& c1.patrol_frames == c0.patrol_frames
            },
    {
        if self.player_acted {
            return ActionOutcome::Rejected;
        }
        match self.game_state {
            GameState::Player1 => {
                if self.player1.use_card(ActionType::Reinforce) {
                    let ok = self.player1.reinforce(x, y);
                    if ok {
                        self.player_acted = true;
                        ActionOutcome::Success
                    } else {
                        self.player1.hand.push(ActionType::Reinforce);
                        ActionOutcome::Failure
                    }
                } else {
                    ActionOutcome::NoCard
                }
            },
            _ => {
                if self.player2.use_card(ActionType::Reinforce) {
                    let ok = self.player2.reinforce(x, y);
                    if ok {
                        self.player_acted = true;
                        ActionOutcome::Success
                    } else {
                        self.player2.hand.push(ActionType::Reinforce);
                        ActionOutcome::Failure
                    }
                } else {
                    ActionOutcome::NoCard
                }
            },
        }
    }

    /// The radar-scan intent: spend a RadarScan card to reveal the true
    /// state of `(x, y)` and its in-bounds neighbours on the acting
    /// player's guess board.
    pub fn intent_radar_scan(&mut self, x: usize, y: usize) -> (r: ActionOutcome)
        requires
            match_wf(*old(self)),
            x < GRID_SIZE,
            y < GRID_SIZE,
        ensures
            match_wf(*final(self)),
            final(self).game_state == old(self).game_state,
            final(self).player_turn == old(self).player_turn,
            final(self).turn_counter == old(self).turn_counter,
            old(self).player_acted ==> *final(self) == *old(self) && r == ActionOutcome::Rejected,
            !old(self).player_acted && !cur(*old(self)).hand@.contains(ActionType::RadarScan)
                ==> *final(self) == *old(self) && r == ActionOutcome::NoCard,
            !old(self).player_acted && cur(*old(self)).hand@.contains(ActionType::RadarScan) ==> {
                let c0 = cur(*old(self));
                let o0 = opp(*old(self));
                let c1 = cur(*final(self));
                &&& r == ActionOutcome::Success
                &&& final(self).player_acted
                &&& opp(*final(self)) == o0
                &&& exists|i: int|
                    #[trigger] first_card_at(c0.hand@, ActionType::RadarScan, i) && c1.hand@
                        == c0.hand@.remove(i)
                &&& forall|xx: int, yy: int|
                    0 <= xx < GRID_SIZE && 0 <= yy < GRID_SIZE
                        ==> #[trigger] c1.base.guess_board@[xx][yy] == (if radar_covers(
                        x as int,
                        y as int,
                        xx,
                        yy,
                    ) {
                        if c0.base.guess_board@[xx][yy] == Cells::Hit {
                            Cells::Hit
                        } else {
                            o0.base.board@[xx][yy]
                        }
                    } else {
                        c0.base.guess_board@[xx][yy]
                    })
                &&& c1.base.board == c0.base.board
                &&& c1.base.ships == c0.base.ships
                &&& c1.base.ship_count == c0.base.ship_count
                &&& c1.deck == c0.deck
                &&& c1.patrol_mode == c0.patrol_mode
                &&& c1.patrol_ship == c0.patrol_ship
                &&& c1.patrol_frames == c0.patrol_frames
            },
    {
        if self.player_acted {
            return ActionOutcome::Rejected;
        }
        match self.game_state {
            GameState::Player1 => {
                if self.player1.use_card(ActionType::RadarScan) {
                    self.player1.radar_scan(&mut self.player2, x, y);
                    self.player_acted = true;
                    ActionOutcome::Success
                } else {
                    ActionOutcome::NoCard
                }
            },
            _ => {
                if self.player2.use_card(ActionType::RadarScan) {
                    self.player2.radar_scan(&mut self.player1, x, y);
                    self.player_acted = true;
                    ActionOutcome::Success
                } else {
                    ActionOutcome::NoCard
                }
            },
        }
    }

    /// The start-patrol intent: spend a Patrol card to select the ship at
    /// `(x, y)` for relocation.  When no ship is there, or the ship is
    /// damaged, the card goes back to the hand.  Starting a patrol does
    /// not consume the turn; only a completed move does.
    pub fn intent_start_patrol(&mut self, x: usize, y: usize) -> (r: ActionOutcome)
        requires
            match_wf(*old(self)),
            x < GRID_SIZE,
            y < GRID_SIZE,
        ensures
            match_wf(*final(self)),
            final(self).game_state == old(self).game_state,
            final(self).player_turn == old(self).player_turn,
            final(self).turn_counter == old(self).turn_counter,
            final(self).player_acted == old(self).player_acted,
            old(self).player_acted ==> *final(self) == *old(self) && r == ActionOutcome::Rejected,
            !old(self).player_acted && (cur(*old(self)).patrol_mode || !cur(
                *old(self),
            ).hand@.contains(ActionType::Patrol)) ==> *final(self) == *old(self) && r
                == ActionOutcome::NoCard,
            !old(self).player_acted && !cur(*old(self)).patrol_mode && cur(
                *old(self),
            ).hand@.contains(ActionType::Patrol) ==> {
                let c0 = cur(*old(self));
                let c1 = cur(*final(self));
                &&& opp(*final(self)) == opp(*old(self))
                &&& c1.base == c0.base
                &&& c1.deck == c0.deck
                &&& (no_ship_at(c0.base.ships@, x as int, y as int) ==> {
                    &&& r == ActionOutcome::Failure
                    &&& exists|i: int|
                        #[trigger] first_card_at(c0.hand@, ActionType::Patrol, i) && c1.hand@
                            == c0.hand@.remove(i).push(ActionType::Patrol)
                    &&& c1.patrol_mode == c0.patrol_mode
                    &&& c1.patrol_ship == c0.patrol_ship
                    &&& c1.patrol_frames == c0.patrol_frames
                })
                &&& forall|k: int|
                    #[trigger] first_ship_at(c0.base.ships@, x as int, y as int, k) ==> (
                    if ship_has_hit(c0.base.ships@[k], c0.base.board@) {
                        &&& r == ActionOutcome::Failure
                        &&& exists|i: int|
                            #[trigger] first_card_at(c0.hand@, ActionType::Patrol, i) && c1.hand@
                                == c0.hand@.remove(i).push(ActionType::Patrol)
                        &&& c1.patrol_mode == c0.patrol_mode
                        &&& c1.patrol_ship == c0.patrol_ship
                        &&& c1.patrol_frames == c0.patrol_frames
                    } else {
                        &&& r == ActionOutcome::Success
                        &&& c1.patrol_mode
                        &&& c1.patrol_ship == Some(k as usize)
                        &&& c1.patrol_frames == PATROL_FRAMES
                        &&& exists|i: int|
                            #[trigger] first_card_at(c0.hand@, ActionType::Patrol, i) && c1.hand@
                                == c0.hand@.remove(i)
                    })
            },
    {
        if self.player_acted {
            return ActionOutcome::Rejected;
        }
        match self.game_state {
            GameState::Player1 => {
                if self.player1.patrol_mode {
                    return ActionOutcome::NoCard;
                }
                if self.player1.use_card(ActionType::Patrol) {
                    let started = self.player1.start_patrol(x, y);
                    if started {
                        ActionOutcome::Success
                    } else {
                        ActionOutcome::Failure
                    }
                } else {
                    ActionOutcome::NoCard
                }
            },
            _ => {
                if self.player2.patrol_mode {
                    return ActionOutcome::NoCard;
                }
                if self.player2.use_card(ActionType::Patrol) {
                    let started = self.player2.start_patrol(x, y);
                    if started {
                        ActionOutcome::Success
                    } else {
                        ActionOutcome::Failure
                    }
                } else {
                    ActionOutcome::NoCard
                }
            },
        }
    }

    /// The patrol-move intent: relocate the ship under patrol one step.
    /// Needs no card; a successful move consumes the turn and ends the
    /// patrol, a blocked move changes nothing.
    pub fn intent_patrol_move(&mut self, dir_x: isize, dir_y: isize) -> (r: ActionOutcome)
        requires
            match_wf(*old(self)),
            (dir_x == 0 && (dir_y == 1 || dir_y == -1)) || (dir_y == 0 && (dir_x == 1 || dir_x
                == -1)),
        ensures
            match_wf(*final(self)),
            final(self).game_state == old(self).game_state,
            final(self).player_turn == old(self).player_turn,
            final(self).turn_counter == old(self).turn_counter,
            old(self).player_acted ==> *final(self) == *old(self) && r == ActionOutcome::Rejected,
            !old(self).player_acted ==> {
                let c0 = cur(*old(self));
                let c1 = cur(*final(self));
                &&& opp(*final(self)) == opp(*old(self))
                &&& (match c0.patrol_ship {
                    None => *final(self) == *old(self) && r == ActionOutcome::Failure,
                    Some(idx) => {
                        let s = c0.base.ships@[idx as int];
                        let g = c0.base.board@;
                        if !patrol_move_ok(s, g, dir_x as int, dir_y as int) {
                            *final(self) == *old(self) && r == ActionOutcome::Failure
                        } else {
                            &&& r == ActionOutcome::Success
                            &&& final(self).player_acted
                            &&& c1.base.ships@.len() == c0.base.ships@.len()
                            &&& forall|k: int|
                                0 <= k < c0.base.ships@.len() && k != idx
                                    ==> #[trigger] c1.base.ships@[k] == c0.base.ships@[k]
                            &&& c1.base.ships@[idx as int].positions@ == shifted_positions(
                                s.positions@,
                                dir_x as int,
                                dir_y as int,
                            )
                            &&& c1.base.ships@[idx as int].ship_type == s.ship_type
                            &&& c1.base.ships@[idx as int].orientation == s.orientation
                            &&& forall|xx: int, yy: int|
                                0 <= xx < GRID_SIZE && 0 <= yy < GRID_SIZE
                                    ==> #[trigger] c1.base.board@[xx][yy] == (if g[xx][yy]
                                    == Cells::Hit {
                                    Cells::Hit
                                } else if run_covers(
                                    shifted_positions(s.positions@, dir_x as int, dir_y as int),
                                    xx,
                                    yy,
                                ) {
                                    if g[xx - dir_x][yy - dir_y] == Cells::Reinforced {
                                        Cells::Reinforced
                                    } else {
                                        Cells::Occupied
                                    }
                                } else if run_covers(s.positions@, xx, yy) {
                                    Cells::Empty
                                } else {
                                    g[xx][yy]
                                })
                            &&& !c1.patrol_mode
                            &&& c1.patrol_ship is None
                            &&& c1.patrol_frames == 0
                            &&& c1.hand == c0.hand
                            &&& c1.deck == c0.deck
                            &&& c1.base.guess_board == c0.base.guess_board
                            &&& c1.base.ship_count == c0.base.ship_count
                        }
                    },
                })
            },
    {
        if self.player_acted {
            return ActionOutcome::Rejected;
        }
        match self.game_state {
            GameState::Player1 => {
                let moved = self.player1.try_patrol_move(dir_x, dir_y);
                if moved {
                    self.player_acted = true;
                    ActionOutcome::Success
                } else {
                    ActionOutcome::Failure
                }
            },
            _ => {
                let moved = self.player2.try_patrol_move(dir_x, dir_y);
                if moved {
                    self.player_acted = true;
                    ActionOutcome::Success
                } else {
                    ActionOutcome::Failure
                }
            },
        }
    }

    /// One tick of the active player's patrol countdown.
    pub fn tick_patrol(&mut self)
        requires
            match_wf(*old(self)),
        ensures
            match_wf(*final(self)),
            final(self).game_state == old(self).game_state,
            final(self).player_turn == old(self).player_turn,
            final(self).turn_counter == old(self).turn_counter,
            final(self).player_acted == old(self).player_acted,
            opp(*final(self)) == opp(*old(self)),
            ({
                let c0 = cur(*old(self));
                let c1 = cur(*final(self));
                &&& (c0.patrol_mode && c0.patrol_frames > 1 ==> {
                    &&& c1.patrol_frames == c0.patrol_frames - 1
                    &&& c1.patrol_mode == c0.patrol_mode
                    &&& c1.patrol_ship == c0.patrol_ship
                    &&& c1.hand == c0.hand
                    &&& c1.base == c0.base
                    &&& c1.deck == c0.deck
                })
                &&& (c0.patrol_mode && c0.patrol_frames == 1 ==> {
                    &&& !c1.patrol_mode
                    &&& c1.patrol_ship is None
                    &&& c1.patrol_frames == 0
                    &&& c1.hand@ == c0.hand@.push(ActionType::Patrol)
                    &&& c1.base == c0.base
                    &&& c1.deck == c0.deck
                })
                &&& (!(c0.patrol_mode && c0.patrol_frames > 0) ==> c1 == c0)
            }),
    {
        match self.game_state {
            GameState::Player1 => {
                self.player1.update_patrol();
            },
            _ => {
                self.player2.update_patrol();
            },
        }
    }

    /// The end-of-turn key: after an action, the acting player draws one
    /// card (when the deck still has one), the match moves to the
    /// hand-over state, and the turn count advances.  Without an action,
    /// the key leaves the hand-over state by giving the other player the
    /// turn.
    pub fn end_turn(&mut self)
        requires
            match_wf(*old(self)),
            old(self).turn_counter < usize::MAX,
        ensures
            match_wf(*final(self)),
            old(self).player_acted ==> {
                &&& final(self).game_state == GameState::Else
                &&& !final(self).player_acted
                &&& final(self).turn_counter == old(self).turn_counter + 1
                &&& final(self).player_turn == old(self).player_turn
                &&& opp(*old(self)) == (if old(self).game_state == GameState::Player1 {
                    final(self).player2
                } else {
                    final(self).player1
                })
                &&& {
                    let c0 = cur(*old(self));
                    let c1 = (if old(self).game_state == GameState::Player1 {
                        final(self).player1
                    } else {
                        final(self).player2
                    });
                    &&& c1.base == c0.base
                    &&& c1.patrol_mode == c0.patrol_mode
                    &&& c1.patrol_ship == c0.patrol_ship
                    &&& c1.patrol_frames == c0.patrol_frames
                    &&& (c0.deck.deck_list@.len() == 0 ==> c1.hand == c0.hand
                        && c1.deck.deck_list@ == c0.deck.deck_list@)
                    &&& (c0.deck.deck_list@.len() > 0 ==> c1.hand@ == c0.hand@.push(
                        c0.deck.deck_list@.last(),
                    ) && c1.deck.deck_list@ == c0.deck.deck_list@.drop_last())
                }
            },
            !old(self).player_acted ==> {
                &&& final(self).player1 == old(self).player1
                &&& final(self).player2 == old(self).player2
                &&& final(self).player_acted == old(self).player_acted
                &&& final(self).turn_counter == old(self).turn_counter
                &&& (old(self).game_state == GameState::Else ==> {
                    let next = (if old(self).player_turn == GameState::Player1 {
                        GameState::Player2
                    } else {
                        GameState::Player1
                    });
                    final(self).game_state == next && final(self).player_turn == next
                })
                &&& (old(self).game_state != GameState::Else ==> final(self).game_state == old(
                    self,
                ).game_state && final(self).player_turn == old(self).player_turn)
            },
    {
        if self.player_acted {
            match self.game_state {
                GameState::Player1 => {
                    match self.player1.draw_card() {
                        Some(card) => self.player1.hand.push(card),
                        None => {
                        },
                    }
                },
                _ => {
                    match self.player2.draw_card() {
                        Some(card) => self.player2.hand.push(card),
                        None => {
                        },
                    }
                },
            }
            self.game_state = GameState::Else;
            self.player_acted = false;
            self.turn_counter = self.turn_counter + 1;
        } else {
            if self.game_state == GameState::Else {
                if self.player_turn == GameState::Player1 {
                    self.game_state = GameState::Player2;
                    self.player_turn = GameState::Player2;
                } else {
                    self.game_state = GameState::Player1;
                    self.player_turn = GameState::Player1;
                }
            }
        }
    }
}

} // verus!

use battleship_twist::deck::{ActionType, Deck};
use battleship_twist::{DECK_SIZE, HAND_SIZE};
use battleship_twist::player::BasePlayer;
use battleship_twist::twist::TwistPlayer;

fn count(cards: &[ActionType], t: ActionType) -> usize {
    cards.iter().filter(|c| **c == t).count()
}

#[test]
fn build_composition() {
    let mut deck = Deck::new();
    deck.build();
    assert_eq!(deck.deck_list.len(), DECK_SIZE);
    assert_eq!(count(&deck.deck_list, ActionType::Missile), 16);
    assert_eq!(count(&deck.deck_list, ActionType::Torpedo), 9);
    assert_eq!(count(&deck.deck_list, ActionType::Patrol), 8);
    assert_eq!(count(&deck.deck_list, ActionType::Reinforce), 7);
    assert_eq!(count(&deck.deck_list, ActionType::RadarScan), 8);
}

#[test]
fn build_block_order() {
    let mut deck = Deck::new();
    deck.build();
    for i in 0..16 {
        assert_eq!(deck.deck_list[i], ActionType::Missile);
    }
    for i in 16..25 {
        assert_eq!(deck.deck_list[i], ActionType::Torpedo);
    }
    for i in 25..33 {
        assert_eq!(deck.deck_list[i], ActionType::Patrol);
    }
    for i in 33..40 {
        assert_eq!(deck.deck_list[i], ActionType::Reinforce);
    }
    for i in 40..48 {
        assert_eq!(deck.deck_list[i], ActionType::RadarScan);
    }
}

#[test]
fn shuffle_preserves_multiset() {
    let mut deck = Deck::new();
    deck.build();
    deck.shuffle();
    assert_eq!(deck.deck_list.len(), DECK_SIZE);
    assert_eq!(count(&deck.deck_list, ActionType::Missile), 16);
    assert_eq!(count(&deck.deck_list, ActionType::Torpedo), 9);
    assert_eq!(count(&deck.deck_list, ActionType::Patrol), 8);
    assert_eq!(count(&deck.deck_list, ActionType::Reinforce), 7);
    assert_eq!(count(&deck.deck_list, ActionType::RadarScan), 8);
}

#[test]
fn draw_card_takes_from_the_end() {
    let base = BasePlayer::new();
    let mut p = TwistPlayer::new(base);
    let top = *p.deck.deck_list.last().unwrap();
    let before = p.deck.deck_list.len();
    let drawn = p.draw_card();
    assert_eq!(drawn, Some(top));
    assert_eq!(p.deck.deck_list.len(), before - 1);
}

#[test]
fn draw_card_on_empty_deck() {
    let base = BasePlayer::new();
    let mut p = TwistPlayer::new(base);
    p.deck.deck_list.clear();
    assert_eq!(p.draw_card(), None);
    assert_eq!(p.deck.deck_list.len(), 0);
}

#[test]
fn new_twist_player_draws_full_hand() {
    let base = BasePlayer::new();
    let p = TwistPlayer::new(base);
    assert_eq!(p.hand.len(), HAND_SIZE);
    assert_eq!(p.deck.deck_list.len(), DECK_SIZE - HAND_SIZE);
    assert!(!p.patrol_mode);
    assert_eq!(p.patrol_ship, None);
    assert_eq!(p.patrol_frames, 0);
}

#[test]
fn new_twist_player_keeps_card_composition() {
    let base = BasePlayer::new();
    let p = TwistPlayer::new(base);
    let mut all: Vec<ActionType> = p.deck.deck_list.clone();
    all.extend(p.hand.iter().copied());
    assert_eq!(all.len(), DECK_SIZE);
    assert_eq!(count(&all, ActionType::Missile), 16);
    assert_eq!(count(&all, ActionType::Torpedo), 9);
    assert_eq!(count(&all, ActionType::Patrol), 8);
    assert_eq!(count(&all, ActionType::Reinforce), 7);
    assert_eq!(count(&all, ActionType::RadarScan), 8);
}

#[test]
fn draw_hand_stops_on_empty_deck() {
    let base = BasePlayer::new();
    let mut p = TwistPlayer::new(base);
    p.hand.clear();
    p.deck.deck_list.clear();
    p.deck.deck_list.push(ActionType::Torpedo);
    p.draw_hand();
    assert_eq!(p.hand.len(), 1);
    assert_eq!(p.hand[0], ActionType::Torpedo);
    assert_eq!(p.deck.deck_list.len(), 0);
}

#[test]
fn use_card_removes_first_match() {
    let base = BasePlayer::new();
    let mut p = TwistPlayer::new(base);
    p.hand.clear();
    p.hand.push(ActionType::Missile);
    p.hand.push(ActionType::Torpedo);
    p.hand.push(ActionType::Missile);
    assert!(p.use_card(ActionType::Missile));
    assert_eq!(p.hand.len(), 2);
    assert_eq!(p.hand[0], ActionType::Torpedo);
    assert_eq!(p.hand[1], ActionType::Missile);
}

#[test]
fn use_card_missing_leaves_hand_alone() {
    let base = BasePlayer::new();
    let mut p = TwistPlayer::new(base);
    p.hand.clear();
    p.hand.push(ActionType::Missile);
    assert!(!p.use_card(ActionType::Patrol));
    assert_eq!(p.hand.len(), 1);
    assert_eq!(p.hand[0], ActionType::Missile);
}

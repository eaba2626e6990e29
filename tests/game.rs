use kingdom_kards::card::{Card, Color, Suit, Value};
use kingdom_kards::game_state::{GameState, PlayerDetails};
use kingdom_kards::player::Player;
use kingdom_kards::protocol::{Action, ActionType, StatusType};
use kingdom_kards::turn::{TurnError, TurnStep};

fn registry(entries: &[(&str, u16)]) -> GameState {
    let mut g = GameState::new();
    for (name, points) in entries {
        g.add_player(PlayerDetails::new(name.to_string(), *points));
    }
    g
}

fn act(kind: ActionType, attachment: u16, from: &str, to: &str) -> Action {
    Action::new(kind, attachment, from.to_string(), to.to_string())
}

#[test]
fn player_initialization() {
    let mut player = Player::with_name(String::from("John Smith"));
    assert_eq!(player.name(), "John Smith");
    assert_eq!(player.points(), 100);
    assert_eq!(player.deck_size(), 52 - 5);
    assert_eq!(player.hand_size(), 5);

    player.draw_card();
    assert_eq!(player.deck_size(), 52 - 6);
    assert_eq!(player.hand_size(), 6);
}

#[test]
fn king_saturates_at_zero() {
    let mut g = registry(&[("A", 100), ("B", 80)]);
    assert_eq!(g.apply_action(&act(ActionType::PlayKing, 100, "A", "B")), Ok(TurnStep::Continue));
    assert_eq!(g.player_by_name("B").unwrap().points(), 0);
    assert_eq!(g.player_by_name("A").unwrap().points(), 100);
}

#[test]
fn king_takes_ten_plus_attachment() {
    let mut g = registry(&[("A", 100), ("B", 100)]);
    assert_eq!(g.handle_king(&act(ActionType::PlayKing, 10, "A", "B")), Ok(()));
    assert_eq!(g.player_by_name("B").unwrap().points(), 80);
    assert_eq!(g.handle_king(&act(ActionType::PlayKing, 0, "A", "B")), Ok(()));
    assert_eq!(g.player_by_name("B").unwrap().points(), 70);
}

#[test]
fn queen_heals_ten_plus_attachment() {
    let mut g = registry(&[("A", 90), ("B", 20)]);
    assert_eq!(g.apply_action(&act(ActionType::PlayQueen, 5, "A", "B")), Ok(TurnStep::Continue));
    assert_eq!(g.player_by_name("A").unwrap().points(), 105);
    assert_eq!(g.player_by_name("B").unwrap().points(), 20);
    let mut top = registry(&[("A", 65530)]);
    assert_eq!(top.handle_queen(&act(ActionType::PlayQueen, 0, "A", "")), Ok(()));
    assert_eq!(top.player_by_name("A").unwrap().points(), 65535);
}

#[test]
fn turn_rotation_returns_to_start() {
    let mut g = registry(&[("A", 1), ("B", 2), ("C", 3)]);
    g.move_next_player();
    let start = g.current_player_index();
    assert_eq!(start, 1);
    for _ in 0..3 {
        assert_eq!(g.apply_action(&act(ActionType::TurnEnd, 0, "", "")), Ok(TurnStep::TurnOver));
    }
    assert_eq!(g.current_player_index(), start);
    g.move_next_player();
    g.move_next_player();
    assert_eq!(g.current_player_index(), 0);
    assert_eq!(g.current_player().name(), "A");
}

#[test]
fn turn_errors() {
    let mut g = registry(&[("A", 50)]);
    assert_eq!(g.apply_action(&act(ActionType::PlayKing, 0, "A", "Z")), Err(TurnError::UnknownPlayer));
    assert_eq!(g.apply_action(&act(ActionType::PlayQueen, 0, "Z", "A")), Err(TurnError::UnknownPlayer));
    assert_eq!(g.apply_action(&act(ActionType::TurnStart, 0, "A", "")), Err(TurnError::UnexpectedTurnStart));
    assert_eq!(g.player_by_name("A").unwrap().points(), 50);
    let mut empty = GameState::new();
    assert_eq!(empty.apply_action(&act(ActionType::TurnEnd, 0, "", "")), Err(TurnError::NoPlayers));
    for k in [ActionType::PlayJack, ActionType::PlayNumber, ActionType::PlayBlackAce, ActionType::PlayRedAce] {
        assert_eq!(g.apply_action(&act(k, 3, "A", "A")), Ok(TurnStep::Continue));
    }
    assert_eq!(g.player_by_name("A").unwrap().points(), 50);
}

#[test]
fn join_rejects_taken_names() {
    let mut g = GameState::new();
    assert_eq!(g.try_join("Alex"), StatusType::Yes);
    assert_eq!(g.num_players(), 1);
    assert_eq!(g.try_join("Alex"), StatusType::No);
    assert_eq!(g.num_players(), 1);
    assert_eq!(g.try_join("alex"), StatusType::Yes);
    assert_eq!(g.num_players(), 2);
    assert_eq!(g.get_player(0).points(), 100);
    assert!(!g.is_unique_name("alex"));
    assert!(g.is_unique_name("Bo"));
}

#[test]
fn registry_lookups() {
    let mut g = registry(&[("A", 1), ("B", 2)]);
    assert_eq!(g.position_by_name("B"), Some(1));
    assert_eq!(g.position_by_name("C"), None);
    assert!(g.player_by_name("C").is_none());
    g.player_by_name_mut("B").unwrap().set_points(9);
    assert_eq!(g.all_players()[1].points(), 9);
    assert_eq!(g.all_players()[1].name(), "B");
}

#[test]
fn cards_render() {
    let ace = Card::new(Suit::Spades, Value::Ace);
    assert_eq!(ace.to_unicode(), "\u{1F0A1}");
    assert_eq!(Card::new(Suit::Hearts, Value::Queen).to_unicode(), "\u{1F0BD}");
    assert_eq!(Card::new(Suit::Clubs, Value::King).to_unicode(), "\u{1F0DE}");
    assert_eq!(
        Card::new(Suit::Diamonds, Value::Ten).to_colored_text(),
        "\x1b[0;31mTen of Diamonds\x1b[0m"
    );
    assert_eq!(ace.color(), Color::Black);
    assert_eq!(*ace.suit(), Suit::Spades);
    assert_eq!(*ace.value(), Value::Ace);
    assert!(Value::Seven.is_number());
    assert!(!Value::Jack.is_number());
    assert_eq!(Value::Seven.to_number_value(), 7);
}

#[test]
fn cards_make_actions() {
    assert_eq!(Action::card_to_action_type(&Card::new(Suit::Clubs, Value::Ace)), ActionType::PlayBlackAce);
    assert_eq!(Action::card_to_action_type(&Card::new(Suit::Hearts, Value::Ace)), ActionType::PlayRedAce);
    assert_eq!(Action::card_to_action_type(&Card::new(Suit::Hearts, Value::Two)), ActionType::PlayNumber);
    assert_eq!(Action::card_to_action_type(&Card::new(Suit::Hearts, Value::Jack)), ActionType::PlayJack);
}

#[test]
fn fresh_player_draws_from_the_top() {
    let player = Player::new();
    assert_eq!(player.hand_size(), 6);
    assert_eq!(player.deck_size(), 46);
    assert_eq!(player.hand()[0], Card::new(Suit::Diamonds, Value::King));
    assert_eq!(player.hand()[5], Card::new(Suit::Diamonds, Value::Eight));
}

#[test]
fn shuffled_deck_keeps_every_card() {
    let mut player = Player::with_name("P".to_string());
    player.draw_n_times(60);
    assert_eq!(player.hand_size(), 52);
    assert_eq!(player.deck_size(), 0);
    let mut seen = std::collections::HashSet::new();
    for c in player.hand() {
        seen.insert(format!("{c:?}"));
    }
    assert_eq!(seen.len(), 52);
    let mut unshuffled = Player::new();
    unshuffled.draw_n_times(60);
    assert_ne!(player.hand(), unshuffled.hand());
}

#[test]
fn playing_cards_from_the_hand() {
    let mut player = Player::new();
    player.set_name("Ann".to_string());
    let king = Card::new(Suit::Diamonds, Value::King);
    let eight = Card::new(Suit::Diamonds, Value::Eight);
    let action = player.play_king_queen(&king, Some(eight), "Bob").unwrap();
    assert_eq!(*action.action_type(), ActionType::PlayKing);
    assert_eq!(*action.attachment(), 8);
    assert_eq!(action.from_player(), "Ann");
    assert_eq!(action.to_player(), "Bob");
    assert_eq!(player.hand_size(), 4);
    assert!(player.play_king_queen(&king, None, "Bob").is_none());
    assert_eq!(player.hand_size(), 4);

    let nine = Card::new(Suit::Diamonds, Value::Nine);
    let played = player.play_number(&nine).unwrap();
    assert_eq!(played.to_string(), "N,9,Ann,");
    assert_eq!(player.hand_size(), 3 + 9);
    assert_eq!(player.deck_size(), 46 - 9);
    assert!(player.play_number(&nine).is_none());
    assert_eq!(player.remove_card_from_hand(&Card::new(Suit::Diamonds, Value::Queen)), Some(()));
    assert_eq!(player.remove_card_from_hand(&Card::new(Suit::Diamonds, Value::Queen)), None);
}

#[test]
fn shuffled_turn_order_keeps_players() {
    let mut g = registry(&[("A", 1), ("B", 2), ("C", 3), ("D", 4)]);
    g.move_next_player();
    g.shuffle_players();
    assert_eq!(g.current_player_index(), 0);
    assert_eq!(g.num_players(), 4);
    let mut names: Vec<(String, u16)> = g
        .all_players()
        .iter()
        .map(|p| (p.name().to_string(), p.points()))
        .collect();
    names.sort();
    assert_eq!(
        names,
        vec![("A".to_string(), 1), ("B".to_string(), 2), ("C".to_string(), 3), ("D".to_string(), 4)]
    );
}

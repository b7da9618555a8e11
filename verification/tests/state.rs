use coup::action::{Action, PlayerID};
use coup::identity::Identity;
use coup::state::{GameState, PlayerState};

fn state_of(lives: &[u8]) -> GameState {
    let order: Vec<PlayerID> = (0..lives.len()).map(|i| PlayerID(i as u8)).collect();
    let mut state = GameState::new(3, order);
    for (i, count) in lives.iter().enumerate() {
        state.player_states.push(PlayerState::new(format!("seat{}", i), *count));
    }
    state.update_active_players();
    state
}

#[test]
fn a_new_player_state_has_two_coins_and_nothing_lost() {
    let seat = PlayerState::new("Don".to_string(), 2);
    assert_eq!(seat.get_name(), "Don");
    assert_eq!(seat.num_coins, 2);
    assert_eq!(seat.num_lives, 2);
    assert!(seat.lost_lives.is_empty());
    assert!(seat.is_alive());
    assert!(!PlayerState::new("Gone".to_string(), 0).is_alive());
    assert!(PlayerState::new("Last".to_string(), 1).is_alive());
}

#[test]
fn a_new_record_counts_everyone_of_the_turn_order_as_active() {
    let order = vec![PlayerID(1), PlayerID(0)];
    let state = GameState::new(4, order.clone());
    assert_eq!(state.num_cards, 4);
    assert!(state.player_states.is_empty());
    assert_eq!(state.turn_order, order);
    assert_eq!(state.active_players, order);
}

#[test]
fn the_active_players_are_the_living_in_turn_order() {
    let mut state = state_of(&[2, 0, 1, 0, 2]);
    assert_eq!(state.active_players, vec![PlayerID(0), PlayerID(2), PlayerID(4)]);
    assert_eq!(
        state.active_players(&vec![PlayerID(4), PlayerID(3), PlayerID(2), PlayerID(4)]),
        vec![PlayerID(4), PlayerID(2), PlayerID(4)]
    );
    assert!(state.active_players(&Vec::new()).is_empty());
    assert!(state.is_active(&PlayerID(2)));
    assert!(!state.is_active(&PlayerID(1)));
    assert!(!state.is_active(&PlayerID(9)));
    state.player_states[2].num_lives = 0;
    // the list is as old as its last update
    assert!(state.is_active(&PlayerID(2)));
    assert!(!state.is_player_alive(&PlayerID(2)));
    state.update_active_players();
    assert!(!state.is_active(&PlayerID(2)));
    assert_eq!(state.active_players, vec![PlayerID(0), PlayerID(4)]);
}

#[test]
fn the_game_is_over_with_one_player_left_or_none() {
    let all = |n: u8| (0..n).map(PlayerID).collect::<Vec<_>>();
    assert!(!state_of(&[2, 2]).game_over(&all(2)));
    assert!(!state_of(&[1, 0, 1]).game_over(&all(3)));
    assert!(state_of(&[1, 0, 0]).game_over(&all(3)));
    assert!(state_of(&[0, 0]).game_over(&all(2)));
    assert!(state_of(&[]).game_over(&all(0)));
    assert!(state_of(&[2]).game_over(&all(1)));
    // only the players that are asked about count
    assert!(state_of(&[2, 2]).game_over(&vec![PlayerID(1)]));
}

#[test]
fn the_first_rival_is_the_first_other_active_player() {
    let state = state_of(&[2, 0, 1, 2]);
    assert_eq!(state.first_rival(&PlayerID(0)), Some(PlayerID(2)));
    assert_eq!(state.first_rival(&PlayerID(2)), Some(PlayerID(0)));
    assert_eq!(state.first_rival(&PlayerID(1)), Some(PlayerID(0)));
    assert_eq!(state.first_rival(&PlayerID(3)), Some(PlayerID(0)));
    assert_eq!(state.first_rival(&PlayerID(9)), Some(PlayerID(0)));
    assert_eq!(state_of(&[2, 0]).first_rival(&PlayerID(0)), None);
    assert_eq!(state_of(&[0, 0]).first_rival(&PlayerID(0)), None);
}

#[test]
fn players_are_looked_up_by_their_key() {
    let mut state = state_of(&[2, 1]);
    state.player_states[1].num_coins = 9;
    state.player_states[1].lost_lives.push(Identity::Duke);
    assert!(state.has_player(&PlayerID(1)));
    assert!(!state.has_player(&PlayerID(2)));
    assert_eq!(state.get_player_name(&PlayerID(1)), "seat1");
    assert_eq!(state.coins(&PlayerID(0)), 2);
    assert_eq!(state.coins(&PlayerID(1)), 9);
    assert_eq!(state.lives(&PlayerID(1)), 1);
    assert!(state.is_player_alive(&PlayerID(0)));
}

#[test]
fn the_turn_order_can_be_set() {
    let mut state = state_of(&[2, 2, 2]);
    state.update_turn_order(vec![PlayerID(2), PlayerID(0)]);
    assert_eq!(state.turn_order, vec![PlayerID(2), PlayerID(0)]);
    assert_eq!(state.active_players, vec![PlayerID(0), PlayerID(1), PlayerID(2)]);
    state.update_active_players();
    assert_eq!(state.active_players, vec![PlayerID(2), PlayerID(0)]);
}

#[test]
fn an_action_is_shown_with_the_name_of_its_target() {
    let state = state_of(&[2, 2]);
    assert_eq!(state.display_action(Action::Income), "Income");
    assert_eq!(state.display_action(Action::ForeignAid), "Foreign Aid");
    assert_eq!(state.display_action(Action::Assassinate(PlayerID(1))), "Assassinate seat1");
    assert_eq!(state.display_action(Action::Coup(PlayerID(0))), "Coup seat0");
    assert_eq!(state.display_action(Action::Steal(PlayerID(1))), "Steal from seat1");
    assert_eq!(state.display_action(Action::BlockAssassination), "Contess");
    assert_eq!(state.display_action(Action::BlockStealAmbassador), "Block as Ambassador");
}

#[test]
fn a_player_is_shown_with_lives_coins_and_what_they_lost() {
    let mut seat = PlayerState::new("Don".to_string(), 2);
    assert_eq!(seat.describe(), "Don:\n\tLives: 2\n\tCoins: 2\n");
    seat.num_coins = 107;
    seat.num_lives = 0;
    seat.lost_lives.push(Identity::Duke);
    seat.lost_lives.push(Identity::Contessa);
    assert_eq!(
        seat.describe(),
        "Don:\n\tLives: 0\n\tCoins: 107\n\tLost Identities: Duke Contessa \n"
    );
    seat.num_coins = 255;
    seat.num_lives = 10;
    seat.lost_lives.clear();
    assert_eq!(seat.describe(), "Don:\n\tLives: 10\n\tCoins: 255\n");
}

#[test]
fn the_game_is_shown_player_by_player() {
    let mut state = state_of(&[2, 1]);
    assert_eq!(
        state.describe(),
        "seat0:\n\tLives: 2\n\tCoins: 2\n\nseat1:\n\tLives: 1\n\tCoins: 2\n\n"
    );
    state.update_turn_order(vec![PlayerID(1)]);
    assert_eq!(state.describe(), "seat1:\n\tLives: 1\n\tCoins: 2\n\n");
    state.update_turn_order(Vec::new());
    assert_eq!(state.describe(), "");
}

#[test]
fn numbers_are_written_in_decimal() {
    for n in 0..=255u8 {
        assert_eq!(coup::report::number(n), n.to_string());
    }
    assert_eq!(coup::report::digit_char(0), '0');
    assert_eq!(coup::report::digit_char(9), '9');
}

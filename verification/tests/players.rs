use coup::action::{Action, PlayerID};
use coup::any_player::AnyPlayer;
use coup::dumb_player::DumbPlayer;
use coup::human_player::HumanPlayer;
use coup::identity::Identity;
use coup::player::{is_on_offer, OutOfRange, Player};
use coup::prompter::{PromptError, PromptInfo, Prompter};
use coup::random_player::RandomPlayer;
use coup::state::{GameState, PlayerState};

/// A prompter that says yes, and picks the theft or the second card.
struct Eager;

impl Prompter for Eager {
    fn prompt_player(&self, _prompt_info: Option<PromptInfo>) -> Result<String, PromptError> {
        Err(PromptError::NoAnswer)
    }

    fn prompt_player_choice(
        &self,
        _question: &str,
        _possible_choices: Vec<Identity>,
        _prompt_info: Option<PromptInfo>,
    ) -> Result<usize, PromptError> {
        Ok(1)
    }

    fn prompt_player_for_action(
        &self,
        _question: &str,
        possible_actions: Vec<Action>,
        _prompt_info: PromptInfo,
    ) -> Result<Action, PromptError> {
        Ok(*possible_actions.last().unwrap())
    }

    fn prompt_player_yes_no(
        &self,
        _question: &str,
        _prompt_info: Option<PromptInfo>,
    ) -> Result<bool, PromptError> {
        Ok(true)
    }
}

fn state_of(coins: &[u8], lives: &[u8]) -> GameState {
    let order: Vec<PlayerID> = (0..coins.len()).map(|i| PlayerID(i as u8)).collect();
    let mut state = GameState::new(3, order);
    for i in 0..coins.len() {
        let mut seat = PlayerState::new(format!("seat{}", i), lives[i]);
        seat.num_coins = coins[i];
        state.player_states.push(seat);
    }
    state.update_active_players();
    state
}

#[test]
fn a_card_is_taken_into_a_hand_that_has_room() {
    let state = state_of(&[2, 2], &[2, 2]);
    let mut player = DumbPlayer::new(PlayerID(0));
    assert_eq!(*player.who_am_i(), PlayerID(0));
    assert!(player.get_hand().is_empty());
    assert!(!player.hand_full());
    assert_eq!(player.take_card(&state, Identity::Duke), None);
    assert_eq!(player.take_card(&state, Identity::Captain), None);
    assert_eq!(player.get_hand(), vec![Identity::Duke, Identity::Captain]);
    assert!(player.hand_full());
}

#[test]
fn a_full_hand_hands_back_the_card_that_does_not_stay() {
    let state = state_of(&[2, 2], &[2, 2]);
    let mut player = DumbPlayer::new(PlayerID(0));
    player.set_hand(vec![Identity::Duke, Identity::Captain]);
    // this player never gives up a card for a new one
    assert_eq!(player.take_card(&state, Identity::Contessa), Some(Identity::Contessa));
    assert_eq!(player.get_hand(), vec![Identity::Duke, Identity::Captain]);
    let mut random = RandomPlayer::new(PlayerID(1));
    random.set_hand(vec![Identity::Duke, Identity::Captain]);
    for _ in 0..50 {
        let before = random.get_hand();
        let back = random.take_card(&state, Identity::Contessa).unwrap();
        let after = random.get_hand();
        assert_eq!(after.len(), 2);
        if back == Identity::Contessa && after == before {
            continue;
        }
        // the first card has made room for the new one
        assert_eq!(back, before[0]);
        assert_eq!(after, vec![Identity::Contessa, before[1]]);
    }
}

#[test]
fn a_card_is_replaced_in_its_place() {
    let mut player = DumbPlayer::new(PlayerID(0));
    player.set_hand(vec![Identity::Duke, Identity::Captain]);
    assert_eq!(player.replace_card(1, Identity::Assassin), Identity::Captain);
    assert_eq!(player.get_hand(), vec![Identity::Duke, Identity::Assassin]);
    assert_eq!(player.replace_card(0, Identity::Contessa), Identity::Duke);
    assert_eq!(player.get_hand(), vec![Identity::Contessa, Identity::Assassin]);
}

#[test]
fn a_card_is_discarded_at_its_index() {
    let mut player = DumbPlayer::new(PlayerID(0));
    player.set_hand(vec![Identity::Duke, Identity::Captain]);
    assert_eq!(player.discard(2), Err(OutOfRange { index: 2, hand_size: 2 }));
    assert_eq!(player.get_hand(), vec![Identity::Duke, Identity::Captain]);
    assert_eq!(player.discard(1), Ok(Identity::Captain));
    assert_eq!(player.get_hand(), vec![Identity::Duke]);
    assert_eq!(player.discard(1), Err(OutOfRange { index: 1, hand_size: 1 }));
    assert_eq!(player.discard(0), Ok(Identity::Duke));
    assert_eq!(player.discard(0), Err(OutOfRange { index: 0, hand_size: 0 }));
    assert!(player.get_hand().is_empty());
}

#[test]
fn a_life_costs_the_card_that_the_player_picks() {
    let state = state_of(&[2, 2], &[2, 2]);
    let mut player = DumbPlayer::new(PlayerID(0));
    player.set_hand(vec![Identity::Duke, Identity::Captain]);
    assert_eq!(player.lose_life(&state), Identity::Duke);
    assert_eq!(player.get_hand(), vec![Identity::Captain]);
    assert_eq!(player.lose_challenge(&state), Identity::Captain);
    assert!(player.get_hand().is_empty());
}

#[test]
fn a_player_can_do_what_their_hand_backs() {
    let mut player = DumbPlayer::new(PlayerID(0));
    let target = PlayerID(1);
    for action in [Action::Income, Action::ForeignAid, Action::Coup(target)] {
        assert!(player.can_do_action(&action));
    }
    for action in [
        Action::Tax,
        Action::Exchange,
        Action::Steal(target),
        Action::Assassinate(target),
        Action::BlockForeignAid,
        Action::BlockAssassination,
        Action::BlockStealCaptain,
        Action::BlockStealAmbassador,
    ] {
        assert!(!player.can_do_action(&action));
    }
    player.set_hand(vec![Identity::Duke, Identity::Captain]);
    assert!(player.has_identity(Identity::Duke));
    assert!(player.has_identity(Identity::Captain));
    assert!(!player.has_identity(Identity::Contessa));
    assert!(player.can_do_action(&Action::Tax));
    assert!(player.can_do_action(&Action::BlockForeignAid));
    assert!(player.can_do_action(&Action::Steal(target)));
    assert!(player.can_do_action(&Action::BlockStealCaptain));
    assert!(!player.can_do_action(&Action::BlockStealAmbassador));
    assert!(!player.can_do_action(&Action::Exchange));
    assert!(!player.can_do_action(&Action::Assassinate(target)));
    assert!(!player.can_do_action(&Action::BlockAssassination));
    player.set_hand(vec![Identity::Ambassador, Identity::Assassin]);
    assert!(player.can_do_action(&Action::Exchange));
    assert!(player.can_do_action(&Action::BlockStealAmbassador));
    assert!(player.can_do_action(&Action::Assassinate(target)));
    player.set_hand(vec![Identity::Contessa]);
    assert!(player.can_do_action(&Action::BlockAssassination));
}

#[test]
fn the_actions_on_offer_go_by_coins_and_active_players() {
    let state = state_of(&[2, 3, 7, 9], &[2, 0, 1, 2]);
    let poor = DumbPlayer::new(PlayerID(0));
    assert_eq!(poor.count_coins(&state), 2);
    assert_eq!(poor.get_other_active_players(&state), vec![PlayerID(2), PlayerID(3)]);
    assert_eq!(
        poor.get_available_actions(&state),
        vec![
            Action::Income,
            Action::ForeignAid,
            Action::Tax,
            Action::Exchange,
            Action::Steal(PlayerID(2)),
            Action::Steal(PlayerID(3)),
        ]
    );
    let rich = DumbPlayer::new(PlayerID(2));
    assert_eq!(rich.get_other_active_players(&state), vec![PlayerID(0), PlayerID(3)]);
    assert_eq!(
        rich.get_available_actions(&state),
        vec![
            Action::Income,
            Action::ForeignAid,
            Action::Tax,
            Action::Exchange,
            Action::Steal(PlayerID(0)),
            Action::Assassinate(PlayerID(0)),
            Action::Coup(PlayerID(0)),
            Action::Steal(PlayerID(3)),
            Action::Assassinate(PlayerID(3)),
            Action::Coup(PlayerID(3)),
        ]
    );
    let middle = DumbPlayer::new(PlayerID(1));
    assert_eq!(
        middle.get_available_actions(&state)[4..],
        [
            Action::Steal(PlayerID(0)),
            Action::Assassinate(PlayerID(0)),
            Action::Steal(PlayerID(2)),
            Action::Assassinate(PlayerID(2)),
            Action::Steal(PlayerID(3)),
            Action::Assassinate(PlayerID(3)),
        ]
    );
    for player in [&poor, &rich, &middle] {
        let me = *player.who_am_i();
        let offered = player.get_available_actions(&state);
        for target in 0..5u8 {
            for action in [
                Action::Income,
                Action::Exchange,
                Action::BlockForeignAid,
                Action::Steal(PlayerID(target)),
                Action::Assassinate(PlayerID(target)),
                Action::Coup(PlayerID(target)),
            ] {
                assert_eq!(is_on_offer(&state, &me, &action), offered.contains(&action));
            }
        }
    }
}

#[test]
fn the_dumb_player_takes_income_and_keeps_quiet() {
    let state = state_of(&[2, 2, 2], &[2, 2, 2]);
    let player = DumbPlayer::new(PlayerID(1));
    assert_eq!(player.choose_action(&state), Action::Income);
    assert!(!player.will_challenge(&state, &PlayerID(0), &Action::Tax));
    assert_eq!(player.will_block(&state, &PlayerID(0), &Action::Steal(PlayerID(1))), None);
    assert_eq!(player.choose_card_to_replace(&state, &Identity::Duke), None);
    assert_eq!(player.choose_card_to_lose(&state), 0);
    assert_eq!(player.choose_forced_coup(&state), PlayerID(0));
    assert_eq!(DumbPlayer::new(PlayerID(0)).choose_forced_coup(&state), PlayerID(1));
}

#[test]
fn the_random_player_picks_what_is_open_to_them() {
    let state = state_of(&[8, 2, 2], &[2, 0, 2]);
    let player = RandomPlayer::new(PlayerID(0));
    let offered = vec![
        Action::Income,
        Action::ForeignAid,
        Action::Tax,
        Action::Steal(PlayerID(2)),
        Action::Assassinate(PlayerID(2)),
        Action::Coup(PlayerID(2)),
    ];
    let mut seen = Vec::new();
    for _ in 0..400 {
        let action = player.choose_action(&state);
        assert!(offered.contains(&action));
        assert!(is_on_offer(&state, &PlayerID(0), &action));
        if !seen.contains(&action) {
            seen.push(action);
        }
    }
    // chance has picked more than one of them
    assert!(seen.len() > 1);
    assert_eq!(player.choose_forced_coup(&state), PlayerID(2));
    assert_eq!(player.choose_card_to_lose(&state), 0);
    let victim = RandomPlayer::new(PlayerID(2));
    let theft = Action::Steal(PlayerID(2));
    for _ in 0..50 {
        let block = victim.will_block(&state, &PlayerID(0), &theft);
        assert!(
            block.is_none()
                || block == Some(Action::BlockStealCaptain)
                || block == Some(Action::BlockStealAmbassador)
        );
        assert_eq!(player.will_block(&state, &PlayerID(0), &theft), None);
        assert_eq!(victim.will_block(&state, &PlayerID(0), &Action::Tax), None);
        let replace = victim.choose_card_to_replace(&state, &Identity::Duke);
        assert!(replace.is_none() || replace == Some(0));
    }
}

#[test]
fn chance_picks_one_of_the_options() {
    let mut options = vec![3u8, 1, 4, 1, 5, 9, 2, 6];
    for _ in 0..50 {
        let picked = RandomPlayer::choose_random(&mut options);
        assert!([3u8, 1, 4, 5, 9, 2, 6].contains(&picked));
        let mut sorted = options.clone();
        sorted.sort();
        assert_eq!(sorted, vec![1, 1, 2, 3, 4, 5, 6, 9]);
    }
    let mut single = vec![7u8];
    assert_eq!(RandomPlayer::choose_random(&mut single), 7);
}

#[test]
fn a_player_of_any_kind_decides_as_the_player_inside() {
    let state = state_of(&[8, 2, 2], &[2, 0, 2]);
    let theft = Action::Steal(PlayerID(0));
    let dumb: AnyPlayer<Eager> = AnyPlayer::Dumb(DumbPlayer::new(PlayerID(0)));
    assert_eq!(*dumb.who_am_i(), PlayerID(0));
    assert_eq!(dumb.choose_action(&state), Action::Income);
    assert!(!dumb.will_challenge(&state, &PlayerID(2), &Action::Tax));
    assert_eq!(dumb.will_block(&state, &PlayerID(2), &theft), None);
    assert_eq!(dumb.choose_card_to_replace(&state, &Identity::Duke), None);
    assert_eq!(dumb.choose_card_to_lose(&state), 0);
    assert_eq!(dumb.choose_forced_coup(&state), PlayerID(2));

    let random: AnyPlayer<Eager> = AnyPlayer::Random(RandomPlayer::new(PlayerID(0)));
    let options = vec![
        Action::Income,
        Action::ForeignAid,
        Action::Tax,
        Action::Steal(PlayerID(2)),
        Action::Assassinate(PlayerID(2)),
        Action::Coup(PlayerID(2)),
    ];
    for _ in 0..100 {
        assert!(options.contains(&random.choose_action(&state)));
        let block = random.will_block(&state, &PlayerID(2), &theft);
        assert!(
            block.is_none()
                || block == Some(Action::BlockStealCaptain)
                || block == Some(Action::BlockStealAmbassador)
        );
        let replace = random.choose_card_to_replace(&state, &Identity::Duke);
        assert!(replace.is_none() || replace == Some(0));
    }
    assert_eq!(random.choose_card_to_lose(&state), 0);
    assert_eq!(random.choose_forced_coup(&state), PlayerID(2));

    let human: AnyPlayer<Eager> = AnyPlayer::Human(HumanPlayer::new(PlayerID(0), Eager));
    assert_eq!(human.choose_action(&state), Action::Coup(PlayerID(2)));
    assert!(human.will_challenge(&state, &PlayerID(2), &Action::Tax));
    assert_eq!(human.will_block(&state, &PlayerID(2), &theft), Some(Action::BlockStealAmbassador));
    assert_eq!(human.will_block(&state, &PlayerID(2), &Action::Tax), None);
    assert_eq!(human.choose_card_to_replace(&state, &Identity::Duke), Some(1));
    assert_eq!(human.choose_card_to_lose(&state), 1);
    assert_eq!(human.choose_forced_coup(&state), PlayerID(2));
    assert_eq!(Eager::display_action(&state, theft), "Steal from seat0");
    assert_eq!(Eager::display_action(&state, Action::Exchange), "Exchange");
}

#[test]
fn a_player_of_any_kind_keeps_the_hand_of_the_player_inside() {
    let state = state_of(&[2, 2], &[2, 2]);
    let mut player: AnyPlayer<Eager> = AnyPlayer::Random(RandomPlayer::new(PlayerID(1)));
    assert_eq!(player.take_card(&state, Identity::Duke), None);
    assert_eq!(player.take_card(&state, Identity::Captain), None);
    assert_eq!(player.get_hand(), vec![Identity::Duke, Identity::Captain]);
    assert_eq!(player.discard(0), Ok(Identity::Duke));
    player.set_hand(vec![Identity::Contessa]);
    assert_eq!(player.get_hand(), vec![Identity::Contessa]);
    assert!(player.can_do_action(&Action::BlockAssassination));
}

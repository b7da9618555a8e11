use coup::action::{Action, PlayerID};
use coup::any_player::AnyPlayer;
use coup::config::{PlayerConfig, PlayerType};
use coup::game::Game;
use coup::identity::{Identity, IdentitySet};
use coup::logger::Logger;
use coup::prompter::{PromptError, PromptInfo, Prompter};
use coup::state::GameRules;
use coup::turn::{Block, Verdict};
use std::cell::RefCell;
use std::collections::VecDeque;
use std::rc::Rc;

#[derive(Clone, Default)]
struct Journal {
    lines: Rc<RefCell<Vec<String>>>,
}

impl Logger for Journal {
    fn log(&self, message: String) {
        self.lines.borrow_mut().push(message);
    }

    fn present(&self, message: String) {
        self.lines.borrow_mut().push(message);
    }
}

/// A prompter that answers from lists that the test has written.
#[derive(Default)]
struct Script {
    actions: RefCell<VecDeque<Action>>,
    yes_no: RefCell<VecDeque<bool>>,
    choices: RefCell<VecDeque<usize>>,
}

impl Script {
    fn new(actions: Vec<Action>, yes_no: Vec<bool>, choices: Vec<usize>) -> Self {
        Script {
            actions: RefCell::new(actions.into()),
            yes_no: RefCell::new(yes_no.into()),
            choices: RefCell::new(choices.into()),
        }
    }
}

impl Prompter for Script {
    fn prompt_player(&self, _prompt_info: Option<PromptInfo>) -> Result<String, PromptError> {
        Err(PromptError::NoAnswer)
    }

    fn prompt_player_choice(
        &self,
        _question: &str,
        _possible_choices: Vec<Identity>,
        _prompt_info: Option<PromptInfo>,
    ) -> Result<usize, PromptError> {
        self.choices.borrow_mut().pop_front().ok_or(PromptError::NoAnswer)
    }

    fn prompt_player_for_action(
        &self,
        _question: &str,
        _possible_actions: Vec<Action>,
        _prompt_info: PromptInfo,
    ) -> Result<Action, PromptError> {
        self.actions.borrow_mut().pop_front().ok_or(PromptError::NoAnswer)
    }

    fn prompt_player_yes_no(
        &self,
        _question: &str,
        _prompt_info: Option<PromptInfo>,
    ) -> Result<bool, PromptError> {
        self.yes_no.borrow_mut().pop_front().ok_or(PromptError::NoAnswer)
    }
}

fn only(cards: &[Identity]) -> IdentitySet {
    let mut set = IdentitySet::empty();
    for card in cards {
        set.insert(*card);
    }
    set
}

fn seat(kind: PlayerType, name: &str) -> PlayerConfig {
    PlayerConfig::new(kind, name.to_string())
}

fn rules(cards: u8, coins: u8, lives: u8, coup: u8) -> GameRules {
    GameRules {
        starting_cards: cards,
        starting_coins: coins,
        starting_lives: lives,
        required_coup_coins: coup,
    }
}

#[test]
fn coup_with_seven_coins_on_a_player_with_one_life_ends_the_game() {
    let journal = Journal::default();
    let players = vec![seat(PlayerType::DumbCPU, "Ann"), seat(PlayerType::DumbCPU, "Bob")];
    let mut game: Game<AnyPlayer<Script>, Journal> = Game::with_rules(
        only(&[Identity::Duke]),
        players,
        Vec::new(),
        journal.clone(),
        rules(1, 7, 1, 7),
    )
    .unwrap();
    game.setup();
    assert_eq!(game.hand_of(&PlayerID(1)), vec![Identity::Duke]);
    let summary = game.take_turn(&PlayerID(0)).unwrap();
    assert_eq!(summary.action, Action::Coup(PlayerID(1)));
    assert_eq!(summary.block, None);
    assert!(summary.applied);
    assert_eq!(game.state().coins(&PlayerID(0)), 0);
    assert_eq!(game.state().lives(&PlayerID(1)), 0);
    assert!(game.hand_of(&PlayerID(1)).is_empty());
    assert_eq!(game.state().player_states[1].lost_lives, vec![Identity::Duke]);
    assert!(game.game_over());
    assert_eq!(game.winner(), Some(PlayerID(0)));
    assert_eq!(game.present_game_results(), "Ann won!");
    assert_eq!(journal.lines.borrow().last().unwrap(), "Ann won!");
}

#[test]
fn tax_without_duke_is_exposed_and_brings_no_coins() {
    let players = vec![seat(PlayerType::Local, "Actor"), seat(PlayerType::Local, "Doubter")];
    let prompters = vec![
        Script::new(vec![Action::Tax], vec![], vec![1]),
        Script::new(vec![], vec![true], vec![]),
    ];
    let mut game: Game<AnyPlayer<Script>, Journal> = Game::with_rules(
        only(&[Identity::Captain, Identity::Contessa]),
        players,
        prompters,
        Journal::default(),
        rules(2, 2, 2, 10),
    )
    .unwrap();
    game.setup();
    let hand = game.hand_of(&PlayerID(0));
    assert!(!hand.contains(&Identity::Duke));
    let summary = game.take_turn(&PlayerID(0)).unwrap();
    assert_eq!(summary.action, Action::Tax);
    assert_eq!(summary.block, None);
    assert_eq!(summary.on_action, Verdict::Exposed { challenger: PlayerID(1) });
    assert!(!summary.applied);
    assert_eq!(game.state().lives(&PlayerID(0)), 1);
    assert_eq!(game.state().coins(&PlayerID(0)), 2);
    assert_eq!(game.hand_of(&PlayerID(0)), vec![hand[0]]);
    assert_eq!(game.state().player_states[0].lost_lives, vec![hand[1]]);
    assert_eq!(game.state().lives(&PlayerID(1)), 2);
    assert_eq!(game.state().coins(&PlayerID(1)), 2);
    assert_eq!(game.hand_of(&PlayerID(1)).len(), 2);
}

#[test]
fn theft_from_a_player_with_one_coin_brings_one_coin() {
    let players = vec![seat(PlayerType::Local, "Thief"), seat(PlayerType::DumbCPU, "Victim")];
    let prompters = vec![Script::new(vec![Action::Steal(PlayerID(1))], vec![], vec![])];
    let mut game: Game<AnyPlayer<Script>, Journal> = Game::with_rules(
        only(&[Identity::Captain, Identity::Duke]),
        players,
        prompters,
        Journal::default(),
        rules(2, 1, 2, 10),
    )
    .unwrap();
    game.setup();
    let summary = game.take_turn(&PlayerID(0)).unwrap();
    assert_eq!(summary.action, Action::Steal(PlayerID(1)));
    assert_eq!(summary.block, None);
    assert_eq!(summary.on_action, Verdict::Unchallenged);
    assert!(summary.applied);
    assert_eq!(game.state().coins(&PlayerID(1)), 0);
    assert_eq!(game.state().coins(&PlayerID(0)), 2);
    assert_eq!(game.state().lives(&PlayerID(0)), 2);
    assert_eq!(game.state().lives(&PlayerID(1)), 2);
}

#[test]
fn a_block_of_foreign_aid_that_is_upheld_stands() {
    let journal = Journal::default();
    let players = vec![
        seat(PlayerType::Local, "Actor"),
        seat(PlayerType::Local, "Blocker"),
        seat(PlayerType::DumbCPU, "Third"),
    ];
    let prompters = vec![
        // declares foreign aid, then challenges the block, then picks the card to lose
        Script::new(vec![Action::ForeignAid], vec![true], vec![0]),
        // wants to block, and blocks as duke
        Script::new(vec![Action::BlockForeignAid], vec![true], vec![]),
    ];
    let mut game: Game<AnyPlayer<Script>, Journal> = Game::with_rules(
        only(&[Identity::Duke]),
        players,
        prompters,
        journal.clone(),
        rules(1, 2, 1, 10),
    )
    .unwrap();
    game.setup();
    assert_eq!(game.hand_of(&PlayerID(1)), vec![Identity::Duke]);
    let summary = game.take_turn(&PlayerID(0)).unwrap();
    assert_eq!(summary.action, Action::ForeignAid);
    assert_eq!(
        summary.block,
        Some(Block { blocker: PlayerID(1), counter: Action::BlockForeignAid })
    );
    assert_eq!(summary.on_block, Verdict::Upheld { challenger: PlayerID(0) });
    assert_eq!(summary.on_action, Verdict::Unchallenged);
    assert!(!summary.applied);
    // the challenger has lost a life, the blocker none
    assert_eq!(game.state().lives(&PlayerID(0)), 0);
    assert_eq!(game.state().lives(&PlayerID(1)), 1);
    assert_eq!(game.state().lives(&PlayerID(2)), 1);
    // the grant was not paid out
    assert_eq!(game.state().coins(&PlayerID(0)), 2);
    assert_eq!(game.state().coins(&PlayerID(1)), 2);
    let lines = journal.lines.borrow();
    assert!(lines.contains(&"Actor chose action Foreign Aid".to_string()));
    assert!(lines
        .contains(&"Blocker is blocking Actor's Foreign Aid with Block Foreign Aid".to_string()));
    assert!(lines.contains(&"Actor is challenging Blocker's Block Foreign Aid".to_string()));
    assert!(lines.contains(&"Actor lost the challenge".to_string()));
    assert!(lines.contains(&"Actor discarded Duke".to_string()));
}

#[test]
fn a_block_that_is_not_challenged_stops_the_action() {
    let players = vec![seat(PlayerType::Local, "Actor"), seat(PlayerType::Local, "Blocker")];
    let prompters = vec![
        Script::new(vec![Action::ForeignAid], vec![false], vec![]),
        Script::new(vec![Action::BlockForeignAid], vec![true], vec![]),
    ];
    let mut game: Game<AnyPlayer<Script>, Journal> = Game::with_rules(
        only(&[Identity::Captain, Identity::Contessa]),
        players,
        prompters,
        Journal::default(),
        rules(2, 2, 2, 10),
    )
    .unwrap();
    game.setup();
    let summary = game.take_turn(&PlayerID(0)).unwrap();
    assert_eq!(summary.on_block, Verdict::Unchallenged);
    assert!(!summary.applied);
    assert_eq!(game.state().coins(&PlayerID(0)), 2);
    assert_eq!(game.state().lives(&PlayerID(0)), 2);
    assert_eq!(game.state().lives(&PlayerID(1)), 2);
}

#[test]
fn a_block_that_is_exposed_lets_the_action_through() {
    let players = vec![seat(PlayerType::Local, "Actor"), seat(PlayerType::Local, "Blocker")];
    let prompters = vec![
        Script::new(vec![Action::ForeignAid], vec![true], vec![]),
        Script::new(vec![Action::BlockForeignAid], vec![true], vec![0]),
    ];
    let mut game: Game<AnyPlayer<Script>, Journal> = Game::with_rules(
        only(&[Identity::Captain, Identity::Contessa]),
        players,
        prompters,
        Journal::default(),
        rules(2, 2, 2, 10),
    )
    .unwrap();
    game.setup();
    let summary = game.take_turn(&PlayerID(0)).unwrap();
    assert_eq!(summary.on_block, Verdict::Exposed { challenger: PlayerID(0) });
    // foreign aid claims no identity, so it is not open to challenge
    assert_eq!(summary.on_action, Verdict::Unchallenged);
    assert!(summary.applied);
    assert_eq!(game.state().coins(&PlayerID(0)), 4);
    assert_eq!(game.state().lives(&PlayerID(0)), 2);
    assert_eq!(game.state().lives(&PlayerID(1)), 1);
}

#[test]
fn an_exposed_block_that_ends_the_game_ends_the_turn() {
    let players = vec![seat(PlayerType::Local, "Actor"), seat(PlayerType::Local, "Blocker")];
    let prompters = vec![
        Script::new(vec![Action::ForeignAid], vec![true], vec![]),
        Script::new(vec![Action::BlockForeignAid], vec![true], vec![0]),
    ];
    let mut game: Game<AnyPlayer<Script>, Journal> = Game::with_rules(
        only(&[Identity::Captain]),
        players,
        prompters,
        Journal::default(),
        rules(1, 2, 1, 10),
    )
    .unwrap();
    game.setup();
    let summary = game.take_turn(&PlayerID(0)).unwrap();
    assert_eq!(summary.on_block, Verdict::Exposed { challenger: PlayerID(0) });
    assert!(!summary.applied);
    assert!(game.game_over());
    assert_eq!(game.winner(), Some(PlayerID(0)));
    assert_eq!(game.state().coins(&PlayerID(0)), 2);
}

#[test]
fn an_action_that_is_upheld_goes_through() {
    let players = vec![
        seat(PlayerType::Local, "Actor"),
        seat(PlayerType::Local, "Doubter"),
        seat(PlayerType::DumbCPU, "Third"),
    ];
    let prompters = vec![
        Script::new(vec![Action::Tax], vec![], vec![]),
        Script::new(vec![], vec![true], vec![0]),
    ];
    let mut game: Game<AnyPlayer<Script>, Journal> = Game::with_rules(
        only(&[Identity::Duke]),
        players,
        prompters,
        Journal::default(),
        rules(1, 2, 1, 10),
    )
    .unwrap();
    game.setup();
    let summary = game.take_turn(&PlayerID(0)).unwrap();
    assert_eq!(summary.on_action, Verdict::Upheld { challenger: PlayerID(1) });
    assert!(summary.applied);
    assert_eq!(game.state().coins(&PlayerID(0)), 5);
    assert_eq!(game.state().lives(&PlayerID(0)), 1);
    assert_eq!(game.state().lives(&PlayerID(1)), 0);
    assert!(!game.game_over());
}

#[test]
fn the_first_to_block_is_the_blocker() {
    let players = vec![
        seat(PlayerType::Local, "Actor"),
        seat(PlayerType::Local, "Second"),
        seat(PlayerType::Local, "Third"),
    ];
    let prompters = vec![
        Script::new(vec![Action::ForeignAid], vec![false], vec![]),
        Script::new(vec![], vec![false], vec![]),
        Script::new(vec![Action::BlockForeignAid], vec![true, true], vec![]),
    ];
    let mut game: Game<AnyPlayer<Script>, Journal> = Game::with_rules(
        only(&[Identity::Captain, Identity::Contessa]),
        players,
        prompters,
        Journal::default(),
        rules(2, 2, 2, 10),
    )
    .unwrap();
    game.setup();
    let summary = game.take_turn(&PlayerID(0)).unwrap();
    assert_eq!(
        summary.block,
        Some(Block { blocker: PlayerID(2), counter: Action::BlockForeignAid })
    );
    assert_eq!(summary.on_block, Verdict::Unchallenged);
    assert!(!summary.applied);
}

#[test]
fn only_the_target_is_offered_to_block_a_theft() {
    let players = vec![
        seat(PlayerType::Local, "Thief"),
        seat(PlayerType::Local, "Bystander"),
        seat(PlayerType::Local, "Victim"),
    ];
    let prompters = vec![
        Script::new(vec![Action::Steal(PlayerID(2))], vec![false], vec![]),
        // would block if asked; is asked only whether to challenge
        Script::new(vec![Action::BlockStealCaptain], vec![false, true], vec![]),
        Script::new(vec![Action::BlockStealAmbassador], vec![true], vec![]),
    ];
    let mut game: Game<AnyPlayer<Script>, Journal> = Game::with_rules(
        only(&[Identity::Captain, Identity::Ambassador]),
        players,
        prompters,
        Journal::default(),
        rules(2, 2, 2, 10),
    )
    .unwrap();
    game.setup();
    let summary = game.take_turn(&PlayerID(0)).unwrap();
    assert_eq!(
        summary.block,
        Some(Block { blocker: PlayerID(2), counter: Action::BlockStealAmbassador })
    );
    assert!(!summary.applied);
    assert_eq!(game.state().coins(&PlayerID(0)), 2);
    assert_eq!(game.state().coins(&PlayerID(2)), 2);
}

#[test]
fn a_player_with_ten_coins_has_to_launch_a_coup() {
    let players = vec![seat(PlayerType::Local, "Rich"), seat(PlayerType::DumbCPU, "Poor")];
    let prompters = vec![Script::new(vec![Action::Income], vec![], vec![])];
    let mut game: Game<AnyPlayer<Script>, Journal> = Game::with_rules(
        only(&[Identity::Captain, Identity::Contessa]),
        players,
        prompters,
        Journal::default(),
        rules(2, 10, 2, 10),
    )
    .unwrap();
    game.setup();
    let summary = game.take_turn(&PlayerID(0)).unwrap();
    assert_eq!(summary.action, Action::Coup(PlayerID(1)));
    assert!(summary.applied);
    assert_eq!(game.state().coins(&PlayerID(0)), 3);
    assert_eq!(game.state().lives(&PlayerID(1)), 1);
    assert_eq!(game.hand_of(&PlayerID(1)).len(), 1);
}

#[test]
fn an_action_that_the_rules_do_not_open_gives_way_to_income() {
    let players = vec![seat(PlayerType::Local, "Actor"), seat(PlayerType::DumbCPU, "Other")];
    // a coup with two coins, three times over: the player falls back on income
    let prompters = vec![Script::new(
        vec![Action::Coup(PlayerID(1)), Action::Steal(PlayerID(0)), Action::BlockForeignAid],
        vec![],
        vec![],
    )];
    let mut game: Game<AnyPlayer<Script>, Journal> = Game::with_rules(
        only(&[Identity::Captain, Identity::Contessa]),
        players,
        prompters,
        Journal::default(),
        rules(2, 2, 2, 10),
    )
    .unwrap();
    game.setup();
    let summary = game.take_turn(&PlayerID(0)).unwrap();
    assert_eq!(summary.action, Action::Income);
    assert!(summary.applied);
    assert_eq!(game.state().coins(&PlayerID(0)), 3);
}

use crate::action::{Action, PlayerID};
use crate::identity::Identity;
use crate::player::{offers_are_exact, on_offer, Player};
use crate::prompter::{PromptInfo, Prompter};
use crate::state::GameState;
use vstd::prelude::*;

verus! {

/// How often a question is put again after an answer that cannot be used.
pub const PROMPT_ATTEMPTS: usize = 3;

/// A player who is asked for each decision through a prompter.
pub struct HumanPlayer<P: Prompter> {
    id: PlayerID,
    prompter: P,
    hand: Vec<Identity>,
}

impl<P: Prompter> HumanPlayer<P> {
    pub fn new(id: PlayerID, prompter: P) -> (r: Self)
        ensures
            r.id() == id,
            r.hand() == Seq::<Identity>::empty(),
    {
        let hand = Vec::new();
        HumanPlayer { id, prompter, hand }
    }
}

impl<P: Prompter> Player for HumanPlayer<P> {
    closed spec fn hand(&self) -> Seq<Identity> {
        self.hand@
    }

    closed spec fn id(&self) -> PlayerID {
        self.id
    }

    /// The action that the player picks among those that the rules open
    /// to them. After three answers that are none of these, `Income`.
    fn choose_action(&self, state: &GameState) -> (r: Action)
        ensures
            on_offer(state.active_players@, self.id(), state.coins_of(self.id()), r),
    {
        let available_actions = self.get_available_actions(state);
        let mut attempts: usize = 0;
        while attempts < PROMPT_ATTEMPTS
            invariant
                available_actions@ == crate::player::offers(
                    state.active_players@,
                    self.id(),
                    state.coins_of(self.id()),
                ),
            decreases PROMPT_ATTEMPTS - attempts,
        {
            let answer = self.prompter.prompt_player_for_action(
                "What will you do?",
                available_actions.clone(),
                PromptInfo { state, player_hand: self.get_hand() },
            );
            match answer {
                Ok(action) => {
                    if action.is_among(&available_actions) {
                        proof {
                            offers_are_exact(
                                state.active_players@,
                                self.id(),
                                state.coins_of(self.id()),
                                action,
                            );
                        }
                        return action;
                    }
                },
                Err(_) => {},
            }
            attempts += 1;
        }
        Action::Income
    }

    /// The player's answer to the question whether they challenge. After
    /// three prompts without an answer, no.
    fn will_challenge(&self, state: &GameState, player_id: &PlayerID, action: &Action) -> bool {
        let name = state.get_player_name(player_id);
        let action_text = P::display_action(state, *action);
        let question = crate::report::challenge_question(name.as_str(), action_text.as_str());
        let mut attempts: usize = 0;
        while attempts < PROMPT_ATTEMPTS
            decreases PROMPT_ATTEMPTS - attempts,
        {
            let answer = self.prompter.prompt_player_yes_no(
                question.as_str(),
                Some(PromptInfo { state, player_hand: self.get_hand() }),
            );
            match answer {
                Ok(decision) => {
                    return decision;
                },
                Err(_) => {},
            }
            attempts += 1;
        }
        false
    }

    /// The counter-action that the player picks among those that are open
    /// to them, if they want to block at all.
    fn will_block(&self, state: &GameState, player_id: &PlayerID, action: &Action) -> (r: Option<Action>)
        ensures
            r matches Some(counter) ==> action.counters(self.id()) matches Some(list)
                && list.contains(counter),
    {
        match action.blockable(self.who_am_i()) {
            Some(actions) => {
                if actions.len() > 0 {
                    let name = state.get_player_name(player_id);
                    let action_text = P::display_action(state, *action);
                    let question = crate::report::block_question(
                        name.as_str(),
                        action_text.as_str(),
                    );
                    let wants = self.prompter.prompt_player_yes_no(
                        question.as_str(),
                        Some(PromptInfo { state, player_hand: self.get_hand() }),
                    );
                    match wants {
                        Ok(true) => {
                            let choice = self.prompter.prompt_player_for_action(
                                "How will you block?",
                                actions.clone(),
                                PromptInfo { state, player_hand: self.get_hand() },
                            );
                            match choice {
                                Ok(counter) => {
                                    if counter.is_among(&actions) {
                                        Some(counter)
                                    } else {
                                        None
                                    }
                                },
                                Err(_) => None,
                            }
                        },
                        _ => None,
                    }
                } else {
                    None
                }
            },
            None => None,
        }
    }

    /// The index of the card that the player gives up for `card`, if they
    /// say that they give one up and pick one.
    fn choose_card_to_replace(&self, state: &GameState, card: &Identity) -> Option<usize> {
        let question = crate::report::exchange_question(*card);
        let wants = self.prompter.prompt_player_yes_no(
            question.as_str(),
            Some(PromptInfo { state, player_hand: self.get_hand() }),
        );
        match wants {
            Ok(true) => {
                let choice = self.prompter.prompt_player_choice(
                    "Which one?",
                    self.get_hand(),
                    Some(PromptInfo { state, player_hand: self.get_hand() }),
                );
                match choice {
                    Ok(chosen_idx) => Some(chosen_idx),
                    Err(_) => None,
                }
            },
            _ => None,
        }
    }

    /// The index that the player picks; 0 where the prompt brings no answer.
    fn choose_card_to_lose(&self, state: &GameState) -> usize {
        let choice = self.prompter.prompt_player_choice(
            "Which identity will you discard?",
            self.get_hand(),
            Some(PromptInfo { state, player_hand: self.get_hand() }),
        );
        match choice {
            Ok(chosen_idx) => chosen_idx,
            Err(_) => 0,
        }
    }

    /// The first active player other than this one.
    fn choose_forced_coup(&self, state: &GameState) -> (r: PlayerID)
        ensures
            state.rival_of(self.id()) == Some(r),
            r != self.id(),
            state.active_players@.contains(r),
    {
        match state.first_rival(&self.id) {
            Some(player_id) => player_id,
            None => vstd::pervasive::unreached(),
        }
    }

    fn get_hand(&self) -> (r: Vec<Identity>) {
        self.hand.clone()
    }

    fn set_hand(&mut self, hand: Vec<Identity>) {
        self.hand = hand;
    }

    fn who_am_i(&self) -> (r: &PlayerID) {
        &self.id
    }
}

} // verus!

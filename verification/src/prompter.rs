use crate::action::Action;
use crate::identity::Identity;
use crate::state::GameState;
use vstd::prelude::*;

verus! {

/// What a player sees while they are asked something: the public record
/// of the game and their own hand.
pub struct PromptInfo<'a> {
    pub state: &'a GameState,
    pub player_hand: Vec<Identity>,
}

/// Why a prompt has brought no answer.
#[derive(Clone, Copy, Debug, PartialEq, Eq, Structural)]
pub enum PromptError {
    /// Nothing could be read.
    NoAnswer,
    /// A number was asked for, and the answer is none.
    NotANumber,
    /// The answer picks a choice that was not offered.
    InvalidChoice,
}

/// The way to a player who answers for themself. Nothing is promised of
/// the answers of the player: whoever asks has to vet what comes back.
pub trait Prompter {
    /// Waits for a line from the player.
    fn prompt_player(&self, prompt_info: Option<PromptInfo>) -> Result<String, PromptError>;

    /// Asks `question` and has the player pick one of `possible_choices`
    /// by its index.
    fn prompt_player_choice(
        &self,
        question: &str,
        possible_choices: Vec<Identity>,
        prompt_info: Option<PromptInfo>,
    ) -> Result<usize, PromptError>;

    /// Asks `question` and has the player pick one of `possible_actions`.
    fn prompt_player_for_action(
        &self,
        question: &str,
        possible_actions: Vec<Action>,
        prompt_info: PromptInfo,
    ) -> Result<Action, PromptError>;

    /// Asks `question`, to be answered with yes or no.
    fn prompt_player_yes_no(&self, question: &str, prompt_info: Option<PromptInfo>) -> Result<
        bool,
        PromptError,
    >;

    /// How `action` is shown to the player: by its name and, where it has
    /// a target, the name of the target.
    fn display_action(state: &GameState, action: Action) -> (r: String)
        requires
            action.target() matches Some(t) ==> state.knows(t),
        ensures
            r@ == state.description(action),
    {
        state.display_action(action)
    }
}

} // verus!

use crate::action::{Action, PlayerID};
use crate::identity::Identity;
use crate::player::Player;
use crate::state::GameState;
use vstd::prelude::*;

verus! {

/// A player who takes income every turn, never blocks and never challenges.
pub struct DumbPlayer {
    id: PlayerID,
    hand: Vec<Identity>,
}

impl DumbPlayer {
    pub fn new(id: PlayerID) -> (r: Self)
        ensures
            r.id() == id,
            r.hand() == Seq::<Identity>::empty(),
    {
        let hand = Vec::new();
        DumbPlayer { id, hand }
    }
}

impl Player for DumbPlayer {
    closed spec fn hand(&self) -> Seq<Identity> {
        self.hand@
    }

    closed spec fn id(&self) -> PlayerID {
        self.id
    }

    fn choose_action(&self, _state: &GameState) -> (r: Action)
        ensures
            r == Action::Income,
    {
        Action::Income
    }

    fn will_challenge(&self, _state: &GameState, _player_id: &PlayerID, _action: &Action) -> (r: bool)
        ensures
            !r,
    {
        false
    }

    fn will_block(&self, _state: &GameState, _player_id: &PlayerID, _action: &Action) -> (r: Option<Action>)
        ensures
            r.is_none(),
    {
        None
    }

    fn choose_card_to_replace(&self, _state: &GameState, _card: &Identity) -> (r: Option<usize>)
        ensures
            r.is_none(),
    {
        None
    }

    fn choose_card_to_lose(&self, _state: &GameState) -> (r: usize)
        ensures
            r == 0,
    {
        0
    }

    /// The first active player other than this one.
    fn choose_forced_coup(&self, state: &GameState) -> (r: PlayerID)
        ensures
            state.rival_of(self.id()) == Some(r),
            r != self.id(),
            state.active_players@.contains(r),
    {
        match state.first_rival(&self.id) {
            Some(player_id) => player_id,
            None => vstd::pervasive::unreached(),
        }
    }

    fn get_hand(&self) -> (r: Vec<Identity>) {
        self.hand.clone()
    }

    fn set_hand(&mut self, hand: Vec<Identity>) {
        self.hand = hand;
    }

    fn who_am_i(&self) -> (r: &PlayerID) {
        &self.id
    }
}

} // verus!

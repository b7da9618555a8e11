use crate::action::{Action, PlayerID};
use crate::identity::Identity;
use crate::player::{on_offer, Player};
use crate::state::{GameState, ASSASSINATION_COST, COUP_COST};
use vstd::prelude::*;

verus! {

/// The actions among which chance picks for a player with `coins` coins
/// whose first rival is `target`: income, foreign aid, tax, a theft from
/// the rival and, where the coins suffice, an assassination of the rival
/// and a coup against them.
pub open spec fn options(target: PlayerID, coins: u8) -> Seq<Action> {
    seq![Action::Income, Action::ForeignAid, Action::Tax, Action::Steal(target)] + (if coins
        >= ASSASSINATION_COST {
        seq![Action::Assassinate(target)]
    } else {
        Seq::empty()
    }) + (if coins >= COUP_COST {
        seq![Action::Coup(target)]
    } else {
        Seq::empty()
    })
}

/// A player who leaves the decisions to chance.
pub struct RandomPlayer {
    id: PlayerID,
    hand: Vec<Identity>,
}

impl RandomPlayer {
    pub fn new(id: PlayerID) -> (r: Self)
        ensures
            r.id() == id,
            r.hand() == Seq::<Identity>::empty(),
    {
        let hand = Vec::new();
        RandomPlayer { id, hand }
    }

    /// One of `options`, picked by shuffling them and taking the first.
    pub fn choose_random<T: Copy>(options: &mut Vec<T>) -> (r: T)
        requires
            old(options)@.len() > 0,
        ensures
            old(options)@.contains(r),
            final(options)@.to_multiset() == old(options)@.to_multiset(),
    {
        crate::chance::shuffle(options);
        let first = options[0];
        proof {
            old(options)@.to_multiset_ensures();
            options@.to_multiset_ensures();
            assert(options@[0] == first);
            assert(options@.to_multiset().count(first) > 0);
            assert(old(options)@.to_multiset().count(first) > 0);
        }
        first
    }
}

impl Player for RandomPlayer {
    closed spec fn hand(&self) -> Seq<Identity> {
        self.hand@
    }

    closed spec fn id(&self) -> PlayerID {
        self.id
    }

    /// One of the actions among which chance picks: see `options`. Those
    /// with a target are aimed at the first other active player.
    fn choose_action(&self, state: &GameState) -> (r: Action)
        ensures
            state.rival_of(self.id()) matches Some(target) && options(
                target,
                state.coins_of(self.id()),
            ).contains(r),
            on_offer(state.active_players@, self.id(), state.coins_of(self.id()), r),
            r != Action::Exchange,
    {
        let target = self.choose_forced_coup(state);
        let mut available_actions = vec![
            Action::Income,
            Action::ForeignAid,
            Action::Tax,
            Action::Steal(target),
        ];
        let num_coins = self.count_coins(state);
        if num_coins >= ASSASSINATION_COST {
            available_actions.push(Action::Assassinate(target));
        }
        if num_coins >= COUP_COST {
            available_actions.push(Action::Coup(target));
        }
        let ghost offered = available_actions@;
        assert(offered =~= options(target, num_coins));
        assert forall|i: int| 0 <= i < offered.len() implies on_offer(
            state.active_players@,
            self.id(),
            state.coins_of(self.id()),
            #[trigger] offered[i],
        ) && offered[i] != Action::Exchange by {}
        Self::choose_random(&mut available_actions)
    }

    fn will_challenge(&self, _state: &GameState, _player_id: &PlayerID, _action: &Action) -> bool {
        let mut options = vec![false, true];
        Self::choose_random(&mut options)
    }

    /// One of the counter-actions that are open to the player, or none.
    fn will_block(&self, _state: &GameState, _player_id: &PlayerID, action: &Action) -> (r: Option<Action>)
        ensures
            r matches Some(counter) ==> action.counters(self.id()) matches Some(list)
                && list.contains(counter),
    {
        match action.blockable(self.who_am_i()) {
            Some(options) => {
                let mut choices: Vec<Option<Action>> = Vec::new();
                let mut i: usize = 0;
                while i < options.len()
                    invariant
                        i <= options.len(),
                        choices@.len() == i,
                        forall|j: int| 0 <= j < i ==> (#[trigger] choices@[j]) == Some(options@[j]),
                    decreases options.len() - i,
                {
                    choices.push(Some(options[i]));
                    i += 1;
                }
                choices.push(None);
                let ghost offered = choices@;
                let choice = Self::choose_random(&mut choices);
                proof {
                    if let Some(counter) = choice {
                        let k = choose|k: int| 0 <= k < offered.len() && offered[k] == choice;
                        assert(options@[k] == counter);
                    }
                }
                choice
            },
            None => None,
        }
    }

    fn choose_card_to_replace(&self, _state: &GameState, _card: &Identity) -> (r: Option<usize>)
        ensures
            r.is_none() || r == Some(0usize),
    {
        let mut options: Vec<Option<usize>> = vec![None, Some(0)];
        let ghost offered = options@;
        let choice = Self::choose_random(&mut options);
        proof {
            let k = choose|k: int| 0 <= k < offered.len() && offered[k] == choice;
        }
        choice
    }

    fn choose_card_to_lose(&self, _state: &GameState) -> (r: usize)
        ensures
            r == 0,
    {
        0
    }

    /// The first active player other than this one.
    fn choose_forced_coup(&self, state: &GameState) -> (r: PlayerID)
        ensures
            state.rival_of(self.id()) == Some(r),
            r != self.id(),
            state.active_players@.contains(r),
    {
        match state.first_rival(&self.id) {
            Some(player_id) => player_id,
            None => vstd::pervasive::unreached(),
        }
    }

    fn get_hand(&self) -> (r: Vec<Identity>) {
        self.hand.clone()
    }

    fn set_hand(&mut self, hand: Vec<Identity>) {
        self.hand = hand;
    }

    fn who_am_i(&self) -> (r: &PlayerID) {
        &self.id
    }
}

} // verus!

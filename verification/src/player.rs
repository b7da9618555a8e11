use crate::action::{Action, PlayerID};
use crate::identity::Identity;
use crate::state::{GameState, ASSASSINATION_COST, COUP_COST, MAX_CARDS};
use vstd::prelude::*;

verus! {

/// How often a player is asked for a card to give up before the first
/// card of the hand is taken instead.
pub const DISCARD_ATTEMPTS: usize = 3;

/// A discard was asked for at an index that the hand does not have.
#[derive(Clone, Copy, Debug, PartialEq, Eq, Structural)]
pub struct OutOfRange {
    pub index: usize,
    pub hand_size: usize,
}

/// Whether a player holding `hand` can truthfully declare `action`.
pub open spec fn entitled(hand: Seq<Identity>, action: Action) -> bool {
    match action.required_identity() {
        None => true,
        Some(card) => hand.contains(card),
    }
}

/// The players of `players` other than `me`, in the order of `players`.
pub open spec fn others(players: Seq<PlayerID>, me: PlayerID) -> Seq<PlayerID>
    decreases players.len(),
{
    if players.len() == 0 {
        Seq::empty()
    } else if players.last() == me {
        others(players.drop_last(), me)
    } else {
        others(players.drop_last(), me).push(players.last())
    }
}

/// The actions that a player with `coins` coins may aim at `target`.
pub open spec fn aimed_at(target: PlayerID, coins: u8) -> Seq<Action> {
    seq![Action::Steal(target)] + (if coins >= ASSASSINATION_COST {
        seq![Action::Assassinate(target)]
    } else {
        Seq::empty()
    }) + (if coins >= COUP_COST {
        seq![Action::Coup(target)]
    } else {
        Seq::empty()
    })
}

/// The actions open to player `me` with `coins` coins while `targets` are
/// active: the four that have no target, then for each target other than
/// `me` those aimed at it.
pub open spec fn offers(targets: Seq<PlayerID>, me: PlayerID, coins: u8) -> Seq<Action>
    decreases targets.len(),
{
    if targets.len() == 0 {
        seq![Action::Income, Action::ForeignAid, Action::Tax, Action::Exchange]
    } else if targets.last() == me {
        offers(targets.drop_last(), me, coins)
    } else {
        offers(targets.drop_last(), me, coins) + aimed_at(targets.last(), coins)
    }
}

/// Whether `action` is open to player `me` with `coins` coins while
/// `targets` are active.
pub open spec fn on_offer(targets: Seq<PlayerID>, me: PlayerID, coins: u8, action: Action) -> bool {
    match action {
        Action::Income | Action::ForeignAid | Action::Tax | Action::Exchange => true,
        Action::Steal(t) => t != me && targets.contains(t),
        Action::Assassinate(t) => t != me && targets.contains(t) && coins >= ASSASSINATION_COST,
        Action::Coup(t) => t != me && targets.contains(t) && coins >= COUP_COST,
        _ => false,
    }
}

/// The list of actions on offer holds an action exactly if the rules open
/// it to the player.
pub proof fn offers_are_exact(targets: Seq<PlayerID>, me: PlayerID, coins: u8, action: Action)
    ensures
        offers(targets, me, coins).contains(action) <==> on_offer(targets, me, coins, action),
    decreases targets.len(),
{
    let list = offers(targets, me, coins);
    if targets.len() == 0 {
        if on_offer(targets, me, coins, action) {
            let i: int = match action {
                Action::Income => 0,
                Action::ForeignAid => 1,
                Action::Tax => 2,
                _ => 3,
            };
            assert(list[i] == action);
        }
    } else {
        let front = targets.drop_last();
        let t = targets.last();
        offers_are_exact(front, me, coins, action);
        let rest = offers(front, me, coins);
        assert(forall|x: PlayerID| targets.contains(x) <==> front.contains(x) || x == t) by {
            assert forall|x: PlayerID| targets.contains(x) implies front.contains(x) || x == t by {
                let i = choose|i: int| 0 <= i < targets.len() && targets[i] == x;
                if i < front.len() {
                    assert(front[i] == x);
                }
            }
            assert forall|x: PlayerID| front.contains(x) || x == t implies targets.contains(x) by {
                if front.contains(x) {
                    let i = choose|i: int| 0 <= i < front.len() && front[i] == x;
                    assert(targets[i] == x);
                } else {
                    assert(targets[targets.len() - 1] == x);
                }
            }
        }
        if t != me {
            let aim = aimed_at(t, coins);
            assert(forall|a: Action| aim.contains(a) <==> (a == Action::Steal(t) || (a
                == Action::Assassinate(t) && coins >= ASSASSINATION_COST) || (a == Action::Coup(t)
                && coins >= COUP_COST))) by {
                assert(aim[0] == Action::Steal(t));
                if coins >= ASSASSINATION_COST {
                    assert(aim[1] == Action::Assassinate(t));
                }
                if coins >= COUP_COST {
                    assert(aim[aim.len() - 1] == Action::Coup(t));
                }
            }
            if list.contains(action) {
                let i = choose|i: int| 0 <= i < list.len() && list[i] == action;
                if i < rest.len() {
                    assert(rest[i] == action);
                } else {
                    assert(aim[i - rest.len()] == action);
                }
            }
            if rest.contains(action) {
                let i = choose|i: int| 0 <= i < rest.len() && rest[i] == action;
                assert(list[i] == action);
            }
            if aim.contains(action) {
                let i = choose|i: int| 0 <= i < aim.len() && aim[i] == action;
                assert(list[rest.len() + i] == action);
            }
        }
    }
}

/// What a strategy has to offer to sit at the table: the decisions of a
/// player, and the keeping of the player's hand. The hand is the player's
/// own; the game reaches it through this interface alone.
pub trait Player {
    /// The cards that the player holds.
    spec fn hand(&self) -> Seq<Identity>;

    /// The player's key in the game.
    spec fn id(&self) -> PlayerID;

    /// The action that the player declares on their turn.
    fn choose_action(&self, state: &GameState) -> Action
        requires
            state.wf(),
            state.knows(self.id()),
            state.has_rival(self.id()),
    ;

    /// Whether the player challenges `action`, declared by `player_id`.
    fn will_challenge(&self, state: &GameState, player_id: &PlayerID, action: &Action) -> bool
        requires
            state.wf(),
            state.knows(*player_id),
            action.target() matches Some(t) ==> state.knows(t),
    ;

    /// The counter-action that the player declares against `action` of
    /// `player_id`, if any.
    fn will_block(&self, state: &GameState, player_id: &PlayerID, action: &Action) -> Option<
        Action,
    >
        requires
            state.wf(),
            state.knows(*player_id),
            action.target() matches Some(t) ==> state.knows(t),
    ;

    /// The index of the card that the player gives up for `card`, if any.
    fn choose_card_to_replace(&self, state: &GameState, card: &Identity) -> Option<usize>;

    /// The index of the card that the player reveals on losing a life.
    fn choose_card_to_lose(&self, state: &GameState) -> usize;

    /// The player at whom a forced coup is aimed.
    fn choose_forced_coup(&self, state: &GameState) -> PlayerID
        requires
            state.wf(),
            state.has_rival(self.id()),
    ;

    fn get_hand(&self) -> (r: Vec<Identity>)
        ensures
            r@ == self.hand(),
    ;

    fn set_hand(&mut self, hand: Vec<Identity>)
        ensures
            final(self).hand() == hand@,
            final(self).id() == old(self).id(),
    ;

    fn who_am_i(&self) -> (r: &PlayerID)
        ensures
            *r == self.id(),
    ;

    /// Gives up a card after a lost challenge.
    fn lose_challenge(&mut self, state: &GameState) -> (r: Identity)
        requires
            old(self).hand().len() > 0,
        ensures
            final(self).id() == old(self).id(),
            exists|i: int|
                0 <= i < old(self).hand().len() && r == old(self).hand()[i] && final(self).hand()
                    == old(self).hand().remove(i),
    {
        self.lose_life(state)
    }

    /// Gives up one card of the hand: the one that the player picks, or,
    /// where the player keeps picking none that the hand has, the first.
    fn lose_life(&mut self, state: &GameState) -> (r: Identity)
        requires
            old(self).hand().len() > 0,
        ensures
            final(self).id() == old(self).id(),
            exists|i: int|
                0 <= i < old(self).hand().len() && r == old(self).hand()[i] && final(self).hand()
                    == old(self).hand().remove(i),
    {
        let mut attempts: usize = 0;
        while attempts < DISCARD_ATTEMPTS
            invariant
                self.hand() == old(self).hand(),
                self.id() == old(self).id(),
            decreases DISCARD_ATTEMPTS - attempts,
        {
            let index = self.choose_card_to_lose(state);
            match self.discard(index) {
                Ok(identity) => {
                    return identity;
                },
                Err(_) => {},
            }
            attempts += 1;
        }
        match self.discard(0) {
            Ok(identity) => identity,
            Err(_) => vstd::pervasive::unreached(),
        }
    }

    /// Puts `card` in the place of the card at `to_replace`, and hands back
    /// the card that was there.
    fn replace_card(&mut self, to_replace: usize, card: Identity) -> (r: Identity)
        requires
            to_replace < old(self).hand().len(),
        ensures
            final(self).id() == old(self).id(),
            final(self).hand() == old(self).hand().update(to_replace as int, card),
            r == old(self).hand()[to_replace as int],
    {
        let mut hand = self.get_hand();
        let replaced = hand[to_replace];
        hand.set(to_replace, card);
        self.set_hand(hand);
        replaced
    }

    fn hand_full(&self) -> (r: bool)
        ensures
            r == (self.hand().len() >= MAX_CARDS),
    {
        self.get_hand().len() >= MAX_CARDS
    }

    fn count_coins(&self, state: &GameState) -> (r: u8)
        requires
            state.knows(self.id()),
        ensures
            r == state.coins_of(self.id()),
    {
        state.coins(self.who_am_i())
    }

    /// Takes `card` into the hand. A hand that is full keeps its size: the
    /// player may give up one card for the new one. The card that does not
    /// stay in the hand is handed back.
    fn take_card(&mut self, state: &GameState, card: Identity) -> (r: Option<Identity>)
        ensures
            final(self).id() == old(self).id(),
            old(self).hand().len() < MAX_CARDS ==> r.is_none() && final(self).hand()
                == old(self).hand().push(card),
            old(self).hand().len() >= MAX_CARDS ==> r.is_some() && ((r == Some(card)
                && final(self).hand() == old(self).hand()) || exists|i: int|
                0 <= i < old(self).hand().len() && r == Some(old(self).hand()[i])
                    && final(self).hand() == old(self).hand().update(i, card)),
    {
        if self.hand_full() {
            match self.choose_card_to_replace(state, &card) {
                Some(to_replace) => {
                    if to_replace < self.get_hand().len() {
                        Some(self.replace_card(to_replace, card))
                    } else {
                        Some(card)
                    }
                },
                None => Some(card),
            }
        } else {
            let mut hand = self.get_hand();
            hand.push(card);
            self.set_hand(hand);
            None
        }
    }

    /// Takes the card at `index` out of the hand.
    fn discard(&mut self, index: usize) -> (r: Result<Identity, OutOfRange>)
        ensures
            final(self).id() == old(self).id(),
            match r {
                Ok(card) => index < old(self).hand().len() && card == old(self).hand()[index as int]
                    && final(self).hand() == old(self).hand().remove(index as int),
                Err(e) => index >= old(self).hand().len() && final(self).hand() == old(self).hand()
                    && e == (OutOfRange { index, hand_size: old(self).hand().len() as usize }),
            },
    {
        let mut hand = self.get_hand();
        if index < hand.len() {
            let card = hand.remove(index);
            self.set_hand(hand);
            Ok(card)
        } else {
            Err(OutOfRange { index, hand_size: hand.len() })
        }
    }

    fn get_other_active_players(&self, state: &GameState) -> (r: Vec<PlayerID>)
        ensures
            r@ == others(state.active_players@, self.id()),
    {
        let me = *self.who_am_i();
        let mut other_players: Vec<PlayerID> = Vec::new();
        let mut i: usize = 0;
        while i < state.active_players.len()
            invariant
                i <= state.active_players.len(),
                me == self.id(),
                other_players@ == others(state.active_players@.take(i as int), me),
            decreases state.active_players.len() - i,
        {
            let player_id = state.active_players[i];
            proof {
                assert(state.active_players@.take(i + 1).drop_last() == state.active_players@.take(
                    i as int,
                ));
                assert(state.active_players@.take(i + 1).last() == player_id);
            }
            if player_id != me {
                other_players.push(player_id);
            }
            i += 1;
        }
        assert(state.active_players@.take(state.active_players.len() as int)
            == state.active_players@);
        other_players
    }

    /// The actions that the rules open to the player in `state`.
    fn get_available_actions(&self, state: &GameState) -> (r: Vec<Action>)
        requires
            state.knows(self.id()),
        ensures
            r@ == offers(state.active_players@, self.id(), state.coins_of(self.id())),
    {
        let me = *self.who_am_i();
        let coins = self.count_coins(state);
        let mut available_actions = vec![
            Action::Income,
            Action::ForeignAid,
            Action::Tax,
            Action::Exchange,
        ];
        assert(available_actions@ =~= offers(state.active_players@.take(0), me, coins));
        let mut i: usize = 0;
        while i < state.active_players.len()
            invariant
                i <= state.active_players.len(),
                me == self.id(),
                available_actions@ == offers(state.active_players@.take(i as int), me, coins),
            decreases state.active_players.len() - i,
        {
            let target = state.active_players[i];
            let ghost before = available_actions@;
            proof {
                assert(state.active_players@.take(i + 1).drop_last() == state.active_players@.take(
                    i as int,
                ));
                assert(state.active_players@.take(i + 1).last() == target);
            }
            if target != me {
                available_actions.push(Action::Steal(target));
                if coins >= ASSASSINATION_COST {
                    available_actions.push(Action::Assassinate(target));
                }
                if coins >= COUP_COST {
                    available_actions.push(Action::Coup(target));
                }
                assert(available_actions@ =~= before + aimed_at(target, coins));
            }
            i += 1;
        }
        assert(state.active_players@.take(state.active_players.len() as int)
            == state.active_players@);
        available_actions
    }

    /// Whether the player holds the identity that `action` claims.
    fn can_do_action(&self, action: &Action) -> (r: bool)
        ensures
            r == entitled(self.hand(), *action),
    {
        match action.claimed_identity() {
            None => true,
            Some(identity) => self.has_identity(identity),
        }
    }

    fn has_identity(&self, identity: Identity) -> (r: bool)
        ensures
            r == self.hand().contains(identity),
    {
        let hand = self.get_hand();
        let mut i: usize = 0;
        while i < hand.len()
            invariant
                i <= hand.len(),
                hand@ == self.hand(),
                forall|j: int| 0 <= j < i ==> hand@[j] != identity,
            decreases hand.len() - i,
        {
            if hand[i] == identity {
                return true;
            }
            i += 1;
        }
        false
    }
}

/// Whether `action` is open to player `me` in `state`.
pub fn is_on_offer(state: &GameState, me: &PlayerID, action: &Action) -> (r: bool)
    requires
        state.knows(*me),
    ensures
        r == on_offer(state.active_players@, *me, state.coins_of(*me), *action),
{
    let coins = state.coins(me);
    match action {
        Action::Income | Action::ForeignAid | Action::Tax | Action::Exchange => true,
        Action::Steal(t) => *t != *me && state.is_active(t),
        Action::Assassinate(t) => *t != *me && state.is_active(t) && coins >= ASSASSINATION_COST,
        Action::Coup(t) => *t != *me && state.is_active(t) && coins >= COUP_COST,
        _ => false,
    }
}

} // verus!

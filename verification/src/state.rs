use crate::action::{Action, PlayerID};
use crate::identity::Identity;
use vstd::prelude::*;

verus! {

/// The most cards that a hand can hold.
pub const MAX_CARDS: usize = 2;

/// The coins that a player pays to assassinate.
pub const ASSASSINATION_COST: u8 = 3;

/// The coins that a player pays for a coup.
pub const COUP_COST: u8 = 7;

/// The most coins that a single action brings in.
pub const LARGEST_GAIN: u8 = 3;

/// The numbers that a game starts from.
#[derive(Clone, Copy, Debug, PartialEq, Eq, Structural, Hash)]
pub struct GameRules {
    /// How many cards each player is dealt.
    pub starting_cards: u8,
    /// How many coins each player starts with.
    pub starting_coins: u8,
    /// How many lives each player starts with.
    pub starting_lives: u8,
    /// The coins from which on a player has to launch a coup.
    pub required_coup_coins: u8,
}

impl GameRules {
    /// Rules under which no player runs out of cards before running out of
    /// lives, a forced coup can be paid for, and no purse overflows.
    pub open spec fn valid(self) -> bool {
        &&& self.starting_lives <= self.starting_cards
        &&& self.starting_cards <= MAX_CARDS
        &&& COUP_COST <= self.required_coup_coins
        &&& self.required_coup_coins <= u8::MAX - LARGEST_GAIN
    }

    /// Two cards, two coins, two lives, and a coup forced from ten coins on.
    pub open spec fn standard_rules() -> GameRules {
        GameRules { starting_cards: 2, starting_coins: 2, starting_lives: 2, required_coup_coins: 10 }
    }

    /// The rules that a game is played by unless others are given.
    pub fn standard() -> (r: Self)
        ensures
            r.valid(),
            r == Self::standard_rules(),
    {
        GameRules { starting_cards: 2, starting_coins: 2, starting_lives: 2, required_coup_coins: 10 }
    }

    pub fn is_valid(&self) -> (r: bool)
        ensures
            r == self.valid(),
    {
        self.starting_lives <= self.starting_cards && self.starting_cards as usize <= MAX_CARDS
            && COUP_COST <= self.required_coup_coins && self.required_coup_coins <= u8::MAX
            - LARGEST_GAIN
    }
}

/// What everyone at the table knows of one player.
#[derive(Debug)]
pub struct PlayerState {
    /// The identities that the player has had to reveal, oldest first.
    pub lost_lives: Vec<Identity>,
    pub player_name: String,
    pub num_coins: u8,
    pub num_lives: u8,
}

/// The coins that a player starts with unless the rules of the game say otherwise.
pub const STARTING_COINS: u8 = 2;

impl PlayerState {
    pub fn new(player_name: String, num_lives: u8) -> (r: Self)
        ensures
            r.player_name@ == player_name@,
            r.num_coins == STARTING_COINS,
            r.num_lives == num_lives,
            r.lost_lives@ == Seq::<Identity>::empty(),
    {
        let lost_lives = Vec::new();
        Self { player_name, num_coins: STARTING_COINS, num_lives, lost_lives }
    }

    pub fn is_alive(&self) -> (r: bool)
        ensures
            r == (self.num_lives > 0),
    {
        self.num_lives > 0
    }

    pub fn get_name(&self) -> (r: String)
        ensures
            r@ == self.player_name@,
    {
        self.player_name.clone()
    }

    /// What is shown of the player: the name, the lives and the coins,
    /// each on a line of its own, and a line with the revealed
    /// identities if there are any.
    pub open spec fn rendering(&self) -> Seq<char> {
        self.player_name@ + ":\n"@ + "\tLives: "@ + crate::report::decimal(self.num_lives as nat)
            + "\n"@ + "\tCoins: "@ + crate::report::decimal(self.num_coins as nat) + "\n"@ + (
        if self.lost_lives@.len() > 0 {
            "\tLost Identities: "@ + listed_cards(self.lost_lives@) + "\n"@
        } else {
            Seq::empty()
        })
    }

    pub fn describe(&self) -> (r: String)
        ensures
            r@ == self.rendering(),
    {
        let mut text = crate::report::join(self.player_name.as_str(), ":\n");
        text.push_str("\tLives: ");
        text.push_str(crate::report::number(self.num_lives).as_str());
        text.push_str("\n");
        text.push_str("\tCoins: ");
        text.push_str(crate::report::number(self.num_coins).as_str());
        text.push_str("\n");
        if self.lost_lives.len() > 0 {
            let ghost head = text@;
            text.push_str("\tLost Identities: ");
            let mut i: usize = 0;
            assert(listed_cards(self.lost_lives@.take(0)) =~= Seq::<char>::empty());
            while i < self.lost_lives.len()
                invariant
                    i <= self.lost_lives.len(),
                    text@ =~= head + "\tLost Identities: "@ + listed_cards(
                        self.lost_lives@.take(i as int),
                    ),
                decreases self.lost_lives.len() - i,
            {
                proof {
                    assert(self.lost_lives@.take(i + 1).drop_last() == self.lost_lives@.take(
                        i as int,
                    ));
                    assert(self.lost_lives@.take(i + 1).last() == self.lost_lives@[i as int]);
                }
                text.push_str(self.lost_lives[i].name().as_str());
                text.push_str(" ");
                i += 1;
            }
            assert(self.lost_lives@.take(self.lost_lives.len() as int) == self.lost_lives@);
            text.push_str("\n");
            assert(text@ =~= self.rendering());
        } else {
            assert(text@ =~= self.rendering());
        }
        text
    }
}

/// The names of `cards`, each followed by a blank.
pub open spec fn listed_cards(cards: Seq<Identity>) -> Seq<char>
    decreases cards.len(),
{
    if cards.len() == 0 {
        Seq::empty()
    } else {
        listed_cards(cards.drop_last()) + cards.last().label() + " "@
    }
}

/// What is shown of the players of `order`, one after the other, each
/// followed by a line feed.
pub open spec fn rendered(order: Seq<PlayerID>, states: Seq<PlayerState>) -> Seq<char>
    decreases order.len(),
{
    if order.len() == 0 {
        Seq::empty()
    } else {
        rendered(order.drop_last(), states) + states[order.last().0 as int].rendering() + "\n"@
    }
}

/// Whether `id` is one of the players of `states` and has a life left.
pub open spec fn alive_in(states: Seq<PlayerState>, id: PlayerID) -> bool {
    id.0 < states.len() && states[id.0 as int].num_lives > 0
}

/// The players of `order` that have a life left, in the order of `order`.
pub open spec fn living_among(order: Seq<PlayerID>, states: Seq<PlayerState>) -> Seq<PlayerID>
    decreases order.len(),
{
    if order.len() == 0 {
        Seq::empty()
    } else {
        let rest = living_among(order.drop_last(), states);
        if alive_in(states, order.last()) {
            rest.push(order.last())
        } else {
            rest
        }
    }
}

/// A player is among the living of `order` exactly if it is in `order` and
/// has a life left.
pub proof fn living_are_exact(order: Seq<PlayerID>, states: Seq<PlayerState>, id: PlayerID)
    ensures
        living_among(order, states).contains(id) <==> order.contains(id) && alive_in(states, id),
    decreases order.len(),
{
    let living = living_among(order, states);
    if order.len() > 0 {
        let rest = living_among(order.drop_last(), states);
        living_are_exact(order.drop_last(), states, id);
        if living.contains(id) {
            let i = choose|i: int| 0 <= i < living.len() && living[i] == id;
            if i < rest.len() {
                assert(rest[i] == id);
                let j = choose|j: int| 0 <= j < order.drop_last().len() && order.drop_last()[j] == id;
                assert(order[j] == id);
            } else {
                assert(order[order.len() - 1] == id);
            }
        }
        if order.contains(id) && alive_in(states, id) {
            let j = choose|j: int| 0 <= j < order.len() && order[j] == id;
            if j < order.len() - 1 {
                assert(order.drop_last()[j] == id);
                let i = choose|i: int| 0 <= i < rest.len() && rest[i] == id;
                assert(living[i] == id);
            } else {
                assert(living[living.len() - 1] == id);
            }
        }
    }
}

/// Which players are among the living depends on nothing but who in
/// `order` has a life left.
pub proof fn living_depends_on_lives(
    order: Seq<PlayerID>,
    before: Seq<PlayerState>,
    after: Seq<PlayerState>,
)
    requires
        forall|i: int|
            0 <= i < order.len() ==> alive_in(before, #[trigger] order[i]) == alive_in(
                after,
                order[i],
            ),
    ensures
        living_among(order, before) == living_among(order, after),
    decreases order.len(),
{
    if order.len() > 0 {
        assert forall|i: int| 0 <= i < order.drop_last().len() implies alive_in(
            before,
            #[trigger] order.drop_last()[i],
        ) == alive_in(after, order.drop_last()[i]) by {
            assert(order.drop_last()[i] == order[i]);
        }
        living_depends_on_lives(order.drop_last(), before, after);
        assert(order.last() == order[order.len() - 1]);
    }
}

/// The first of `players` other than `id`, if there is one.
pub open spec fn first_other(players: Seq<PlayerID>, id: PlayerID) -> Option<PlayerID>
    decreases players.len(),
{
    if players.len() == 0 {
        None
    } else if players.first() != id {
        Some(players.first())
    } else {
        first_other(players.drop_first(), id)
    }
}

/// The public record of a game: what every player may see.
#[derive(Debug)]
pub struct GameState {
    /// The players that have a life left, in turn order.
    pub active_players: Vec<PlayerID>,
    /// How many cards of each identity the game is played with.
    pub num_cards: u8,
    /// The public state of each player; player `PlayerID(i)` is at index `i`.
    pub player_states: Vec<PlayerState>,
    pub turn_order: Vec<PlayerID>,
}

impl GameState {
    /// Whether `id` is one of the players of the game.
    pub open spec fn knows(&self, id: PlayerID) -> bool {
        id.0 < self.player_states.len()
    }

    /// Whether `id` is a player of the game with a life left.
    pub open spec fn alive(&self, id: PlayerID) -> bool {
        alive_in(self.player_states@, id)
    }

    /// The players that have a life left, in turn order.
    pub open spec fn living(&self) -> Seq<PlayerID> {
        living_among(self.turn_order@, self.player_states@)
    }

    /// Every player of the turn order is known, and the list of active
    /// players is up to date.
    pub open spec fn wf(&self) -> bool {
        &&& forall|i: int| 0 <= i < self.turn_order.len() ==> self.knows(#[trigger] self.turn_order[i])
        &&& self.active_players@ == self.living()
    }

    /// The game is over when at most one player has a life left.
    pub open spec fn over(&self) -> bool {
        self.living().len() <= 1
    }

    /// Whether a player other than `id` is active.
    pub open spec fn has_rival(&self, id: PlayerID) -> bool {
        exists|i: int| 0 <= i < self.active_players.len() && #[trigger] self.active_players[i] != id
    }

    /// The first active player other than `id`, if there is one.
    pub open spec fn rival_of(&self, id: PlayerID) -> Option<PlayerID> {
        first_other(self.active_players@, id)
    }

    /// The coins of player `id`.
    pub open spec fn coins_of(&self, id: PlayerID) -> u8 {
        self.player_states[id.0 as int].num_coins
    }

    /// The lives of player `id`.
    pub open spec fn lives_of(&self, id: PlayerID) -> u8 {
        self.player_states[id.0 as int].num_lives
    }

    /// The name of player `id`.
    pub open spec fn name_of(&self, id: PlayerID) -> Seq<char> {
        self.player_states[id.0 as int].player_name@
    }

    /// A record without players, in which everyone of `turn_order` counts as active.
    pub fn new(num_cards: u8, turn_order: Vec<PlayerID>) -> (r: Self)
        ensures
            r.num_cards == num_cards,
            r.player_states@.len() == 0,
            r.turn_order@ == turn_order@,
            r.active_players@ == turn_order@,
    {
        let player_states = Vec::new();
        let active_players = turn_order.clone();
        Self { num_cards, player_states, active_players, turn_order }
    }

    pub fn has_player(&self, id: &PlayerID) -> (r: bool)
        ensures
            r == self.knows(*id),
    {
        (id.0 as usize) < self.player_states.len()
    }

    pub fn get_player_name(&self, player_id: &PlayerID) -> (r: String)
        requires
            self.knows(*player_id),
        ensures
            r@ == self.name_of(*player_id),
    {
        self.player_states[player_id.0 as usize].get_name()
    }

    pub fn is_player_alive(&self, player_id: &PlayerID) -> (r: bool)
        requires
            self.knows(*player_id),
        ensures
            r == self.alive(*player_id),
    {
        self.player_states[player_id.0 as usize].is_alive()
    }

    pub fn coins(&self, player_id: &PlayerID) -> (r: u8)
        requires
            self.knows(*player_id),
        ensures
            r == self.coins_of(*player_id),
    {
        self.player_states[player_id.0 as usize].num_coins
    }

    pub fn lives(&self, player_id: &PlayerID) -> (r: u8)
        requires
            self.knows(*player_id),
        ensures
            r == self.lives_of(*player_id),
    {
        self.player_states[player_id.0 as usize].num_lives
    }

    /// Sets the turn order. The list of active players is left as it is.
    pub fn update_turn_order(&mut self, turn_order: Vec<PlayerID>)
        ensures
            final(self).turn_order@ == turn_order@,
            final(self).active_players == old(self).active_players,
            final(self).player_states == old(self).player_states,
            final(self).num_cards == old(self).num_cards,
    {
        self.turn_order = turn_order;
    }

    /// The players of `players` that have a life left, in the order of `players`.
    pub fn active_players(&self, players: &Vec<PlayerID>) -> (r: Vec<PlayerID>)
        requires
            forall|i: int| 0 <= i < players.len() ==> self.knows(#[trigger] players[i]),
        ensures
            r@ == living_among(players@, self.player_states@),
    {
        let mut out: Vec<PlayerID> = Vec::new();
        let mut i: usize = 0;
        while i < players.len()
            invariant
                i <= players.len(),
                forall|j: int| 0 <= j < players.len() ==> self.knows(#[trigger] players[j]),
                out@ == living_among(players@.take(i as int), self.player_states@),
            decreases players.len() - i,
        {
            let id = players[i];
            proof {
                assert(players@.take(i + 1).drop_last() == players@.take(i as int));
                assert(players@.take(i + 1).last() == id);
            }
            if self.is_player_alive(&id) {
                out.push(id);
            }
            i += 1;
        }
        assert(players@.take(players.len() as int) == players@);
        out
    }

    /// Brings the list of active players up to date.
    pub fn update_active_players(&mut self)
        requires
            forall|i: int|
                0 <= i < old(self).turn_order.len() ==> old(self).knows(
                    #[trigger] old(self).turn_order[i],
                ),
        ensures
            final(self).wf(),
            final(self).turn_order == old(self).turn_order,
            final(self).player_states == old(self).player_states,
            final(self).num_cards == old(self).num_cards,
    {
        let living = self.active_players(&self.turn_order);
        self.active_players = living;
    }

    /// Whether at most one of `players` has a life left.
    pub fn game_over(&self, players: &Vec<PlayerID>) -> (r: bool)
        requires
            forall|i: int| 0 <= i < players.len() ==> self.knows(#[trigger] players[i]),
        ensures
            r == (living_among(players@, self.player_states@).len() <= 1),
    {
        let mut num_alive: usize = 0;
        let mut i: usize = 0;
        while i < players.len()
            invariant
                i <= players.len(),
                forall|j: int| 0 <= j < players.len() ==> self.knows(#[trigger] players[j]),
                num_alive == living_among(players@.take(i as int), self.player_states@).len(),
                num_alive <= i,
            decreases players.len() - i,
        {
            let id = players[i];
            proof {
                assert(players@.take(i + 1).drop_last() == players@.take(i as int));
                assert(players@.take(i + 1).last() == id);
            }
            if self.player_states[id.0 as usize].num_lives > 0 {
                num_alive += 1;
            }
            i += 1;
        }
        assert(players@.take(players.len() as int) == players@);
        num_alive <= 1
    }

    /// Whether `id` is on the list of active players.
    pub fn is_active(&self, id: &PlayerID) -> (r: bool)
        ensures
            r == self.active_players@.contains(*id),
    {
        let mut i: usize = 0;
        while i < self.active_players.len()
            invariant
                i <= self.active_players.len(),
                forall|j: int| 0 <= j < i ==> self.active_players@[j] != *id,
            decreases self.active_players.len() - i,
        {
            if self.active_players[i] == *id {
                return true;
            }
            i += 1;
        }
        false
    }

    /// The first active player other than `id`, if there is one.
    pub fn first_rival(&self, id: &PlayerID) -> (r: Option<PlayerID>)
        ensures
            r == self.rival_of(*id),
            r.is_some() == self.has_rival(*id),
            r matches Some(rival) ==> rival != *id && self.active_players@.contains(rival),
    {
        let mut i: usize = 0;
        assert(self.active_players@.skip(0) == self.active_players@);
        while i < self.active_players.len()
            invariant
                i <= self.active_players.len(),
                forall|j: int| 0 <= j < i ==> self.active_players@[j] == *id,
                self.rival_of(*id) == first_other(self.active_players@.skip(i as int), *id),
            decreases self.active_players.len() - i,
        {
            let ghost rest = self.active_players@.skip(i as int);
            assert(rest.first() == self.active_players@[i as int]);
            if self.active_players[i] != *id {
                return Some(self.active_players[i]);
            }
            assert(rest.drop_first() == self.active_players@.skip(i + 1));
            i += 1;
        }
        None
    }

    /// What is shown of the game: the players in turn order.
    pub fn describe(&self) -> (r: String)
        requires
            forall|i: int| 0 <= i < self.turn_order.len() ==> self.knows(#[trigger] self.turn_order[i]),
        ensures
            r@ == rendered(self.turn_order@, self.player_states@),
    {
        let mut text = String::new();
        let mut i: usize = 0;
        assert(rendered(self.turn_order@.take(0), self.player_states@) =~= Seq::<char>::empty());
        while i < self.turn_order.len()
            invariant
                i <= self.turn_order.len(),
                forall|j: int| 0 <= j < self.turn_order.len() ==> self.knows(#[trigger] self.turn_order[j]),
                text@ =~= rendered(self.turn_order@.take(i as int), self.player_states@),
            decreases self.turn_order.len() - i,
        {
            let id = self.turn_order[i];
            proof {
                assert(self.turn_order@.take(i + 1).drop_last() == self.turn_order@.take(i as int));
                assert(self.turn_order@.take(i + 1).last() == id);
            }
            text.push_str(self.player_states[id.0 as usize].describe().as_str());
            text.push_str("\n");
            i += 1;
        }
        assert(self.turn_order@.take(self.turn_order.len() as int) == self.turn_order@);
        text
    }

    /// How `action` is announced: by its name and, where it has a target,
    /// the name of the target.
    pub open spec fn description(&self, action: Action) -> Seq<char> {
        match action {
            Action::Assassinate(t) | Action::Coup(t) => action.label() + " "@ + self.name_of(t),
            Action::Steal(t) => action.label() + " from "@ + self.name_of(t),
            _ => action.label(),
        }
    }

    pub fn display_action(&self, action: Action) -> (r: String)
        requires
            action.target() matches Some(t) ==> self.knows(t),
        ensures
            r@ == self.description(action),
    {
        match action {
            Action::Assassinate(target) | Action::Coup(target) => {
                let mut text = crate::report::join(action.name().as_str(), " ");
                text.push_str(self.get_player_name(&target).as_str());
                text
            },
            Action::Steal(target) => {
                let mut text = crate::report::join(action.name().as_str(), " from ");
                text.push_str(self.get_player_name(&target).as_str());
                text
            },
            _ => action.name(),
        }
    }
}

/// Where no player comes twice in `order`, none comes twice among the living.
pub proof fn living_are_distinct(order: Seq<PlayerID>, states: Seq<PlayerState>)
    requires
        order.no_duplicates(),
    ensures
        living_among(order, states).no_duplicates(),
    decreases order.len(),
{
    if order.len() > 0 {
        let front = order.drop_last();
        let rest = living_among(front, states);
        living_are_distinct(front, states);
        living_are_exact(front, states, order.last());
        if rest.contains(order.last()) {
            let j = choose|j: int| 0 <= j < front.len() && front[j] == order.last();
            assert(order[j] == order[order.len() - 1]);
        }
    }
}

/// In a well-formed record the active players are those of the turn order
/// that have a life left.
pub proof fn active_means_alive(state: &GameState, id: PlayerID)
    requires
        state.wf(),
    ensures
        state.active_players@.contains(id) <==> state.turn_order@.contains(id) && state.alive(id),
{
    living_are_exact(state.turn_order@, state.player_states@, id);
}

} // verus!

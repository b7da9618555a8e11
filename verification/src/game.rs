use crate::action::{Action, PlayerID};
use crate::field::{stack, GameField};
use crate::identity::{Identity, IdentitySet};
use crate::logger::Logger;
use crate::player::{entitled, is_on_offer, on_offer, Player};
use crate::state::{GameRules, GameState, PlayerState, ASSASSINATION_COST, COUP_COST};
use crate::state::MAX_CARDS;
use crate::table::{SeatView, TableView};
use crate::turn::{
    adjudicated, round_by_round, round_played, rounds_played, turn_by_turn, turn_taken, Block,
    TurnState, TurnSummary, Verdict,
};
use vstd::prelude::*;

verus! {

/// The most players that a game can seat.
pub const MAX_PLAYERS: usize = 255;

/// One player's doubt of the action of another.
#[derive(Clone, Copy, Debug, PartialEq, Eq, Structural)]
pub struct Challenge {
    /// Who has declared the action.
    pub actor_id: PlayerID,
    /// Who doubts it.
    pub challenger_id: PlayerID,
    pub action: Action,
}

/// Why a game could not be set up.
#[derive(Clone, Copy, Debug, PartialEq, Eq, Structural)]
pub enum SetupError {
    /// The rules are not valid.
    InvalidRules,
    /// There are more players than a game can seat.
    TooManyPlayers,
    /// There is not a name for each player, or a name too many.
    NamesMismatch,
    /// A player does not answer to the key of their seat, or comes with cards.
    WrongSeat,
    /// There are not as many prompters as players who need one.
    MissingPrompter,
}

/// What the public does not see: the deck and the players with their hands.
pub struct GameDriver<P: Player> {
    field: GameField,
    /// Player `PlayerID(i)` is at index `i`.
    players: Vec<P>,
}

impl<P: Player> GameDriver<P> {
    /// The deck, top card first.
    pub closed spec fn deck(&self) -> Seq<Identity> {
        self.field.deck@
    }

    /// The hands of the players, by player.
    pub closed spec fn hands(&self) -> Seq<Seq<Identity>> {
        Seq::new(self.players.len() as nat, |i: int| self.players[i].hand())
    }

    /// A driver without players, with a full deck.
    pub fn new(identities: IdentitySet, num_cards: u8) -> (r: Self)
        ensures
            r.hands().len() == 0,
            r.deck() == stack(identities.members(), num_cards as nat),
    {
        let field = GameField::new(identities, num_cards);
        let players = Vec::new();
        Self { field, players }
    }
}

/// A game of Coup.
pub struct Game<P: Player, L: Logger> {
    driver: GameDriver<P>,
    state: GameState,
    logger: L,
    interactive: bool,
    rules: GameRules,
    identities: IdentitySet,
    dealt: bool,
}

impl<P: Player, L: Logger> View for Game<P, L> {
    type V = TableView;

    closed spec fn view(&self) -> TableView {
        TableView {
            seats: Seq::new(
                self.driver.players.len() as nat,
                |i: int|
                    SeatView {
                        name: self.state.player_states[i].player_name@,
                        coins: self.state.player_states[i].num_coins as nat,
                        lives: self.state.player_states[i].num_lives as nat,
                        lost: self.state.player_states[i].lost_lives@,
                        hand: self.driver.players[i].hand(),
                    },
            ),
            deck: self.driver.field.deck@,
        }
    }
}

/// How many cards of each identity a game of `players` players is played with.
pub open spec fn cards_per_identity(players: nat) -> nat {
    if 1 <= players <= 4 {
        3
    } else {
        4
    }
}

/// The seat of a player before the first card is dealt.
pub open spec fn fresh_seat(name: Seq<char>, rules: GameRules) -> SeatView {
    SeatView {
        name,
        coins: rules.starting_coins as nat,
        lives: rules.starting_lives as nat,
        lost: Seq::empty(),
        hand: Seq::empty(),
    }
}

/// Whether `player` can take seat `i` of a new game: they answer to the
/// key of the seat and come without cards.
pub open spec fn seated<P: Player>(player: P, i: int) -> bool {
    player.id() == PlayerID(i as u8) && player.hand().len() == 0
}

/// What stands in the way of a game of `players` under `rules`, with
/// `names` names and the identities of `identities`: `None` if nothing does.
pub open spec fn setup_fault<P: Player>(
    identities: IdentitySet,
    players: Seq<P>,
    names: nat,
    rules: GameRules,
) -> Option<SetupError> {
    let n = players.len();
    if !rules.valid() {
        Some(SetupError::InvalidRules)
    } else if n > MAX_PLAYERS {
        Some(SetupError::TooManyPlayers)
    } else if names != n {
        Some(SetupError::NamesMismatch)
    } else if exists|i: int| 0 <= i < n && !seated(#[trigger] players[i], i) {
        Some(SetupError::WrongSeat)
    } else {
        None
    }
}

/// What becomes of the action that a player has proposed for their
/// turn: it stands if the rules open it to the player, and gives way
/// to `Income` if not.
pub fn vet_action(state: &GameState, actor: &PlayerID, proposed: Action) -> (r: Action)
    requires
        state.knows(*actor),
    ensures
        r == (if on_offer(state.active_players@, *actor, state.coins_of(*actor), proposed) {
            proposed
        } else {
            Action::Income
        }),
        on_offer(state.active_players@, *actor, state.coins_of(*actor), r),
{
    if is_on_offer(state, actor, &proposed) {
        proposed
    } else {
        Action::Income
    }
}

/// What becomes of the player that `actor` has proposed as the target
/// of a forced coup: it stands if it is another active player, and
/// gives way to the first other active player if not.
pub fn vet_target(state: &GameState, actor: &PlayerID, proposed: PlayerID) -> (r: PlayerID)
    requires
        state.has_rival(*actor),
    ensures
        r == (if proposed != *actor && state.active_players@.contains(proposed) {
            proposed
        } else {
            state.rival_of(*actor).unwrap()
        }),
        r != *actor,
        state.active_players@.contains(r),
{
    if proposed != *actor && state.is_active(&proposed) {
        proposed
    } else {
        match state.first_rival(actor) {
            Some(rival) => rival,
            None => vstd::pervasive::unreached(),
        }
    }
}

/// What becomes of the answer of `blocker` to the offer to block
/// `action`: a counter-action stands if it is one of those that the
/// catalogue opens to the blocker against the action.
pub fn vet_block(action: &Action, blocker: &PlayerID, proposed: Option<Action>) -> (r: Option<Action>)
    ensures
        r == (match (proposed, action.counters(*blocker)) {
            (Some(counter), Some(list)) => if list.contains(counter) {
                Some(counter)
            } else {
                None
            },
            _ => None,
        }),
{
    match (proposed, action.blockable(blocker)) {
        (Some(counter), Some(list)) => {
            if counter.is_among(&list) {
                Some(counter)
            } else {
                None
            }
        },
        _ => None,
    }
}

impl<P: Player, L: Logger> Game<P, L> {
    /// The rules that the game is played by.
    pub closed spec fn rules(&self) -> GameRules {
        self.rules
    }

    /// All the cards of the game, as the deck held them at first.
    pub closed spec fn pool(&self) -> Seq<Identity> {
        stack(self.identities.members(), self.state.num_cards as nat)
    }

    /// The list of active players that the public record shows.
    pub closed spec fn active(&self) -> Seq<PlayerID> {
        self.state.active_players@
    }

    /// Whether the cards have been dealt.
    pub closed spec fn dealt(&self) -> bool {
        self.dealt
    }

    /// Whether one of the players answers at a prompt.
    pub closed spec fn interactive(&self) -> bool {
        self.interactive
    }

    /// Whether the deck holds a card for each card that the rules deal.
    pub open spec fn deck_suffices(&self) -> bool {
        self@.deck.len() >= self@.seats.len() * self.rules().starting_cards
    }

    /// Whether the game can be played: the cards are dealt, or can be.
    pub open spec fn ready(&self) -> bool {
        self.dealt() || self.deck_suffices()
    }

    /// Whether this is the game `before` at another time: same rules, same
    /// cards, and dealt if `before` was.
    pub open spec fn continues(&self, before: &Self) -> bool {
        &&& self.rules() == before.rules()
        &&& self.pool() == before.pool()
        &&& self.interactive() == before.interactive()
        &&& before.dealt() ==> self.dealt()
    }

    /// The invariant of a game. Each player sits at the index of their key
    /// and takes their turn in that order; the public record is up to date;
    /// the rules are valid; no hand is over its limit; the cards of deck,
    /// hands and revealed identities are those of the pool; once the cards
    /// are dealt, every player holds a card for each life and as many more
    /// as the rules have dealt them over their lives, and until then every
    /// seat is fresh.
    pub closed spec fn wf(&self) -> bool {
        let n = self.driver.players.len();
        &&& self.structured()
        &&& self@.hands_fit()
        &&& self@.cards() == self.pool().to_multiset()
        &&& self.dealt ==> self@.lives_are_backed(self.spare())
        &&& !self.dealt ==> {
            &&& forall|i: int|
                0 <= i < n ==> (#[trigger] self@.seats[i]) == fresh_seat(
                    self@.seats[i].name,
                    self.rules,
                )
        }
    }

    /// How many cards more than lives the rules give each player.
    spec fn spare(&self) -> nat {
        (self.rules.starting_cards - self.rules.starting_lives) as nat
    }

    /// The part of the invariant that holds while the cards are dealt too.
    spec fn structured(&self) -> bool {
        let n = self.driver.players.len();
        &&& n <= MAX_PLAYERS
        &&& self.state.player_states.len() == n
        &&& self.state.turn_order.len() == n
        &&& forall|i: int| 0 <= i < n ==> (#[trigger] self.state.turn_order[i]) == PlayerID(i as u8)
        &&& forall|i: int| 0 <= i < n ==> (#[trigger] self.driver.players[i]).id() == PlayerID(i as u8)
        &&& self.state.active_players@ == self.state.living()
        &&& self.rules.valid()
    }

    /// Whether nothing but the table tells this game from `before`.
    spec fn same_setting(&self, before: &Self) -> bool {
        &&& self.rules == before.rules
        &&& self.identities == before.identities
        &&& self.state.num_cards == before.state.num_cards
        &&& self.interactive == before.interactive
        &&& self.dealt == before.dealt
    }

    /// What the invariant of a game says of the table.
    pub proof fn wf_means(&self)
        requires
            self.wf(),
        ensures
            self@.seats.len() <= MAX_PLAYERS,
            self.rules().valid(),
            self@.hands_fit(),
            self@.cards() == self.pool().to_multiset(),
            self.dealt() ==> self@.lives_are_backed(
                (self.rules().starting_cards - self.rules().starting_lives) as nat,
            ),
            !self.dealt() ==> forall|i: int|
                0 <= i < self@.seats.len() ==> (#[trigger] self@.seats[i]) == fresh_seat(
                    self@.seats[i].name,
                    self.rules(),
                ),
    {
    }

    /// Where the rules deal each player a card for each life and no more, a
    /// player without a life has no card in the hand.
    pub proof fn the_dead_hold_no_cards(&self, id: PlayerID)
        requires
            self.wf(),
            self.dealt(),
            self.rules().starting_cards == self.rules().starting_lives,
            self@.knows(id),
            !self@.alive(id),
        ensures
            self@.seat(id).hand.len() == 0,
    {
        assert(self@.seats[id.0 as int].hand.len() == self@.seats[id.0 as int].lives
            + self.spare());
    }

    /// At every point of a game, the cards in the hands, the revealed
    /// identities and the deck are together as many as the pool has first
    /// held, and the same cards, kind by kind.
    pub proof fn cards_are_conserved(&self)
        requires
            self.wf(),
        ensures
            self@.card_count() == self.pool().len(),
            self@.cards() == self.pool().to_multiset(),
    {
        crate::table::cards_count(self@);
        self.pool().to_multiset_ensures();
    }

    /// In a game the list of active players holds the players with a life
    /// left, each once, and the game is over exactly if that list is no
    /// longer than one.
    pub proof fn active_are_alive(&self)
        requires
            self.wf(),
        ensures
            forall|id: PlayerID| self.active().contains(id) <==> self@.alive(id),
            self.active().no_duplicates(),
            self.active().len() <= 1 <==> self@.over(),
    {
        let order = self.state.turn_order@;
        let states = self.state.player_states@;
        let active = self.state.active_players@;
        assert forall|id: PlayerID| active.contains(id) <==> self@.alive(id) by {
            crate::state::living_are_exact(order, states, id);
            if self@.alive(id) {
                assert(order[id.0 as int] == id);
            }
            if active.contains(id) {
                assert(states[id.0 as int].num_lives == self@.seats[id.0 as int].lives);
            }
        }
        assert(order.no_duplicates()) by {
            assert forall|i: int, j: int|
                0 <= i < order.len() && 0 <= j < order.len() && i != j implies order[i]
                != order[j] by {
                assert(order[i] == PlayerID(i as u8));
                assert(order[j] == PlayerID(j as u8));
            }
        }
        crate::state::living_are_distinct(order, states);
        if active.len() <= 1 {
            assert forall|a: PlayerID, b: PlayerID| self@.alive(a) && self@.alive(b) implies a == b by {
                assert(active.contains(a));
                assert(active.contains(b));
            }
        } else {
            assert(active.contains(active[0]));
            assert(active.contains(active[1]));
            assert(active[0] != active[1]);
        }
    }

    /// A game of `players`, who take their turns in the order of the list
    /// and go by `names`. The deck holds three cards of each identity for
    /// up to four players and four cards for more. Nothing is dealt yet,
    /// and whether the deck can serve everyone is left to `is_ready`.
    pub fn with_players(
        identities: IdentitySet,
        players: Vec<P>,
        names: Vec<String>,
        logger: L,
        rules: GameRules,
        interactive: bool,
    ) -> (r: Result<Self, SetupError>)
        ensures
            match r {
                Ok(game) => {
                    &&& setup_fault(identities, players@, names@.len(), rules).is_none()
                    &&& game.wf()
                    &&& !game.dealt()
                    &&& game.rules() == rules
                    &&& game.interactive() == interactive
                    &&& game.pool() == stack(
                        identities.members(),
                        cards_per_identity(players@.len()),
                    )
                    &&& game@.deck == game.pool()
                    &&& game@.deck.len() == identities.members().len() * cards_per_identity(
                        players@.len(),
                    )
                    &&& game@.seats.len() == players@.len()
                    &&& forall|i: int|
                        0 <= i < players@.len() ==> (#[trigger] game@.seats[i]) == fresh_seat(
                            names@[i]@,
                            rules,
                        )
                },
                Err(e) => setup_fault(identities, players@, names@.len(), rules) == Some(e),
            },
    {
        if !rules.is_valid() {
            return Err(SetupError::InvalidRules);
        }
        let n = players.len();
        if n > MAX_PLAYERS {
            return Err(SetupError::TooManyPlayers);
        }
        if names.len() != n {
            return Err(SetupError::NamesMismatch);
        }
        let num_cards: u8 = if 1 <= n && n <= 4 {
            3
        } else {
            4
        };
        let mut driver: GameDriver<P> = GameDriver::new(identities, num_cards);
        proof {
            crate::field::stack_size(identities.members(), num_cards as nat);
            assert(num_cards == cards_per_identity(n as nat));
        }
        let mut player_states: Vec<PlayerState> = Vec::new();
        let mut turn_order: Vec<PlayerID> = Vec::new();
        let mut i: usize = 0;
        while i < n
            invariant
                i <= n,
                n == players@.len(),
                n == names@.len(),
                n <= MAX_PLAYERS,
                rules.valid(),
                player_states@.len() == i,
                turn_order@.len() == i,
                forall|j: int| 0 <= j < i ==> seated(#[trigger] players@[j], j),
                forall|j: int| 0 <= j < i ==> (#[trigger] turn_order@[j]) == PlayerID(j as u8),
                forall|j: int|
                    0 <= j < i ==> {
                        &&& (#[trigger] player_states@[j]).player_name@ == names@[j]@
                        &&& player_states@[j].num_coins == rules.starting_coins
                        &&& player_states@[j].num_lives == rules.starting_lives
                        &&& player_states@[j].lost_lives@ == Seq::<Identity>::empty()
                    },
            decreases n - i,
        {
            let id = PlayerID(i as u8);
            if *players[i].who_am_i() != id || players[i].get_hand().len() != 0 {
                assert(!seated(players@[i as int], i as int));
                return Err(SetupError::WrongSeat);
            }
            let mut seat = PlayerState::new(names[i].clone(), rules.starting_lives);
            seat.num_coins = rules.starting_coins;
            player_states.push(seat);
            turn_order.push(id);
            i += 1;
        }
        let mut state = GameState::new(num_cards, turn_order);
        state.player_states = player_states;
        state.update_active_players();
        driver.players = players;
        let game = Game { driver, state, logger, interactive, rules, identities, dealt: false };
        proof {
            assert forall|j: int| 0 <= j < n implies (#[trigger] game@.seats[j]) == fresh_seat(
                names@[j]@,
                rules,
            ) by {
                assert(seated(players@[j], j));
                assert(game.driver.players[j].hand() =~= Seq::<Identity>::empty());
                assert(game@.seats[j].lost == game.state.player_states[j].lost_lives@);
            }
            crate::table::empty_seats_hold_nothing(game@.seats);
            assert(game@.cards() =~= game@.deck.to_multiset());
            assert forall|j: int| 0 <= j < n implies (#[trigger] game.driver.players[j]).id()
                == PlayerID(j as u8) by {
                assert(seated(players@[j], j));
            }
        }
        Ok(game)
    }

    /// The public record of the game.
    pub fn state(&self) -> (r: &GameState)
        requires
            self.wf(),
        ensures
            r.wf(),
            r.active_players@ == self.active(),
            crate::table::mirrors(*r, self@),
            r.turn_order@.len() == self@.seats.len(),
            forall|i: int|
                0 <= i < r.turn_order@.len() ==> (#[trigger] r.turn_order@[i]) == PlayerID(i as u8),
    {
        &self.state
    }

    /// The hand of player `player_id`.
    pub fn hand_of(&self, player_id: &PlayerID) -> (r: Vec<Identity>)
        requires
            self@.knows(*player_id),
        ensures
            r@ == self@.seat(*player_id).hand,
    {
        self.driver.players[player_id.0 as usize].get_hand()
    }

    /// How many cards are left in the deck.
    pub fn deck_size(&self) -> (r: usize)
        ensures
            r == self@.deck.len(),
    {
        self.driver.field.len()
    }

    /// How many players the game has.
    pub fn num_players(&self) -> (r: usize)
        ensures
            r == self@.seats.len(),
    {
        self.driver.players.len()
    }

    pub fn is_dealt(&self) -> (r: bool)
        ensures
            r == self.dealt(),
    {
        self.dealt
    }

    /// Whether the game can be played: the cards are dealt, or the deck
    /// holds enough of them to deal.
    pub fn is_ready(&self) -> (r: bool)
        requires
            self.wf(),
        ensures
            r == self.ready(),
    {
        assert(self.driver.players.len() * self.rules.starting_cards <= 255 * 2)
            by (nonlinear_arith)
            requires
                self.driver.players.len() <= 255,
                self.rules.starting_cards <= 2,
        ;
        let needed = self.driver.players.len() * (self.rules.starting_cards as usize);
        self.dealt || self.driver.field.len() >= needed
    }

    pub fn is_interactive(&self) -> (r: bool)
        ensures
            r == self.interactive(),
    {
        self.interactive
    }

    pub fn has_player(&self, player_id: &PlayerID) -> (r: bool)
        ensures
            r == self@.knows(*player_id),
    {
        (player_id.0 as usize) < self.driver.players.len()
    }

    pub fn is_player_alive(&self, player_id: &PlayerID) -> (r: bool)
        requires
            self.wf(),
            self@.knows(*player_id),
        ensures
            r == self@.alive(*player_id),
    {
        self.state.is_player_alive(player_id)
    }

    pub fn get_player_name(&self, player_id: &PlayerID) -> (r: String)
        requires
            self.wf(),
            self@.knows(*player_id),
        ensures
            r@ == self@.seat(*player_id).name,
    {
        self.state.get_player_name(player_id)
    }

    /// The players that have a life left, in turn order.
    pub fn active_players(&self) -> (r: Vec<PlayerID>)
        requires
            self.wf(),
        ensures
            forall|id: PlayerID| r@.contains(id) <==> self@.alive(id),
            r@.no_duplicates(),
            r@ == self.active(),
    {
        proof {
            self.active_are_alive();
        }
        self.state.active_players.clone()
    }

    /// Whether the game is over: at most one player has a life left.
    pub fn game_over(&self) -> (r: bool)
        requires
            self.wf(),
        ensures
            r == self@.over(),
    {
        proof {
            self.active_are_alive();
        }
        self.state.active_players.len() <= 1
    }

    /// The one player who has a life left, if there is exactly one.
    pub fn winner(&self) -> (r: Option<PlayerID>)
        requires
            self.wf(),
        ensures
            match r {
                Some(id) => self@.alive(id) && self@.over(),
                None => !self@.over() || forall|id: PlayerID| !self@.alive(id),
            },
            forall|id: PlayerID| self@.alive(id) && self@.over() ==> r == Some(id),
    {
        proof {
            self.active_are_alive();
        }
        if self.state.active_players.len() == 1 {
            let id = self.state.active_players[0];
            assert(self.state.active_players@.contains(id));
            Some(id)
        } else {
            assert forall|id: PlayerID| self@.alive(id) implies !self@.over() by {
                assert(self.state.active_players@.contains(id));
            }
            None
        }
    }

    /// Shuffles the deck.
    pub fn shuffle(&mut self)
        requires
            old(self).wf(),
        ensures
            final(self).wf(),
            final(self).continues(old(self)),
            final(self).dealt() == old(self).dealt(),
            final(self)@.seats == old(self)@.seats,
            final(self)@.deck.to_multiset() == old(self)@.deck.to_multiset(),
            final(self)@.deck.len() == old(self)@.deck.len(),
    {
        crate::chance::shuffle(&mut self.driver.field.deck);
        proof {
            assert(self@.seats =~= old(self)@.seats);
        }
    }

    /// Hands the top card of the deck to the player of seat `seat`.
    fn deal_card(&mut self, seat: usize)
        requires
            old(self).structured(),
            seat < old(self)@.seats.len(),
            old(self)@.deck.len() > 0,
            old(self)@.seats[seat as int].hand.len() < MAX_CARDS,
        ensures
            final(self).structured(),
            final(self).same_setting(old(self)),
            final(self)@ == old(self)@.hand_out(PlayerID(seat as u8)),
            final(self)@.cards() == old(self)@.cards(),
    {
        let ghost before = self@;
        match self.driver.field.draw() {
            Some(card) => {
                match self.driver.players[seat].take_card(&self.state, card) {
                    Some(back) => {
                        self.driver.field.put_back(back);
                    },
                    None => {},
                }
            },
            None => {},
        }
        proof {
            let id = PlayerID(seat as u8);
            assert(self@.seats =~= before.hand_out(id).seats);
            assert(self@ == before.hand_out(id));
            crate::table::hand_out_keeps_cards(before, id);
        }
    }

    /// Deals the cards: as many rounds as the rules give each player
    /// cards, and in each round one card off the deck to every player in
    /// turn order. The deck has to hold a card for each card dealt.
    pub fn deal(&mut self)
        requires
            old(self).wf(),
            !old(self).dealt(),
            old(self).deck_suffices(),
        ensures
            final(self).wf(),
            final(self).dealt(),
            final(self).continues(old(self)),
            final(self)@ == old(self)@.deal_out(old(self).rules().starting_cards as nat),
    {
        let n = self.driver.players.len();
        let rounds = self.rules.starting_cards;
        let ghost start = self@;
        let mut round: u8 = 0;
        proof {
            assert(0 * n == 0);
            assert(start.deck.skip(0) =~= start.deck);
        }
        while round < rounds
            invariant
                round <= rounds,
                rounds == self.rules.starting_cards,
                rounds <= MAX_CARDS,
                n == self@.seats.len(),
                n == start.seats.len(),
                self.structured(),
                self.same_setting(old(self)),
                self@.cards() == start.cards(),
                start.deck.len() >= n * rounds,
                self@.deck == start.deck.skip(round * n),
                forall|i: int|
                    0 <= i < n ==> (#[trigger] self@.seats[i]) == (SeatView {
                        hand: Seq::new(round as nat, |r: int| start.deck[r * n + i]),
                        ..start.seats[i]
                    }),
            decreases rounds - round,
        {
            let mut seat: usize = 0;
            proof {
                assert((round + 1) * n <= rounds * n) by (nonlinear_arith)
                    requires
                        round + 1 <= rounds,
                        n >= 0,
                ;
                assert((round + 1) * n == round * n + n) by (nonlinear_arith);
                assert(n * rounds == rounds * n) by (nonlinear_arith);
            }
            while seat < n
                invariant
                    seat <= n,
                    round < rounds,
                    rounds <= MAX_CARDS,
                    n == self@.seats.len(),
                    n == start.seats.len(),
                    n <= MAX_PLAYERS,
                    self.structured(),
                    self.same_setting(old(self)),
                    self@.cards() == start.cards(),
                    start.deck.len() >= round * n + n,
                    self@.deck == start.deck.skip(round * n + seat),
                    forall|i: int|
                        0 <= i < seat ==> (#[trigger] self@.seats[i]) == (SeatView {
                            hand: Seq::new((round + 1) as nat, |r: int| start.deck[r * n + i]),
                            ..start.seats[i]
                        }),
                    forall|i: int|
                        seat <= i < n ==> (#[trigger] self@.seats[i]) == (SeatView {
                            hand: Seq::new(round as nat, |r: int| start.deck[r * n + i]),
                            ..start.seats[i]
                        }),
                decreases n - seat,
            {
                let ghost before = self@;
                assert(before.seats[seat as int].hand.len() == round);
                self.deal_card(seat);
                proof {
                    let id = PlayerID(seat as u8);
                    assert(before.deck[0] == start.deck[round * n + seat]);
                    assert(self@.deck =~= start.deck.skip(round * n + seat + 1));
                    assert(self@.seats[seat as int].hand =~= Seq::new(
                        (round + 1) as nat,
                        |r: int| start.deck[r * n + seat],
                    ));
                    assert forall|i: int| seat + 1 <= i < n implies (#[trigger] self@.seats[i]) == (SeatView {
                        hand: Seq::new(round as nat, |r: int| start.deck[r * n + i]),
                        ..start.seats[i]
                    }) by {
                        assert(self@.seats[i] == before.seats[i]);
                    }
                    assert forall|i: int| 0 <= i < seat + 1 implies (#[trigger] self@.seats[i]) == (SeatView {
                        hand: Seq::new((round + 1) as nat, |r: int| start.deck[r * n + i]),
                        ..start.seats[i]
                    }) by {
                        if i < seat {
                            assert(self@.seats[i] == before.seats[i]);
                        }
                    }
                }
                seat += 1;
            }
            round += 1;
        }
        self.dealt = true;
        proof {
            let goal = start.deal_out(rounds as nat);
            assert(round * n == n * rounds) by (nonlinear_arith)
                requires
                    round == rounds,
            ;
            assert forall|i: int| 0 <= i < n implies (#[trigger] self@.seats[i]) == goal.seats[i] by {
                assert(start.seats[i] == fresh_seat(start.seats[i].name, self.rules));
                assert(start.seats[i].hand + Seq::new(rounds as nat, |r: int| start.deck[r * n + i])
                    =~= Seq::new(rounds as nat, |r: int| start.deck[r * n + i]));
            }
            assert(self@.seats =~= goal.seats);
            assert(self@ == goal);
            assert(self@.lives_are_backed(self.spare())) by {
                assert forall|i: int| 0 <= i < n implies (#[trigger] self@.seats[i]).hand.len()
                    == self@.seats[i].lives + self.spare() by {
                    assert(start.seats[i] == fresh_seat(start.seats[i].name, self.rules));
                }
            }
        }
    }

    /// Makes the game ready for the first turn, unless it is already:
    /// shuffles the deck, deals the cards and announces the turn order.
    pub fn setup(&mut self)
        requires
            old(self).wf(),
            old(self).ready(),
        ensures
            final(self).wf(),
            final(self).dealt(),
            final(self).continues(old(self)),
            old(self).dealt() ==> final(self)@ == old(self)@,
            !old(self).dealt() ==> old(self)@.set_up(
                final(self)@,
                old(self).rules().starting_cards as nat,
            ),
    {
        if self.dealt {
            return;
        }
        self.shuffle();
        let ghost shuffled = self@;
        self.deal();
        proof {
            assert(shuffled == (TableView { deck: shuffled.deck, ..old(self)@ }));
        }
        self.logger.present(crate::report::game_begins());
        let mut names: Vec<String> = Vec::new();
        let mut i: usize = 0;
        while i < self.state.turn_order.len()
            invariant
                self.wf(),
            decreases self.state.turn_order.len() - i,
        {
            let id = self.state.turn_order[i];
            names.push(self.state.get_player_name(&id));
            i += 1;
        }
        self.logger.present(crate::report::turn_order_is(&names));
    }

    /// Takes a life from player `player_id`. The player gives up one card
    /// of the hand, which is revealed. A player who has no life left is
    /// left as they are.
    pub fn kill_player(&mut self, player_id: &PlayerID)
        requires
            old(self).wf(),
            old(self).dealt(),
            old(self)@.knows(*player_id),
        ensures
            final(self).wf(),
            final(self).continues(old(self)),
            old(self)@.struck(final(self)@, *player_id),
    {
        let seat = player_id.0 as usize;
        let num_lives_left = self.state.player_states[seat].num_lives;
        if num_lives_left == 0 {
            let name = self.state.get_player_name(player_id);
            self.logger.log(crate::report::no_lives_left(name.as_str()));
            return;
        }
        let ghost before = self@;
        let ghost hand = self.driver.players[seat as int].hand();
        assert(before.seats[seat as int].hand.len() == before.seats[seat as int].lives
            + self.spare());
        let discarded = self.driver.players[seat].lose_life(&self.state);
        let ghost index = choose|i: int|
            0 <= i < hand.len() && discarded == hand[i] && self.driver.players[seat as int].hand()
                == hand.remove(i);
        let name = self.state.get_player_name(player_id);
        self.logger.log(crate::report::discarded(name.as_str(), discarded));
        self.state.player_states[seat].lost_lives.push(discarded);
        self.state.player_states[seat].num_lives -= 1;
        self.state.update_active_players();
        proof {
            assert(self@.seats =~= before.lose(*player_id, index).seats);
            assert(self@ == before.lose(*player_id, index));
            crate::table::struck_is_fair(before, self@, *player_id);
        }
    }

    /// Adds `amount` coins to the purse of player `id`.
    fn add_coins(&mut self, id: &PlayerID, amount: u8)
        requires
            old(self).wf(),
            old(self).dealt(),
            old(self)@.knows(*id),
            old(self)@.seat(*id).coins + amount <= u8::MAX,
        ensures
            final(self).wf(),
            final(self).continues(old(self)),
            final(self)@ == old(self)@.gain(*id, amount as nat),
    {
        let seat = id.0 as usize;
        let ghost before = self@;
        let ghost states = self.state.player_states@;
        let coins = self.state.player_states[seat].num_coins;
        self.state.player_states[seat].num_coins = coins + amount;
        proof {
            assert(self@.seats =~= before.gain(*id, amount as nat).seats);
            assert(self@ == before.gain(*id, amount as nat));
            crate::table::coins_keep_cards(before, *id, self@.seat(*id));
            crate::state::living_depends_on_lives(
                self.state.turn_order@,
                states,
                self.state.player_states@,
            );
        }
    }

    /// Takes `amount` coins out of the purse of player `id`.
    fn take_coins(&mut self, id: &PlayerID, amount: u8)
        requires
            old(self).wf(),
            old(self).dealt(),
            old(self)@.knows(*id),
            old(self)@.seat(*id).coins >= amount,
        ensures
            final(self).wf(),
            final(self).continues(old(self)),
            final(self)@ == old(self)@.pay(*id, amount as nat),
    {
        let seat = id.0 as usize;
        let ghost before = self@;
        let ghost states = self.state.player_states@;
        let coins = self.state.player_states[seat].num_coins;
        self.state.player_states[seat].num_coins = coins - amount;
        proof {
            assert(self@.seats =~= before.pay(*id, amount as nat).seats);
            assert(self@ == before.pay(*id, amount as nat));
            crate::table::coins_keep_cards(before, *id, self@.seat(*id));
            crate::state::living_depends_on_lives(
                self.state.turn_order@,
                states,
                self.state.player_states@,
            );
        }
    }

    /// Whether the rules let `actor` carry out `action` as the table stands.
    pub fn can_apply(&self, action: &Action, actor: &PlayerID) -> (r: bool)
        requires
            self.wf(),
        ensures
            r == self@.can_apply(*action, *actor),
    {
        if !self.has_player(actor) {
            return false;
        }
        let coins = self.state.coins(actor);
        match action {
            Action::Income => coins <= u8::MAX - 1,
            Action::ForeignAid => coins <= u8::MAX - 2,
            Action::Tax => coins <= u8::MAX - 3,
            Action::Steal(target) => {
                if !self.has_player(target) {
                    false
                } else if *target == *actor {
                    true
                } else {
                    let theirs = self.state.coins(target);
                    let loot: u8 = if theirs < 2 {
                        theirs
                    } else {
                        2
                    };
                    coins <= u8::MAX - loot
                }
            },
            Action::Assassinate(target) => self.has_player(target) && coins >= ASSASSINATION_COST,
            Action::Coup(target) => self.has_player(target) && coins >= COUP_COST,
            Action::Exchange => true,
            _ => false,
        }
    }

    /// Carries out the effect of `action`, declared by `actor`: coins are
    /// gained, stolen or paid, and the target of an assassination or a
    /// coup loses a life.
    pub fn process_action(&mut self, action: &Action, actor: &PlayerID)
        requires
            old(self).wf(),
            old(self).dealt(),
            action.has_effect() ==> old(self)@.can_apply(*action, *actor),
        ensures
            final(self).wf(),
            final(self).continues(old(self)),
            old(self)@.applied(final(self)@, *action, *actor),
    {
        match action {
            Action::Income => {
                self.add_coins(actor, 1);
            },
            Action::ForeignAid => {
                self.add_coins(actor, 2);
            },
            Action::Tax => {
                self.add_coins(actor, 3);
            },
            Action::Steal(target) => {
                let theirs = self.state.coins(target);
                let coins_to_steal: u8 = if theirs < 2 {
                    theirs
                } else {
                    2
                };
                self.take_coins(target, coins_to_steal);
                self.add_coins(actor, coins_to_steal);
            },
            Action::Assassinate(target) => {
                self.take_coins(actor, ASSASSINATION_COST);
                self.kill_player(target);
            },
            Action::Coup(target) => {
                self.take_coins(actor, COUP_COST);
                self.kill_player(target);
            },
            _ => {
                self.logger.log(crate::report::nothing_to_apply(action));
            },
        }
    }

    /// Settles `challenge`: the challenged player wins it if the hand
    /// holds the identity that the action claims, and the challenger wins
    /// it if not. The one who does not win loses a life. Tells whether
    /// the challenger has won.
    pub fn process_challenge(&mut self, challenge: &Challenge) -> (challenger_won: bool)
        requires
            old(self).wf(),
            old(self).dealt(),
            old(self)@.knows(challenge.actor_id),
            old(self)@.knows(challenge.challenger_id),
            challenge.action.target() matches Some(t) ==> old(self)@.knows(t),
        ensures
            final(self).wf(),
            final(self).continues(old(self)),
            challenger_won == !entitled(old(self)@.seat(challenge.actor_id).hand, challenge.action),
            old(self)@.struck(
                final(self)@,
                if challenger_won {
                    challenge.actor_id
                } else {
                    challenge.challenger_id
                },
            ),
    {
        let actor_id = challenge.actor_id;
        let challenger_id = challenge.challenger_id;
        let action = challenge.action;
        let challenger_name = self.state.get_player_name(&challenger_id);
        let actor_name = self.state.get_player_name(&actor_id);
        let action_text = self.state.display_action(action);
        self.logger.log(
            crate::report::challenge_declared(
                challenger_name.as_str(),
                actor_name.as_str(),
                action_text.as_str(),
            ),
        );
        let challenger_won = !self.driver.players[actor_id.0 as usize].can_do_action(&action);
        let loser_id = if challenger_won {
            actor_id
        } else {
            challenger_id
        };
        let loser_name = self.state.get_player_name(&loser_id);
        self.logger.log(crate::report::challenge_lost(loser_name.as_str()));
        self.kill_player(&loser_id);
        challenger_won
    }

    /// The action of `actor` for this turn. A player with fewer coins than
    /// force a coup is asked for an action; one with more is asked for the
    /// target of the coup. What the player answers is vetted.
    pub fn declare_action(&self, actor: &PlayerID) -> (r: Action)
        requires
            self.wf(),
            self.dealt(),
            self@.alive(*actor),
            !self@.over(),
        ensures
            self@.can_apply(r, *actor),
            !r.is_counter(),
            r.target() matches Some(t) ==> t != *actor && self@.alive(t),
            self@.seat(*actor).coins >= self.rules().required_coup_coins ==> r matches Action::Coup(_),
            self@.seat(*actor).coins < self.rules().required_coup_coins ==> on_offer(
                self.active(),
                *actor,
                self@.seat(*actor).coins as u8,
                r,
            ),
    {
        proof {
            self.active_are_alive();
            let active = self.state.active_players@;
            assert(active.len() >= 2);
            assert(active[0] != active[1]);
            assert(self.state.has_rival(*actor));
        }
        let player = &self.driver.players[actor.0 as usize];
        let coins = player.count_coins(&self.state);
        let action = if coins < self.rules.required_coup_coins {
            vet_action(&self.state, actor, player.choose_action(&self.state))
        } else {
            Action::Coup(vet_target(&self.state, actor, player.choose_forced_coup(&self.state)))
        };
        proof {
            if let Some(t) = action.target() {
                assert(self.state.active_players@.contains(t));
            }
        }
        action
    }

    /// Offers each active player other than `actor`, in turn order, to
    /// block `action` where the catalogue lets them. The first to declare
    /// a counter-action that is open to them is the blocker.
    pub fn offer_blocks(&self, actor: &PlayerID, action: &Action) -> (r: Option<Block>)
        requires
            self.wf(),
            self@.knows(*actor),
            action.target() matches Some(t) ==> self@.knows(t),
        ensures
            match r {
                Some(Block { blocker, counter }) => {
                    &&& blocker != *actor
                    &&& self@.alive(blocker)
                    &&& counter.is_counter()
                    &&& action.counters(blocker) matches Some(list) && list.contains(counter)
                },
                None => true,
            },
            (forall|id: PlayerID| self@.alive(id) && id != *actor ==> action.counters(id).is_none())
                ==> r.is_none(),
    {
        proof {
            self.active_are_alive();
        }
        let mut i: usize = 0;
        while i < self.state.active_players.len()
            invariant
                self.wf(),
                self@.knows(*actor),
                action.target() matches Some(t) ==> self@.knows(t),
                forall|id: PlayerID| self.state.active_players@.contains(id) <==> self@.alive(id),
            decreases self.state.active_players.len() - i,
        {
            let blocker_id = self.state.active_players[i];
            assert(self.state.active_players@.contains(blocker_id));
            if blocker_id != *actor && action.blockable(&blocker_id).is_some() {
                let blocker = &self.driver.players[blocker_id.0 as usize];
                let answer = blocker.will_block(&self.state, actor, action);
                match vet_block(action, &blocker_id, answer) {
                    Some(counter) => {
                        return Some(Block { blocker: blocker_id, counter });
                    },
                    None => {},
                }
            }
            i += 1;
        }
        None
    }

    /// Asks the active players one after the other whether they challenge
    /// `action` of `actor_id`. The first who does is the challenger.
    pub fn check_for_challenges(&self, actor_id: &PlayerID, action: &Action) -> (r: Option<Challenge>)
        requires
            self.wf(),
            self@.knows(*actor_id),
            action.target() matches Some(t) ==> self@.knows(t),
        ensures
            r matches Some(challenge) ==> {
                &&& challenge.actor_id == *actor_id
                &&& challenge.action == *action
                &&& challenge.challenger_id != *actor_id
                &&& self@.alive(challenge.challenger_id)
            },
            (forall|id: PlayerID| self@.alive(id) ==> id == *actor_id) ==> r.is_none(),
    {
        proof {
            self.active_are_alive();
        }
        let mut i: usize = 0;
        while i < self.state.active_players.len()
            invariant
                self.wf(),
                self@.knows(*actor_id),
                action.target() matches Some(t) ==> self@.knows(t),
                forall|id: PlayerID| self.state.active_players@.contains(id) <==> self@.alive(id),
            decreases self.state.active_players.len() - i,
        {
            let challenger_id = self.state.active_players[i];
            assert(self.state.active_players@.contains(challenger_id));
            if challenger_id != *actor_id {
                let challenger = &self.driver.players[challenger_id.0 as usize];
                if challenger.will_challenge(&self.state, actor_id, action) {
                    return Some(Challenge { actor_id: *actor_id, challenger_id, action: *action });
                }
            }
            i += 1;
        }
        None
    }

    /// Opens `action` of `claimant` to challenge and settles the
    /// challenge, if one is made.
    pub fn adjudicate(&mut self, claimant: &PlayerID, action: &Action) -> (r: Verdict)
        requires
            old(self).wf(),
            old(self).dealt(),
            old(self)@.knows(*claimant),
            action.target() matches Some(t) ==> old(self)@.knows(t),
        ensures
            final(self).wf(),
            final(self).continues(old(self)),
            old(self)@.leads_to(final(self)@),
            old(self)@.same_coins(final(self)@),
            adjudicated(old(self)@, final(self)@, *claimant, *action, r),
    {
        match self.check_for_challenges(claimant, action) {
            Some(challenge) => {
                let challenger_won = self.process_challenge(&challenge);
                proof {
                    let loser = if challenger_won {
                        challenge.actor_id
                    } else {
                        challenge.challenger_id
                    };
                    crate::table::struck_is_fair(old(self)@, self@, loser);
                }
                Verdict::of(challenge.challenger_id, challenger_won)
            },
            None => Verdict::Unchallenged,
        }
    }

    /// Resolves the turn of `actor` and tells what has happened in it. The
    /// player declares an action; the others may block it; a block, and
    /// an action that no block stops, may be challenged; and the action
    /// that is left standing is carried out. A player without a life takes
    /// no turn, and no turn is taken in a game that is over.
    pub fn take_turn(&mut self, actor: &PlayerID) -> (r: Option<TurnSummary>)
        requires
            old(self).wf(),
            old(self).dealt(),
            old(self)@.knows(*actor),
        ensures
            final(self).wf(),
            final(self).continues(old(self)),
            old(self)@.leads_to(final(self)@),
            r.is_some() == (old(self)@.alive(*actor) && !old(self)@.over()),
            match r {
                Some(summary) => summary.played(
                    old(self)@,
                    final(self)@,
                    *actor,
                    old(self).rules().required_coup_coins,
                ),
                None => final(self)@ == old(self)@,
            },
            turn_taken(old(self)@, final(self)@, *actor, old(self).rules().required_coup_coins),
    {
        if !self.is_player_alive(actor) || self.game_over() {
            return None;
        }
        let actor_name = self.get_player_name(actor);
        self.logger.log(crate::report::turn_begins(actor_name.as_str()));
        let action = self.declare_action(actor);
        let action_text = self.state.display_action(action);
        self.logger.log(crate::report::action_chosen(actor_name.as_str(), action_text.as_str()));
        let block = self.offer_blocks(actor, &action);
        let mut phase = TurnState::blocks_offered(action, block);
        let mut on_block = Verdict::Unchallenged;
        match block {
            Some(Block { blocker, counter }) => {
                let blocker_name = self.get_player_name(&blocker);
                let counter_text = self.state.display_action(counter);
                self.logger.log(
                    crate::report::block_declared(
                        blocker_name.as_str(),
                        actor_name.as_str(),
                        action_text.as_str(),
                        counter_text.as_str(),
                    ),
                );
                on_block = self.adjudicate(&blocker, &counter);
                phase = TurnState::block_adjudicated(action, on_block, self.game_over());
            },
            None => {},
        }
        let ghost blocked = self@;
        let mut on_action = Verdict::Unchallenged;
        match phase {
            TurnState::AdjudicatingActionChallenge { .. } => {
                on_action = self.adjudicate(actor, &action);
                phase = TurnState::action_adjudicated(action, on_action, self.game_over());
            },
            _ => {},
        }
        let ghost challenged = self@;
        let applied = match phase {
            TurnState::ApplyingEffect { .. } => {
                proof {
                    crate::table::can_apply_goes_by_coins(old(self)@, self@, action, *actor);
                }
                self.process_action(&action, actor);
                proof {
                    crate::table::applied_is_fair(challenged, self@, action, *actor);
                }
                true
            },
            _ => false,
        };
        let summary = TurnSummary { action, block, on_block, on_action, applied };
        proof {
            crate::table::leads_to_is_transitive(old(self)@, blocked, challenged);
            crate::table::leads_to_is_transitive(old(self)@, challenged, self@);
            assert(summary.tells(
                old(self)@,
                blocked,
                challenged,
                self@,
                *actor,
                self.rules.required_coup_coins,
            ));
            assert(summary.played(old(self)@, self@, *actor, self.rules.required_coup_coins));
        }
        Some(summary)
    }

    /// Plays one round: the turn of every player comes up, in turn order.
    pub fn play_round(&mut self)
        requires
            old(self).wf(),
            old(self).dealt(),
        ensures
            final(self).wf(),
            final(self).continues(old(self)),
            old(self)@.leads_to(final(self)@),
            round_played(old(self)@, final(self)@, old(self).rules().required_coup_coins),
            old(self)@.over() ==> final(self)@ == old(self)@,
    {
        let n = self.driver.players.len();
        let ghost mut trace = seq![self@];
        let mut i: usize = 0;
        while i < n
            invariant
                i <= n,
                n == self@.seats.len(),
                n == old(self)@.seats.len(),
                n <= MAX_PLAYERS,
                self.wf(),
                self.dealt(),
                self.continues(old(self)),
                old(self)@.leads_to(self@),
                trace.len() == i + 1,
                trace.first() == old(self)@,
                trace.last() == self@,
                turn_by_turn(trace, self.rules.required_coup_coins),
                old(self)@.over() ==> self@ == old(self)@,
            decreases n - i,
        {
            let ghost before = self@;
            let active_id = PlayerID(i as u8);
            let _ = self.take_turn(&active_id);
            proof {
                crate::table::leads_to_is_transitive(old(self)@, before, self@);
                let longer = trace.push(self@);
                assert forall|k: int| 0 <= k < longer.len() - 1 implies turn_taken(
                    #[trigger] longer[k],
                    longer[k + 1],
                    PlayerID(k as u8),
                    self.rules.required_coup_coins,
                ) by {
                    if k < trace.len() - 1 {
                        assert(longer[k] == trace[k] && longer[k + 1] == trace[k + 1]);
                    }
                }
                trace = longer;
            }
            i += 1;
        }
    }

    /// Plays the game: sets it up, then plays round after round until the
    /// game is over or `max_rounds` rounds are played, and announces how it
    /// stands. Gives the winner, if there is exactly one player left.
    pub fn play(&mut self, max_rounds: usize) -> (r: Option<PlayerID>)
        requires
            old(self).wf(),
            old(self).ready(),
        ensures
            final(self).wf(),
            final(self).dealt(),
            final(self).continues(old(self)),
            exists|ready: TableView, rounds: nat|
                {
                    &&& if old(self).dealt() {
                        ready == old(self)@
                    } else {
                        old(self)@.set_up(ready, old(self).rules().starting_cards as nat)
                    }
                    &&& rounds <= max_rounds
                    &&& rounds == max_rounds || final(self)@.over()
                    &&& rounds_played(
                        ready,
                        final(self)@,
                        rounds,
                        old(self).rules().required_coup_coins,
                    )
                    &&& ready.leads_to(final(self)@)
                },
            match r {
                Some(id) => final(self)@.alive(id) && final(self)@.over(),
                None => !final(self)@.over() || forall|id: PlayerID| !final(self)@.alive(id),
            },
            forall|id: PlayerID| final(self)@.alive(id) && final(self)@.over() ==> r == Some(id),
    {
        self.setup();
        let ghost ready = self@;
        let ghost mut trace = seq![self@];
        let mut rounds: usize = 0;
        while rounds < max_rounds && !self.game_over()
            invariant
                self.wf(),
                self.dealt(),
                self.continues(old(self)),
                ready.leads_to(self@),
                rounds <= max_rounds,
                trace.len() == rounds + 1,
                trace.first() == ready,
                trace.last() == self@,
                round_by_round(trace, self.rules.required_coup_coins),
            ensures
                rounds == max_rounds || self@.over(),
            decreases max_rounds - rounds,
        {
            let ghost before = self@;
            self.play_round();
            proof {
                crate::table::leads_to_is_transitive(ready, before, self@);
                let longer = trace.push(self@);
                assert forall|k: int| 0 <= k < longer.len() - 1 implies !(#[trigger] longer[k]).over()
                    && round_played(longer[k], longer[k + 1], self.rules.required_coup_coins) by {
                    if k < trace.len() - 1 {
                        assert(longer[k] == trace[k] && longer[k + 1] == trace[k + 1]);
                    }
                }
                trace = longer;
            }
            rounds += 1;
        }
        proof {
            assert(rounds_played(ready, self@, rounds as nat, self.rules.required_coup_coins));
        }
        let _ = self.present_game_results();
        self.winner()
    }

    /// Announces how the game stands, and hands back what it has
    /// announced: that the one player who is left has won, or, where
    /// more than one is left or nobody, that there is no single winner.
    pub fn present_game_results(&self) -> (r: String)
        requires
            self.wf(),
        ensures
            forall|id: PlayerID|
                self@.alive(id) && self@.over() ==> r@ == self@.seat(id).name + " won!"@,
            (!self@.over() || forall|id: PlayerID| !self@.alive(id)) ==> r@
                == "Uh oh... a lot of people won?"@,
    {
        let message = match self.winner() {
            Some(id) => {
                let name = self.get_player_name(&id);
                crate::report::winner(name.as_str())
            },
            None => crate::report::no_winner(),
        };
        self.logger.log(message.clone());
        message
    }
}

} // verus!

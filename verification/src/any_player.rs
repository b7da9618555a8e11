use crate::action::{Action, PlayerID};
use crate::config::{count_locals, locals, PlayerConfig, PlayerType};
use crate::dumb_player::DumbPlayer;
use crate::field::stack;
use crate::game::{cards_per_identity, fresh_seat, seated, setup_fault, Game, SetupError, MAX_PLAYERS};
use crate::human_player::HumanPlayer;
use crate::identity::{Identity, IdentitySet};
use crate::logger::Logger;
use crate::player::{on_offer, Player};
use crate::prompter::Prompter;
use crate::random_player::{options, RandomPlayer};
use crate::state::{GameRules, GameState};
use vstd::prelude::*;

verus! {

/// A player of any of the kinds that the library knows. Each decision
/// is that of the player inside.
pub enum AnyPlayer<Pr: Prompter> {
    Dumb(DumbPlayer),
    Random(RandomPlayer),
    Human(HumanPlayer<Pr>),
}

impl<Pr: Prompter> Player for AnyPlayer<Pr> {
    open spec fn hand(&self) -> Seq<Identity> {
        match self {
            AnyPlayer::Dumb(player) => player.hand(),
            AnyPlayer::Random(player) => player.hand(),
            AnyPlayer::Human(player) => player.hand(),
        }
    }

    open spec fn id(&self) -> PlayerID {
        match self {
            AnyPlayer::Dumb(player) => player.id(),
            AnyPlayer::Random(player) => player.id(),
            AnyPlayer::Human(player) => player.id(),
        }
    }

    /// The action that the player inside declares: income from the dumb
    /// player, one of its options from the random player, and from each
    /// an action that the rules open to the player.
    fn choose_action(&self, state: &GameState) -> (r: Action)
        ensures
            on_offer(state.active_players@, self.id(), state.coins_of(self.id()), r),
            self matches AnyPlayer::Dumb(_) ==> r == Action::Income,
            self matches AnyPlayer::Random(_) ==> state.rival_of(self.id()) matches Some(target)
                && options(target, state.coins_of(self.id())).contains(r),
    {
        match self {
            AnyPlayer::Dumb(player) => player.choose_action(state),
            AnyPlayer::Random(player) => player.choose_action(state),
            AnyPlayer::Human(player) => player.choose_action(state),
        }
    }

    /// Whether the player inside challenges; the dumb player never does.
    fn will_challenge(&self, state: &GameState, player_id: &PlayerID, action: &Action) -> (r: bool)
        ensures
            self matches AnyPlayer::Dumb(_) ==> !r,
    {
        match self {
            AnyPlayer::Dumb(player) => player.will_challenge(state, player_id, action),
            AnyPlayer::Random(player) => player.will_challenge(state, player_id, action),
            AnyPlayer::Human(player) => player.will_challenge(state, player_id, action),
        }
    }

    /// The counter-action that the player inside declares: none from the
    /// dumb player, and from the others none but one that the catalogue
    /// opens to the player against the action.
    fn will_block(&self, state: &GameState, player_id: &PlayerID, action: &Action) -> (r: Option<
        Action,
    >)
        ensures
            self matches AnyPlayer::Dumb(_) ==> r.is_none(),
            r matches Some(counter) ==> action.counters(self.id()) matches Some(list)
                && list.contains(counter),
    {
        match self {
            AnyPlayer::Dumb(player) => player.will_block(state, player_id, action),
            AnyPlayer::Random(player) => player.will_block(state, player_id, action),
            AnyPlayer::Human(player) => player.will_block(state, player_id, action),
        }
    }

    /// The index of the card that the player inside gives up for `card`:
    /// none from the dumb player, none or the first from the random player.
    fn choose_card_to_replace(&self, state: &GameState, card: &Identity) -> (r: Option<usize>)
        ensures
            self matches AnyPlayer::Dumb(_) ==> r.is_none(),
            self matches AnyPlayer::Random(_) ==> r.is_none() || r == Some(0usize),
    {
        match self {
            AnyPlayer::Dumb(player) => player.choose_card_to_replace(state, card),
            AnyPlayer::Random(player) => player.choose_card_to_replace(state, card),
            AnyPlayer::Human(player) => player.choose_card_to_replace(state, card),
        }
    }

    /// The index of the card that the player inside reveals: the first
    /// from the dumb player and from the random player.
    fn choose_card_to_lose(&self, state: &GameState) -> (r: usize)
        ensures
            self matches AnyPlayer::Dumb(_) ==> r == 0,
            self matches AnyPlayer::Random(_) ==> r == 0,
    {
        match self {
            AnyPlayer::Dumb(player) => player.choose_card_to_lose(state),
            AnyPlayer::Random(player) => player.choose_card_to_lose(state),
            AnyPlayer::Human(player) => player.choose_card_to_lose(state),
        }
    }

    /// The first active player other than this one, whoever is inside.
    fn choose_forced_coup(&self, state: &GameState) -> (r: PlayerID)
        ensures
            state.rival_of(self.id()) == Some(r),
            r != self.id(),
            state.active_players@.contains(r),
    {
        match self {
            AnyPlayer::Dumb(player) => player.choose_forced_coup(state),
            AnyPlayer::Random(player) => player.choose_forced_coup(state),
            AnyPlayer::Human(player) => player.choose_forced_coup(state),
        }
    }

    fn get_hand(&self) -> (r: Vec<Identity>) {
        match self {
            AnyPlayer::Dumb(player) => player.get_hand(),
            AnyPlayer::Random(player) => player.get_hand(),
            AnyPlayer::Human(player) => player.get_hand(),
        }
    }

    fn set_hand(&mut self, hand: Vec<Identity>) {
        match self {
            AnyPlayer::Dumb(player) => player.set_hand(hand),
            AnyPlayer::Random(player) => player.set_hand(hand),
            AnyPlayer::Human(player) => player.set_hand(hand),
        }
    }

    fn who_am_i(&self) -> (r: &PlayerID) {
        match self {
            AnyPlayer::Dumb(player) => player.who_am_i(),
            AnyPlayer::Random(player) => player.who_am_i(),
            AnyPlayer::Human(player) => player.who_am_i(),
        }
    }
}

/// What stands in the way of a game of the players of `configs` under
/// `rules`, with `prompters` prompters at hand: `None` if nothing does.
pub open spec fn config_fault(
    identities: IdentitySet,
    configs: Seq<PlayerConfig>,
    prompters: nat,
    rules: GameRules,
) -> Option<SetupError> {
    let n = configs.len();
    if !rules.valid() {
        Some(SetupError::InvalidRules)
    } else if n > MAX_PLAYERS {
        Some(SetupError::TooManyPlayers)
    } else if locals(configs) > prompters {
        Some(SetupError::MissingPrompter)
    } else {
        None
    }
}

impl<Pr: Prompter, L: Logger> Game<AnyPlayer<Pr>, L> {
    /// A game under the standard rules. See `with_rules`.
    pub fn new(
        identities: IdentitySet,
        players: Vec<PlayerConfig>,
        prompters: Vec<Pr>,
        logger: L,
    ) -> (r: Result<Self, SetupError>)
        ensures
            match r {
                Ok(game) => {
                    &&& config_fault(
                        identities,
                        players@,
                        prompters@.len(),
                        GameRules::standard_rules(),
                    ).is_none()
                    &&& game.wf()
                    &&& !game.dealt()
                    &&& game.rules() == GameRules::standard_rules()
                    &&& game.interactive() == (locals(players@) > 0)
                    &&& game.pool() == stack(
                        identities.members(),
                        cards_per_identity(players@.len()),
                    )
                    &&& game@.deck == game.pool()
                    &&& game@.deck.len() == identities.members().len() * cards_per_identity(
                        players@.len(),
                    )
                    &&& game@.seats.len() == players@.len()
                    &&& forall|i: int|
                        0 <= i < players@.len() ==> (#[trigger] game@.seats[i]) == fresh_seat(
                            players@[i].player_name@,
                            GameRules::standard_rules(),
                        )
                },
                Err(e) => config_fault(
                    identities,
                    players@,
                    prompters@.len(),
                    GameRules::standard_rules(),
                ) == Some(e),
            },
    {
        Self::with_rules(identities, players, prompters, logger, GameRules::standard())
    }

    /// A game of the players of `players`, in that order, each of the
    /// kind and under the name that their entry gives. Each local player
    /// is asked through one of `prompters`, taken from the front. Nothing
    /// is dealt yet.
    pub fn with_rules(
        identities: IdentitySet,
        players: Vec<PlayerConfig>,
        prompters: Vec<Pr>,
        logger: L,
        rules: GameRules,
    ) -> (r: Result<Self, SetupError>)
        ensures
            match r {
                Ok(game) => {
                    &&& config_fault(identities, players@, prompters@.len(), rules).is_none()
                    &&& game.wf()
                    &&& !game.dealt()
                    &&& game.rules() == rules
                    &&& game.interactive() == (locals(players@) > 0)
                    &&& game.pool() == stack(
                        identities.members(),
                        cards_per_identity(players@.len()),
                    )
                    &&& game@.deck == game.pool()
                    &&& game@.deck.len() == identities.members().len() * cards_per_identity(
                        players@.len(),
                    )
                    &&& game@.seats.len() == players@.len()
                    &&& forall|i: int|
                        0 <= i < players@.len() ==> (#[trigger] game@.seats[i]) == fresh_seat(
                            players@[i].player_name@,
                            rules,
                        )
                },
                Err(e) => config_fault(identities, players@, prompters@.len(), rules) == Some(e),
            },
    {
        if !rules.is_valid() {
            return Err(SetupError::InvalidRules);
        }
        let n = players.len();
        if n > MAX_PLAYERS {
            return Err(SetupError::TooManyPlayers);
        }
        if count_locals(&players) > prompters.len() {
            return Err(SetupError::MissingPrompter);
        }
        let mut prompters = prompters;
        let mut seats: Vec<AnyPlayer<Pr>> = Vec::new();
        let mut names: Vec<String> = Vec::new();
        let mut interactive = false;
        let mut i: usize = 0;
        while i < n
            invariant
                i <= n,
                n == players@.len(),
                n <= MAX_PLAYERS,
                seats@.len() == i,
                names@.len() == i,
                interactive == (locals(players@.take(i as int)) > 0),
                prompters@.len() + locals(players@.take(i as int)) >= locals(players@),
                forall|j: int| 0 <= j < i ==> seated(#[trigger] seats@[j], j),
                forall|j: int| 0 <= j < i ==> (#[trigger] names@[j])@ == players@[j].player_name@,
            decreases n - i,
        {
            let id = PlayerID(i as u8);
            proof {
                assert(players@.take(i + 1).drop_last() == players@.take(i as int));
                assert(players@.take(i + 1).last() == players@[i as int]);
                assert(players@.take(n as int) == players@);
                locals_between(players@, i as int);
            }
            let seat = match players[i].player_type {
                PlayerType::DumbCPU => AnyPlayer::Dumb(DumbPlayer::new(id)),
                PlayerType::RandomCPU => AnyPlayer::Random(RandomPlayer::new(id)),
                PlayerType::Local => {
                    interactive = true;
                    let prompter = prompters.remove(0);
                    AnyPlayer::Human(HumanPlayer::new(id, prompter))
                },
            };
            seats.push(seat);
            names.push(players[i].player_name.clone());
            i += 1;
        }
        proof {
            assert(players@.take(n as int) == players@);
            assert(!(exists|j: int| 0 <= j < n && !seated(#[trigger] seats@[j], j)));
        }
        let ghost wanted = names@;
        match Game::with_players(identities, seats, names, logger, rules, interactive) {
            Ok(game) => {
                proof {
                    assert forall|j: int| 0 <= j < n implies (#[trigger] game@.seats[j]) == fresh_seat(
                        players@[j].player_name@,
                        rules,
                    ) by {
                        assert(wanted[j]@ == players@[j].player_name@);
                    }
                }
                Ok(game)
            },
            Err(e) => Err(e),
        }
    }
}

/// The local players among the first `i + 1` of `configs` are among the
/// local players of `configs`.
proof fn locals_between(configs: Seq<PlayerConfig>, i: int)
    requires
        0 <= i < configs.len(),
    ensures
        locals(configs.take(i + 1)) <= locals(configs),
    decreases configs.len(),
{
    if i + 1 == configs.len() {
        assert(configs.take(i + 1) == configs);
    } else {
        assert(configs.drop_last().take(i + 1) == configs.take(i + 1));
        locals_between(configs.drop_last(), i);
    }
}

/// A list of players without a local player counts no local player.
pub proof fn no_locals_among_cpus(configs: Seq<PlayerConfig>)
    requires
        forall|i: int|
            0 <= i < configs.len() ==> (#[trigger] configs[i]).player_type != PlayerType::Local,
    ensures
        locals(configs) == 0,
    decreases configs.len(),
{
    if configs.len() > 0 {
        let front = configs.drop_last();
        assert(configs.last() == configs[configs.len() - 1]);
        assert forall|i: int| 0 <= i < front.len() implies (#[trigger] front[i]).player_type
            != PlayerType::Local by {
            assert(front[i] == configs[i]);
        }
        no_locals_among_cpus(front);
    }
}

/// Nothing stands in the way of a game under the standard rules of as
/// many players as a game can seat, none of them local, whatever the
/// identities and however many prompters are at hand.
pub proof fn a_game_of_cpus_can_be_made(
    identities: IdentitySet,
    configs: Seq<PlayerConfig>,
    prompters: nat,
)
    requires
        configs.len() <= MAX_PLAYERS,
        forall|i: int|
            0 <= i < configs.len() ==> (#[trigger] configs[i]).player_type != PlayerType::Local,
    ensures
        config_fault(identities, configs, prompters, GameRules::standard_rules()).is_none(),
{
    no_locals_among_cpus(configs);
}

} // verus!

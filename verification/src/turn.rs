use crate::action::{Action, PlayerID};
use crate::player::entitled;
use crate::table::TableView;
use vstd::prelude::*;

verus! {

/// Where the resolution of one turn stands.
#[derive(Clone, Copy, Debug, PartialEq, Eq, Structural)]
pub enum TurnState {
    /// The player whose turn it is has yet to declare an action.
    AwaitingAction,
    /// The other players are asked in turn whether they block the action.
    OfferingBlocks { action: Action },
    /// `blocker` has met the action with `counter`; the others may doubt it.
    AdjudicatingBlockChallenge { action: Action, blocker: PlayerID, counter: Action },
    /// No block stands in the way; the others may doubt the action.
    AdjudicatingActionChallenge { action: Action },
    /// The action goes through.
    ApplyingEffect { action: Action },
    /// The turn is over.
    Done,
}

/// A counter-action that a player has declared against an action.
#[derive(Clone, Copy, Debug, PartialEq, Eq, Structural)]
pub struct Block {
    pub blocker: PlayerID,
    pub counter: Action,
}

/// How a challenge has ended.
#[derive(Clone, Copy, Debug, PartialEq, Eq, Structural)]
pub enum Verdict {
    /// Nobody has challenged.
    Unchallenged,
    /// The challenged player held the identity; `challenger` lost a life.
    Upheld { challenger: PlayerID },
    /// The challenged player did not hold the identity, and lost a life.
    Exposed { challenger: PlayerID },
}

impl TurnState {
    /// How many steps the turn can still take at most.
    pub open spec fn rank(self) -> nat {
        match self {
            TurnState::AwaitingAction => 5,
            TurnState::OfferingBlocks { .. } => 4,
            TurnState::AdjudicatingBlockChallenge { .. } => 3,
            TurnState::AdjudicatingActionChallenge { .. } => 2,
            TurnState::ApplyingEffect { .. } => 1,
            TurnState::Done => 0,
        }
    }

    /// The action that the turn is about, once it is declared and as long
    /// as the turn lasts.
    pub open spec fn action(self) -> Option<Action> {
        match self {
            TurnState::OfferingBlocks { action } => Some(action),
            TurnState::AdjudicatingBlockChallenge { action, .. } => Some(action),
            TurnState::AdjudicatingActionChallenge { action } => Some(action),
            TurnState::ApplyingEffect { action } => Some(action),
            _ => None,
        }
    }

    /// Where an action stands that no block stands in the way of: open to
    /// a challenge if it claims an identity, and going through if not.
    pub open spec fn unblocked(action: Action) -> TurnState {
        if action.required_identity().is_some() {
            TurnState::AdjudicatingActionChallenge { action }
        } else {
            TurnState::ApplyingEffect { action }
        }
    }

    /// The state after `action` was declared.
    pub open spec fn after_declaration(action: Action) -> TurnState {
        TurnState::OfferingBlocks { action }
    }

    /// The state after the blocks were offered and `block` came of it.
    pub open spec fn after_offers(action: Action, block: Option<Block>) -> TurnState {
        match block {
            Some(Block { blocker, counter }) => TurnState::AdjudicatingBlockChallenge {
                action,
                blocker,
                counter,
            },
            None => Self::unblocked(action),
        }
    }

    /// The state after the block against `action` was open to challenge.
    /// A block that was not challenged, or was upheld, stands, and the
    /// turn is over. A block that was exposed falls, and the action is
    /// taken up again unless the game is over.
    pub open spec fn after_block_challenge(action: Action, verdict: Verdict, game_over: bool) -> TurnState {
        match verdict {
            Verdict::Unchallenged | Verdict::Upheld { .. } => TurnState::Done,
            Verdict::Exposed { .. } => if game_over {
                TurnState::Done
            } else {
                Self::unblocked(action)
            },
        }
    }

    /// The state after `action` was open to challenge. An action that was
    /// exposed never goes through. One that was not challenged goes
    /// through, and so does one that was upheld unless the game is over.
    pub open spec fn after_action_challenge(action: Action, verdict: Verdict, game_over: bool) -> TurnState {
        match verdict {
            Verdict::Exposed { .. } => TurnState::Done,
            Verdict::Unchallenged => TurnState::ApplyingEffect { action },
            Verdict::Upheld { .. } => if game_over {
                TurnState::Done
            } else {
                TurnState::ApplyingEffect { action }
            },
        }
    }

    pub fn is_done(&self) -> (r: bool)
        ensures
            r == (*self == TurnState::Done),
    {
        match self {
            TurnState::Done => true,
            _ => false,
        }
    }

    /// The turn starts with the declaration of `action`.
    pub fn declared(action: Action) -> (r: TurnState)
        ensures
            r == Self::after_declaration(action),
            r.rank() < TurnState::AwaitingAction.rank(),
    {
        TurnState::OfferingBlocks { action }
    }

    /// The blocks were offered: `block` holds who has blocked and how, if
    /// anyone has.
    pub fn blocks_offered(action: Action, block: Option<Block>) -> (r: TurnState)
        ensures
            r == Self::after_offers(action, block),
            r.rank() < (TurnState::OfferingBlocks { action }).rank(),
            r.action() == Some(action),
    {
        match block {
            Some(Block { blocker, counter }) => TurnState::AdjudicatingBlockChallenge {
                action,
                blocker,
                counter,
            },
            None => Self::resume(action),
        }
    }

    /// An action that nothing blocks is challenged or carried out.
    pub fn resume(action: Action) -> (r: TurnState)
        ensures
            r == Self::unblocked(action),
            r.action() == Some(action),
            0 < r.rank() <= 2,
    {
        if action.challengable() {
            TurnState::AdjudicatingActionChallenge { action }
        } else {
            TurnState::ApplyingEffect { action }
        }
    }

    /// The block against `action` was open to challenge, with `verdict`.
    pub fn block_adjudicated(action: Action, verdict: Verdict, game_over: bool) -> (r: TurnState)
        ensures
            r == Self::after_block_challenge(action, verdict, game_over),
            r.rank() < 3,
            r != TurnState::Done ==> r.action() == Some(action),
    {
        match verdict {
            Verdict::Unchallenged | Verdict::Upheld { .. } => TurnState::Done,
            Verdict::Exposed { .. } => {
                if game_over {
                    TurnState::Done
                } else {
                    Self::resume(action)
                }
            },
        }
    }

    /// `action` was open to challenge, with `verdict`.
    pub fn action_adjudicated(action: Action, verdict: Verdict, game_over: bool) -> (r: TurnState)
        ensures
            r == Self::after_action_challenge(action, verdict, game_over),
            r.rank() < 2,
            r != TurnState::Done ==> r.action() == Some(action),
    {
        match verdict {
            Verdict::Exposed { .. } => TurnState::Done,
            Verdict::Unchallenged => TurnState::ApplyingEffect { action },
            Verdict::Upheld { .. } => {
                if game_over {
                    TurnState::Done
                } else {
                    TurnState::ApplyingEffect { action }
                }
            },
        }
    }
}

impl Verdict {
    /// Whether the challenged player was found without the identity.
    pub open spec fn exposed(self) -> bool {
        self matches Verdict::Exposed { .. }
    }

    /// The verdict on the challenge of `challenger`: `challenger_won`
    /// tells whether the challenged player was found without the identity.
    pub fn of(challenger: PlayerID, challenger_won: bool) -> (r: Verdict)
        ensures
            r == (if challenger_won {
                Verdict::Exposed { challenger }
            } else {
                Verdict::Upheld { challenger }
            }),
    {
        if challenger_won {
            Verdict::Exposed { challenger }
        } else {
            Verdict::Upheld { challenger }
        }
    }

    pub fn is_exposed(&self) -> (r: bool)
        ensures
            r == self.exposed(),
    {
        match self {
            Verdict::Exposed { .. } => true,
            _ => false,
        }
    }
}

/// What has happened in one turn.
#[derive(Clone, Copy, Debug, PartialEq, Eq, Structural)]
pub struct TurnSummary {
    /// The action that was declared.
    pub action: Action,
    /// Who has blocked it, and with which counter-action.
    pub block: Option<Block>,
    /// How the challenge of the block has ended; `Unchallenged` where
    /// there was no block.
    pub on_block: Verdict,
    /// How the challenge of the action has ended; `Unchallenged` where the
    /// action was not open to challenge.
    pub on_action: Verdict,
    /// Whether the action went through.
    pub applied: bool,
}

/// Whether `after` is the table `before` after `action` of `claimant` was
/// open to challenge, with `verdict`. The challenger is an active player
/// other than the claimant. A challenge costs a life: that of the
/// claimant whose hand lacks the identity that the action claims, or
/// else that of the challenger.
pub open spec fn adjudicated(
    before: TableView,
    after: TableView,
    claimant: PlayerID,
    action: Action,
    verdict: Verdict,
) -> bool {
    match verdict {
        Verdict::Unchallenged => after == before,
        Verdict::Exposed { challenger } => {
            &&& challenger != claimant
            &&& before.alive(challenger)
            &&& !entitled(before.seat(claimant).hand, action)
            &&& before.struck(after, claimant)
        },
        Verdict::Upheld { challenger } => {
            &&& challenger != claimant
            &&& before.alive(challenger)
            &&& entitled(before.seat(claimant).hand, action)
            &&& before.struck(after, challenger)
        },
    }
}

/// The player who has lost a life by `verdict` on a claim of `claimant`.
pub open spec fn loser(claimant: PlayerID, verdict: Verdict) -> Option<PlayerID> {
    match verdict {
        Verdict::Unchallenged => None,
        Verdict::Exposed { .. } => Some(claimant),
        Verdict::Upheld { challenger } => Some(challenger),
    }
}

impl TurnSummary {
    /// Where the turn stands once the block, if there is one, was open
    /// to challenge; `over` tells whether the game was over by then.
    pub open spec fn reopened(self, over: bool) -> TurnState {
        match self.block {
            Some(_) => TurnState::after_block_challenge(self.action, self.on_block, over),
            None => TurnState::after_offers(self.action, None),
        }
    }

    /// Where the turn stands once the action too was open to challenge,
    /// if it came to that; `over_then` tells whether the game was over
    /// after the challenge of the block, `over_now` whether it was after
    /// that of the action.
    pub open spec fn settled(self, over_then: bool, over_now: bool) -> TurnState {
        if self.reopened(over_then) matches TurnState::AdjudicatingActionChallenge { .. } {
            TurnState::after_action_challenge(self.action, self.on_action, over_now)
        } else {
            self.reopened(over_then)
        }
    }

    /// Whether the turn of `actor` has led from `before` over `blocked`,
    /// the table after the challenge of the block, and `challenged`, the
    /// table after the challenge of the action, to `after`, as this
    /// summary tells it. `threshold` is the number of coins that force a
    /// coup.
    pub open spec fn tells(
        self,
        before: TableView,
        blocked: TableView,
        challenged: TableView,
        after: TableView,
        actor: PlayerID,
        threshold: u8,
    ) -> bool {
        let settled = self.settled(blocked.over(), challenged.over());
        &&& before.can_apply(self.action, actor)
        &&& (self.action.target() matches Some(t) ==> t != actor && before.alive(t))
        &&& (before.seat(actor).coins >= threshold ==> self.action matches Action::Coup(_))
        &&& match self.block {
            Some(Block { blocker, counter }) => {
                &&& blocker != actor
                &&& before.alive(blocker)
                &&& (self.action.counters(blocker) matches Some(list) && list.contains(counter))
                &&& adjudicated(before, blocked, blocker, counter, self.on_block)
            },
            None => blocked == before && self.on_block == Verdict::Unchallenged,
        }
        &&& if self.reopened(blocked.over()) matches TurnState::AdjudicatingActionChallenge { .. } {
            adjudicated(blocked, challenged, actor, self.action, self.on_action)
        } else {
            challenged == blocked && self.on_action == Verdict::Unchallenged
        }
        &&& self.applied == (settled == TurnState::ApplyingEffect { action: self.action })
        &&& if self.applied {
            challenged.applied(after, self.action, actor)
        } else {
            after == challenged
        }
    }

    /// Whether the turn of `actor` has led from `before` to `after` as
    /// this summary tells it.
    pub open spec fn played(self, before: TableView, after: TableView, actor: PlayerID, threshold: u8) -> bool {
        exists|blocked: TableView, challenged: TableView|
            self.tells(before, blocked, challenged, after, actor, threshold)
    }
}

/// Whether `after` is the table `before` after the turn of `actor` came
/// up. A player with a life takes their turn unless the game is over;
/// otherwise the table stays as it is.
pub open spec fn turn_taken(before: TableView, after: TableView, actor: PlayerID, threshold: u8) -> bool {
    if before.alive(actor) && !before.over() {
        exists|summary: TurnSummary| summary.played(before, after, actor, threshold)
    } else {
        after == before
    }
}

/// Whether each table of `trace` comes of the one before it by the turn
/// of the next player, beginning with the player of the first seat.
pub open spec fn turn_by_turn(trace: Seq<TableView>, threshold: u8) -> bool {
    forall|k: int|
        0 <= k < trace.len() - 1 ==> turn_taken(
            #[trigger] trace[k],
            trace[k + 1],
            PlayerID(k as u8),
            threshold,
        )
}

/// Whether `after` is the table `before` after one round: the turn of
/// every player came up, in the order of the seats.
pub open spec fn round_played(before: TableView, after: TableView, threshold: u8) -> bool {
    exists|trace: Seq<TableView>|
        #![trigger turn_by_turn(trace, threshold)]
        trace.len() == before.seats.len() + 1 && trace.first() == before && trace.last() == after
            && turn_by_turn(trace, threshold)
}

/// Whether each table of `trace` comes of the one before it by a round
/// that was begun while the game was not over.
pub open spec fn round_by_round(trace: Seq<TableView>, threshold: u8) -> bool {
    forall|k: int|
        0 <= k < trace.len() - 1 ==> !(#[trigger] trace[k]).over() && round_played(
            trace[k],
            trace[k + 1],
            threshold,
        )
}

/// Whether `after` is the table `before` after `rounds` rounds, each of
/// them begun while the game was not over.
pub open spec fn rounds_played(before: TableView, after: TableView, rounds: nat, threshold: u8) -> bool {
    exists|trace: Seq<TableView>|
        #![trigger round_by_round(trace, threshold)]
        trace.len() == rounds + 1 && trace.first() == before && trace.last() == after
            && round_by_round(trace, threshold)
}

/// An action goes through only if no block stands against it and it was
/// not exposed: after a block that was not challenged or was upheld, and
/// after a challenge that the actor has lost, the effect is not applied,
/// the table is left as the challenges have left it, and every purse is
/// as it was.
pub proof fn a_fallen_action_has_no_effect(
    summary: TurnSummary,
    before: TableView,
    blocked: TableView,
    challenged: TableView,
    after: TableView,
    actor: PlayerID,
    threshold: u8,
)
    requires
        summary.tells(before, blocked, challenged, after, actor, threshold),
        (summary.block.is_some() && !summary.on_block.exposed()) || summary.on_action.exposed(),
    ensures
        !summary.applied,
        after == challenged,
        before.same_coins(after),
{
    if let Some(block) = summary.block {
        if let Some(struck) = loser(block.blocker, summary.on_block) {
            crate::table::struck_is_fair(before, blocked, struck);
        }
    }
    if summary.reopened(blocked.over()) matches TurnState::AdjudicatingActionChallenge { .. } {
        if let Some(struck) = loser(actor, summary.on_action) {
            crate::table::struck_is_fair(blocked, challenged, struck);
        }
    }
    assert forall|i: int| 0 <= i < before.seats.len() implies (#[trigger] after.seats[i]).coins
        == before.seats[i].coins by {
        assert(blocked.seats[i].coins == before.seats[i].coins);
        assert(challenged.seats[i].coins == blocked.seats[i].coins);
    }
}

/// A player without a life takes no part in a turn: the table is left as
/// it is when their turn comes up, and nobody without a life is the
/// target of an action or the one who blocks it.
pub proof fn the_dead_take_no_part(
    summary: TurnSummary,
    before: TableView,
    after: TableView,
    actor: PlayerID,
    threshold: u8,
)
    requires
        turn_taken(before, after, actor, threshold),
    ensures
        !before.alive(actor) ==> after == before,
        summary.played(before, after, actor, threshold) ==> {
            &&& summary.action.target() matches Some(t) ==> before.alive(t) && t != actor
            &&& summary.block matches Some(block) ==> before.alive(block.blocker) && block.blocker
                != actor
        },
{
}

/// A challenge that was settled changes no cards and no purse, and gives
/// what can come of the table in the course of play.
pub proof fn a_challenge_is_fair(
    before: TableView,
    after: TableView,
    claimant: PlayerID,
    action: Action,
    verdict: Verdict,
)
    requires
        before.knows(claimant),
        adjudicated(before, after, claimant, action, verdict),
    ensures
        after.cards() == before.cards(),
        before.leads_to(after),
        before.same_coins(after),
{
    if let Some(struck) = loser(claimant, verdict) {
        crate::table::struck_is_fair(before, after, struck);
    }
}

/// A turn changes no cards, and gives what can come of the table in the
/// course of play: nobody gains a life, and what was revealed stays
/// revealed.
pub proof fn a_turn_is_fair(before: TableView, after: TableView, actor: PlayerID, threshold: u8)
    requires
        turn_taken(before, after, actor, threshold),
    ensures
        after.cards() == before.cards(),
        before.leads_to(after),
{
    if before.alive(actor) && !before.over() {
        let summary = choose|summary: TurnSummary| summary.played(before, after, actor, threshold);
        let (blocked, challenged) = choose|blocked: TableView, challenged: TableView|
            summary.tells(before, blocked, challenged, after, actor, threshold);
        if let Some(block) = summary.block {
            a_challenge_is_fair(before, blocked, block.blocker, block.counter, summary.on_block);
        }
        if summary.reopened(blocked.over()) matches TurnState::AdjudicatingActionChallenge { .. } {
            a_challenge_is_fair(blocked, challenged, actor, summary.action, summary.on_action);
        }
        crate::table::leads_to_is_transitive(before, blocked, challenged);
        if summary.applied {
            assert(before.same_coins(challenged)) by {
                assert forall|i: int| 0 <= i < before.seats.len() implies (
                #[trigger] challenged.seats[i]).coins == before.seats[i].coins by {
                    assert(blocked.seats[i].coins == before.seats[i].coins);
                }
            }
            crate::table::can_apply_goes_by_coins(before, challenged, summary.action, actor);
            crate::table::applied_is_fair(challenged, after, summary.action, actor);
            crate::table::leads_to_is_transitive(before, challenged, after);
        }
    }
}

/// A round changes no cards, and gives what can come of the table in the
/// course of play.
pub proof fn a_round_is_fair(before: TableView, after: TableView, threshold: u8)
    requires
        round_played(before, after, threshold),
    ensures
        after.cards() == before.cards(),
        before.leads_to(after),
{
    let trace = choose|trace: Seq<TableView>|
        #![trigger turn_by_turn(trace, threshold)]
        trace.len() == before.seats.len() + 1 && trace.first() == before && trace.last() == after
            && turn_by_turn(trace, threshold);
    turns_are_fair(trace, threshold, trace.len() - 1);
}

/// Each table of a trace of turns can come of the first.
proof fn turns_are_fair(trace: Seq<TableView>, threshold: u8, upto: int)
    requires
        turn_by_turn(trace, threshold),
        0 <= upto < trace.len(),
    ensures
        trace[upto].cards() == trace[0].cards(),
        trace[0].leads_to(trace[upto]),
    decreases upto,
{
    if upto > 0 {
        turns_are_fair(trace, threshold, upto - 1);
        assert(turn_taken(trace[upto - 1], trace[upto - 1 + 1], PlayerID((upto - 1) as u8), threshold));
        a_turn_is_fair(trace[upto - 1], trace[upto], PlayerID((upto - 1) as u8), threshold);
        crate::table::leads_to_is_transitive(trace[0], trace[upto - 1], trace[upto]);
    } else {
        assert forall|i: int| 0 <= i < trace[0].seats.len() implies trace[0].seats[i].lost.is_prefix_of(
            (#[trigger] trace[0].seats[i]).lost,
        ) by {
            assert(trace[0].seats[i].lost =~= trace[0].seats[i].lost.subrange(
                0,
                trace[0].seats[i].lost.len() as int,
            ));
        }
    }
}

/// Whatever rounds are played, no card is lost or won, nobody comes back
/// to life, and a player without a life stays without one.
pub proof fn rounds_are_fair(
    before: TableView,
    after: TableView,
    rounds: nat,
    threshold: u8,
    id: PlayerID,
)
    requires
        rounds_played(before, after, rounds, threshold),
    ensures
        after.cards() == before.cards(),
        before.leads_to(after),
        before.knows(id) && !before.alive(id) ==> !after.alive(id),
{
    let trace = choose|trace: Seq<TableView>|
        #![trigger round_by_round(trace, threshold)]
        trace.len() == rounds + 1 && trace.first() == before && trace.last() == after
            && round_by_round(trace, threshold);
    rounds_are_fair_upto(trace, threshold, trace.len() - 1);
    if before.knows(id) && !before.alive(id) {
        crate::table::no_way_back_to_life(before, after, id);
    }
}

/// Each table of a trace of rounds can come of the first.
proof fn rounds_are_fair_upto(trace: Seq<TableView>, threshold: u8, upto: int)
    requires
        round_by_round(trace, threshold),
        0 <= upto < trace.len(),
    ensures
        trace[upto].cards() == trace[0].cards(),
        trace[0].leads_to(trace[upto]),
    decreases upto,
{
    if upto > 0 {
        rounds_are_fair_upto(trace, threshold, upto - 1);
        assert(round_played(trace[upto - 1], trace[upto - 1 + 1], threshold));
        a_round_is_fair(trace[upto - 1], trace[upto], threshold);
        crate::table::leads_to_is_transitive(trace[0], trace[upto - 1], trace[upto]);
    } else {
        assert forall|i: int| 0 <= i < trace[0].seats.len() implies trace[0].seats[i].lost.is_prefix_of(
            (#[trigger] trace[0].seats[i]).lost,
        ) by {
            assert(trace[0].seats[i].lost =~= trace[0].seats[i].lost.subrange(
                0,
                trace[0].seats[i].lost.len() as int,
            ));
        }
    }
}

} // verus!

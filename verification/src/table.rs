use crate::action::{Action, PlayerID};
use crate::identity::Identity;
use crate::state::{GameState, ASSASSINATION_COST, COUP_COST, MAX_CARDS};
use vstd::multiset::Multiset;
use vstd::prelude::*;

verus! {

/// All that belongs to one player: what is public, and the hand.
#[verifier::ext_equal]
pub struct SeatView {
    pub name: Seq<char>,
    pub coins: nat,
    pub lives: nat,
    /// The identities that the player has revealed, oldest first.
    pub lost: Seq<Identity>,
    pub hand: Seq<Identity>,
}

/// A whole game as a value: the seats, by player, and the deck.
#[verifier::ext_equal]
pub struct TableView {
    /// The seat of player `PlayerID(i)` is `seats[i]`.
    pub seats: Seq<SeatView>,
    pub deck: Seq<Identity>,
}

impl SeatView {
    /// The cards of the seat, face up or face down.
    pub open spec fn cards(self) -> Multiset<Identity> {
        self.hand.to_multiset().add(self.lost.to_multiset())
    }

    /// The seat after the card at `index` of the hand was revealed: the
    /// card has gone from the hand to the lost identities, with a life.
    pub open spec fn unmask(self, index: int) -> SeatView {
        SeatView {
            lives: (self.lives - 1) as nat,
            lost: self.lost.push(self.hand[index]),
            hand: self.hand.remove(index),
            ..self
        }
    }
}

/// The cards of all of `seats`.
pub open spec fn seat_cards(seats: Seq<SeatView>) -> Multiset<Identity>
    decreases seats.len(),
{
    if seats.len() == 0 {
        Multiset::empty()
    } else {
        seat_cards(seats.drop_last()).add(seats.last().cards())
    }
}

/// How many cards the hands of `seats` hold.
pub open spec fn cards_in_hands(seats: Seq<SeatView>) -> nat
    decreases seats.len(),
{
    if seats.len() == 0 {
        0
    } else {
        cards_in_hands(seats.drop_last()) + seats.last().hand.len()
    }
}

/// How many identities the players of `seats` have revealed.
pub open spec fn cards_lost(seats: Seq<SeatView>) -> nat
    decreases seats.len(),
{
    if seats.len() == 0 {
        0
    } else {
        cards_lost(seats.drop_last()) + seats.last().lost.len()
    }
}

impl TableView {
    /// Whether `id` is one of the players.
    pub open spec fn knows(self, id: PlayerID) -> bool {
        id.0 < self.seats.len()
    }

    /// The seat of player `id`.
    pub open spec fn seat(self, id: PlayerID) -> SeatView {
        self.seats[id.0 as int]
    }

    /// Whether `id` is a player with a life left.
    pub open spec fn alive(self, id: PlayerID) -> bool {
        self.knows(id) && self.seat(id).lives > 0
    }

    /// At most one player has a life left.
    pub open spec fn over(self) -> bool {
        forall|a: PlayerID, b: PlayerID| self.alive(a) && self.alive(b) ==> a == b
    }

    /// All the cards of the game: the deck, the hands and what was revealed.
    pub open spec fn cards(self) -> Multiset<Identity> {
        self.deck.to_multiset().add(seat_cards(self.seats))
    }

    /// How many cards the game holds in hands, revealed and in the deck.
    pub open spec fn card_count(self) -> nat {
        cards_in_hands(self.seats) + cards_lost(self.seats) + self.deck.len()
    }

    /// The table with `seat` in the place of player `id`.
    pub open spec fn with_seat(self, id: PlayerID, seat: SeatView) -> TableView {
        TableView { seats: self.seats.update(id.0 as int, seat), ..self }
    }

    /// The table after player `id` took in `amount` coins.
    pub open spec fn gain(self, id: PlayerID, amount: nat) -> TableView {
        self.with_seat(id, SeatView { coins: self.seat(id).coins + amount, ..self.seat(id) })
    }

    /// The table after player `id` paid `amount` coins.
    pub open spec fn pay(self, id: PlayerID, amount: nat) -> TableView {
        self.with_seat(id, SeatView { coins: (self.seat(id).coins - amount) as nat, ..self.seat(id) })
    }

    /// What a thief gets from player `target`: two coins, or what there is.
    pub open spec fn loot(self, target: PlayerID) -> nat {
        if self.seat(target).coins < 2 {
            self.seat(target).coins
        } else {
            2
        }
    }

    /// The table after `actor` stole from `target`.
    pub open spec fn steal(self, actor: PlayerID, target: PlayerID) -> TableView {
        self.pay(target, self.loot(target)).gain(actor, self.loot(target))
    }

    /// The table after player `id` lost a life and revealed the card at
    /// `index` of the hand.
    pub open spec fn lose(self, id: PlayerID, index: int) -> TableView {
        self.with_seat(id, self.seat(id).unmask(index))
    }

    /// The table after the top card of the deck went to the hand of player `id`.
    pub open spec fn hand_out(self, id: PlayerID) -> TableView {
        TableView {
            seats: self.seats.update(
                id.0 as int,
                SeatView { hand: self.seat(id).hand.push(self.deck[0]), ..self.seat(id) },
            ),
            deck: self.deck.remove(0),
        }
    }

    /// The table after `rounds` rounds of dealing. In each round every
    /// player, in the order of the seats, is handed the top card of the deck.
    pub open spec fn deal_out(self, rounds: nat) -> TableView {
        let n = self.seats.len();
        TableView {
            seats: Seq::new(
                n,
                |i: int|
                    SeatView {
                        hand: self.seats[i].hand + Seq::new(rounds, |r: int| self.deck[r * n + i]),
                        ..self.seats[i]
                    },
            ),
            deck: self.deck.skip((n * rounds) as int),
        }
    }

    /// Whether `after` is this table after the deck was shuffled and
    /// `rounds` rounds were dealt from it.
    pub open spec fn set_up(self, after: TableView, rounds: nat) -> bool {
        exists|shuffled: Seq<Identity>|
            shuffled.to_multiset() == self.deck.to_multiset() && after == (TableView {
                deck: shuffled,
                ..self
            }).deal_out(rounds)
    }

    /// Whether `after` is this table after an attack on player `id`: a
    /// player without a life is left as they are, any other loses a life
    /// and reveals one card of the hand.
    pub open spec fn struck(self, after: TableView, id: PlayerID) -> bool {
        if self.seat(id).lives == 0 {
            after == self
        } else {
            exists|index: int| 0 <= index < self.seat(id).hand.len() && after == self.lose(id, index)
        }
    }

    /// Whether the rules let `actor` carry out `action` on this table: the
    /// players that it names are known, the actor can pay for it, and the
    /// purse can take what it brings in.
    pub open spec fn can_apply(self, action: Action, actor: PlayerID) -> bool {
        &&& self.knows(actor)
        &&& !action.is_counter()
        &&& match action {
            Action::Income => self.seat(actor).coins + 1 <= u8::MAX,
            Action::ForeignAid => self.seat(actor).coins + 2 <= u8::MAX,
            Action::Tax => self.seat(actor).coins + 3 <= u8::MAX,
            Action::Steal(t) => self.knows(t) && (t == actor || self.seat(actor).coins + self.loot(t)
                <= u8::MAX),
            Action::Assassinate(t) => self.knows(t) && self.seat(actor).coins >= ASSASSINATION_COST,
            Action::Coup(t) => self.knows(t) && self.seat(actor).coins >= COUP_COST,
            _ => true,
        }
    }

    /// Whether `after` is this table after the effect of `action`, carried
    /// out by `actor`.
    pub open spec fn applied(self, after: TableView, action: Action, actor: PlayerID) -> bool {
        match action {
            Action::Income => after == self.gain(actor, 1),
            Action::ForeignAid => after == self.gain(actor, 2),
            Action::Tax => after == self.gain(actor, 3),
            Action::Steal(t) => after == self.steal(actor, t),
            Action::Assassinate(t) => self.pay(actor, ASSASSINATION_COST as nat).struck(after, t),
            Action::Coup(t) => self.pay(actor, COUP_COST as nat).struck(after, t),
            _ => after == self,
        }
    }

    /// Whether `after` can come of this table in the course of play: the
    /// same players under the same names and the same deck; no player has
    /// gained a life; what a player has revealed stays revealed; and each
    /// player still has the cards they had, in the hand or revealed.
    pub open spec fn leads_to(self, after: TableView) -> bool {
        &&& after.seats.len() == self.seats.len()
        &&& after.deck == self.deck
        &&& forall|i: int|
            0 <= i < self.seats.len() ==> {
                &&& (#[trigger] after.seats[i]).name == self.seats[i].name
                &&& after.seats[i].lives <= self.seats[i].lives
                &&& self.seats[i].lost.is_prefix_of(after.seats[i].lost)
                &&& after.seats[i].cards() == self.seats[i].cards()
                &&& after.seats[i].hand.len() + after.seats[i].lost.len() == self.seats[i].hand.len()
                    + self.seats[i].lost.len()
            }
    }

    /// Whether every player has the coins here that they have in `other`.
    pub open spec fn same_coins(self, other: TableView) -> bool {
        &&& other.seats.len() == self.seats.len()
        &&& forall|i: int|
            0 <= i < self.seats.len() ==> (#[trigger] other.seats[i]).coins == self.seats[i].coins
    }

    /// No hand holds more cards than a hand can.
    pub open spec fn hands_fit(self) -> bool {
        forall|i: int| 0 <= i < self.seats.len() ==> (#[trigger] self.seats[i]).hand.len() <= MAX_CARDS
    }

    /// Every player has a card in the hand for each life, and `spare`
    /// cards more.
    pub open spec fn lives_are_backed(self, spare: nat) -> bool {
        forall|i: int|
            0 <= i < self.seats.len() ==> (#[trigger] self.seats[i]).hand.len()
                == self.seats[i].lives + spare
    }
}

/// Whether `state` shows of each player what `table` holds of them.
pub open spec fn mirrors(state: GameState, table: TableView) -> bool {
    &&& state.player_states.len() == table.seats.len()
    &&& forall|i: int|
        0 <= i < table.seats.len() ==> {
            &&& (#[trigger] state.player_states[i]).player_name@ == table.seats[i].name
            &&& state.player_states[i].num_coins == table.seats[i].coins
            &&& state.player_states[i].num_lives == table.seats[i].lives
            &&& state.player_states[i].lost_lives@ == table.seats[i].lost
        }
}

/// Putting another seat in a player's place changes the cards of the
/// seats by the cards of those two seats.
pub proof fn seat_cards_update(seats: Seq<SeatView>, i: int, seat: SeatView)
    requires
        0 <= i < seats.len(),
    ensures
        seat_cards(seats.update(i, seat)).add(seats[i].cards()) =~= seat_cards(seats).add(
            seat.cards(),
        ),
    decreases seats.len(),
{
    let changed = seats.update(i, seat);
    let front = seats.drop_last();
    if i == seats.len() - 1 {
        assert(changed.drop_last() =~= front);
        assert(changed.last() == seat);
        assert(seat_cards(changed) == seat_cards(front).add(seat.cards()));
        assert(seat_cards(seats) == seat_cards(front).add(seats[i].cards()));
    } else {
        assert(changed.drop_last() =~= front.update(i, seat));
        assert(changed.last() == seats.last());
        assert(front[i] == seats[i]);
        seat_cards_update(front, i, seat);
        assert(seat_cards(changed) == seat_cards(front.update(i, seat)).add(seats.last().cards()));
        assert(seat_cards(seats) == seat_cards(front).add(seats.last().cards()));
        assert forall|x: Identity|
            seat_cards(changed).add(seats[i].cards()).count(x) == seat_cards(seats).add(
                seat.cards(),
            ).count(x) by {
            assert(seat_cards(front.update(i, seat)).add(seats[i].cards()).count(x) == seat_cards(
                front,
            ).add(seat.cards()).count(x));
        }
    }
}

/// A seat whose cards stay the same may be changed without changing the
/// cards of the seats.
pub proof fn seat_cards_kept(seats: Seq<SeatView>, i: int, seat: SeatView)
    requires
        0 <= i < seats.len(),
        seat.cards() == seats[i].cards(),
    ensures
        seat_cards(seats.update(i, seat)) == seat_cards(seats),
{
    seat_cards_update(seats, i, seat);
    let a = seat_cards(seats.update(i, seat));
    let b = seat_cards(seats);
    let c = seat.cards();
    assert forall|x: Identity| a.count(x) == b.count(x) by {
        assert(a.add(c).count(x) == b.add(c).count(x));
    }
    assert(a =~= b);
}

/// Revealing a card keeps the cards of a seat.
pub proof fn reveal_keeps_cards(seat: SeatView, index: int)
    requires
        0 <= index < seat.hand.len(),
    ensures
        seat.unmask(index).cards() == seat.cards(),
        seat.unmask(index).hand.len() + seat.unmask(index).lost.len() == seat.hand.len()
            + seat.lost.len(),
        seat.lost.is_prefix_of(seat.unmask(index).lost),
{
    let card = seat.hand[index];
    seat.hand.to_multiset_ensures();
    seat.lost.to_multiset_ensures();
    assert(seat.hand.contains(card));
    assert(seat.hand.to_multiset().count(card) > 0);
    assert(seat.unmask(index).cards() =~= seat.cards());
}

/// The cards of the seats are as many as the hands and the revealed
/// identities hold.
pub proof fn seat_cards_count(seats: Seq<SeatView>)
    ensures
        seat_cards(seats).len() == cards_in_hands(seats) + cards_lost(seats),
    decreases seats.len(),
{
    if seats.len() > 0 {
        seat_cards_count(seats.drop_last());
        seats.last().hand.to_multiset_ensures();
        seats.last().lost.to_multiset_ensures();
    }
}

/// A table has as many cards as its hands, its revealed identities and
/// its deck hold together.
pub proof fn cards_count(table: TableView)
    ensures
        table.cards().len() == table.card_count(),
{
    seat_cards_count(table.seats);
    table.deck.to_multiset_ensures();
}

/// Coins change no cards.
pub proof fn coins_keep_cards(table: TableView, id: PlayerID, seat: SeatView)
    requires
        table.knows(id),
        seat.hand == table.seat(id).hand,
        seat.lost == table.seat(id).lost,
    ensures
        table.with_seat(id, seat).cards() == table.cards(),
{
    seat_cards_kept(table.seats, id.0 as int, seat);
}

/// An attack changes no cards, leaves every purse as it is, and gives
/// what can come of the table in the course of play.
pub proof fn struck_is_fair(before: TableView, after: TableView, id: PlayerID)
    requires
        before.knows(id),
        before.struck(after, id),
    ensures
        after.cards() == before.cards(),
        before.leads_to(after),
        before.same_coins(after),
        before.hands_fit() ==> after.hands_fit(),
        forall|spare: nat| before.lives_are_backed(spare) ==> after.lives_are_backed(spare),
{
    if before.seat(id).lives > 0 {
        let index = choose|index: int|
            0 <= index < before.seat(id).hand.len() && after == before.lose(id, index);
        reveal_keeps_cards(before.seat(id), index);
        seat_cards_kept(before.seats, id.0 as int, before.seat(id).unmask(index));
    }
}

/// What can come of what can come of a table can come of the table.
pub proof fn leads_to_is_transitive(a: TableView, b: TableView, c: TableView)
    requires
        a.leads_to(b),
        b.leads_to(c),
    ensures
        a.leads_to(c),
{
    assert forall|i: int| 0 <= i < a.seats.len() implies a.seats[i].lost.is_prefix_of(
        (#[trigger] c.seats[i]).lost,
    ) by {
        let x = a.seats[i].lost;
        let y = b.seats[i].lost;
        let z = c.seats[i].lost;
        assert(x.is_prefix_of(y));
        assert(y.is_prefix_of(z));
        assert(x =~= z.subrange(0, x.len() as int)) by {
            assert(y =~= z.subrange(0, y.len() as int));
            assert(x =~= y.subrange(0, x.len() as int));
        }
    }
}

/// The effect of an action changes no cards and gives what can come of
/// the table in the course of play.
pub proof fn applied_is_fair(before: TableView, after: TableView, action: Action, actor: PlayerID)
    requires
        before.can_apply(action, actor),
        before.applied(after, action, actor),
    ensures
        after.cards() == before.cards(),
        before.leads_to(after),
        before.hands_fit() ==> after.hands_fit(),
        forall|spare: nat| before.lives_are_backed(spare) ==> after.lives_are_backed(spare),
{
    match action {
        Action::Income | Action::ForeignAid | Action::Tax => {
            coins_keep_cards(before, actor, after.seat(actor));
            assert(after.seats[actor.0 as int].lost == before.seats[actor.0 as int].lost);
        },
        Action::Steal(t) => {
            let mid = before.pay(t, before.loot(t));
            coins_keep_cards(before, t, mid.seat(t));
            coins_keep_cards(mid, actor, after.seat(actor));
            assert forall|i: int| 0 <= i < before.seats.len() implies (#[trigger] after.seats[i]).lost
                == before.seats[i].lost && after.seats[i].hand == before.seats[i].hand
                && after.seats[i].lives == before.seats[i].lives && after.seats[i].name
                == before.seats[i].name by {
                assert(mid.seats[i].lost == before.seats[i].lost);
            }
        },
        Action::Assassinate(t) => {
            let mid = before.pay(actor, ASSASSINATION_COST as nat);
            coins_keep_cards(before, actor, mid.seat(actor));
            struck_is_fair(mid, after, t);
            assert(before.leads_to(mid)) by {
                assert forall|i: int| 0 <= i < before.seats.len() implies (#[trigger] mid.seats[i]).lost
                    == before.seats[i].lost by {}
            }
            leads_to_is_transitive(before, mid, after);
            assert(before.hands_fit() ==> mid.hands_fit());
            assert(forall|spare: nat| before.lives_are_backed(spare) ==> mid.lives_are_backed(spare));
        },
        Action::Coup(t) => {
            let mid = before.pay(actor, COUP_COST as nat);
            coins_keep_cards(before, actor, mid.seat(actor));
            struck_is_fair(mid, after, t);
            assert(before.leads_to(mid)) by {
                assert forall|i: int| 0 <= i < before.seats.len() implies (#[trigger] mid.seats[i]).lost
                    == before.seats[i].lost by {}
            }
            leads_to_is_transitive(before, mid, after);
            assert(before.hands_fit() ==> mid.hands_fit());
            assert(forall|spare: nat| before.lives_are_backed(spare) ==> mid.lives_are_backed(spare));
        },
        _ => {},
    }
}

/// Whether an action can be carried out depends on the purses alone.
pub proof fn can_apply_goes_by_coins(before: TableView, after: TableView, action: Action, actor: PlayerID)
    requires
        before.can_apply(action, actor),
        before.same_coins(after),
    ensures
        after.can_apply(action, actor),
{
    assert(after.seats[actor.0 as int].coins == before.seats[actor.0 as int].coins);
    if let Some(t) = action.target() {
        assert(after.seats[t.0 as int].coins == before.seats[t.0 as int].coins);
    }
}

/// The seats of a table on which no card has been dealt or revealed hold no cards.
pub proof fn empty_seats_hold_nothing(seats: Seq<SeatView>)
    requires
        forall|i: int|
            0 <= i < seats.len() ==> (#[trigger] seats[i]).hand.len() == 0 && seats[i].lost.len()
                == 0,
    ensures
        seat_cards(seats) == Multiset::<Identity>::empty(),
    decreases seats.len(),
{
    if seats.len() > 0 {
        empty_seats_hold_nothing(seats.drop_last());
        let last = seats[seats.len() - 1];
        assert(last.hand =~= Seq::<Identity>::empty());
        assert(last.lost =~= Seq::<Identity>::empty());
        last.hand.to_multiset_ensures();
        last.lost.to_multiset_ensures();
        assert forall|x: Identity| last.cards().count(x) == 0 by {
            assert(!last.hand.contains(x));
            assert(!last.lost.contains(x));
        }
        assert(last.cards() =~= Multiset::<Identity>::empty());
        assert(seat_cards(seats) =~= Multiset::<Identity>::empty());
    }
}

/// Handing out the top card of the deck changes no cards.
pub proof fn hand_out_keeps_cards(table: TableView, id: PlayerID)
    requires
        table.knows(id),
        table.deck.len() > 0,
    ensures
        table.hand_out(id).cards() == table.cards(),
{
    let card = table.deck[0];
    let after = table.hand_out(id);
    let seat = after.seat(id);
    table.deck.to_multiset_ensures();
    table.seat(id).hand.to_multiset_ensures();
    seat_cards_update(table.seats, id.0 as int, seat);
    assert(table.deck.contains(card));
    assert(seat.cards() =~= table.seat(id).cards().insert(card));
    assert(after.deck.to_multiset() =~= table.deck.to_multiset().remove(card));
    let a = seat_cards(after.seats);
    let b = seat_cards(table.seats);
    assert forall|x: Identity| after.cards().count(x) == table.cards().count(x) by {
        assert(a.add(table.seat(id).cards()).count(x) == b.add(seat.cards()).count(x));
    }
    assert(after.cards() =~= table.cards());
}

/// A player without a life stays without one, whatever comes of the table.
pub proof fn no_way_back_to_life(before: TableView, after: TableView, id: PlayerID)
    requires
        before.leads_to(after),
        before.knows(id),
        !before.alive(id),
    ensures
        after.knows(id),
        !after.alive(id),
{
    assert(after.seats[id.0 as int].lives <= before.seats[id.0 as int].lives);
}

/// A game that is over stays over, whatever comes of the table.
pub proof fn over_stays_over(before: TableView, after: TableView)
    requires
        before.leads_to(after),
        before.over(),
    ensures
        after.over(),
{
    assert forall|a: PlayerID, b: PlayerID| after.alive(a) && after.alive(b) implies a == b by {
        assert(after.seats[a.0 as int].lives <= before.seats[a.0 as int].lives);
        assert(after.seats[b.0 as int].lives <= before.seats[b.0 as int].lives);
        assert(before.alive(a) && before.alive(b));
    }
}

/// An attack on a player without a life changes nothing: no life, no card
/// and no revealed identity.
pub proof fn striking_the_dead_changes_nothing(before: TableView, after: TableView, id: PlayerID)
    requires
        before.knows(id),
        !before.alive(id),
        before.struck(after, id),
    ensures
        after == before,
{
}

/// After an attack that has taken a player's last life, a second attack
/// on the player changes nothing.
pub proof fn second_strike_is_idle(before: TableView, once: TableView, twice: TableView, id: PlayerID)
    requires
        before.knows(id),
        before.seat(id).lives <= 1,
        before.struck(once, id),
        once.struck(twice, id),
    ensures
        twice == once,
        once.seat(id).lives == 0,
{
}

/// An attack on a player with a life takes exactly one life and moves
/// exactly one card from the hand to the revealed identities.
pub proof fn strike_takes_one_life(before: TableView, after: TableView, id: PlayerID)
    requires
        before.alive(id),
        before.struck(after, id),
    ensures
        after.seat(id).lives == before.seat(id).lives - 1,
        after.seat(id).hand.len() == before.seat(id).hand.len() - 1,
        after.seat(id).lost.len() == before.seat(id).lost.len() + 1,
        after.seat(id).coins == before.seat(id).coins,
        forall|other: PlayerID|
            before.knows(other) && other != id ==> after.seat(other) == before.seat(other),
        after.deck == before.deck,
{
}

} // verus!

use crate::identity::{Identity, IdentitySet};
use vstd::prelude::*;

verus! {

/// `count` cards of the kind `card`.
pub open spec fn copies(card: Identity, count: nat) -> Seq<Identity> {
    Seq::new(count, |i: int| card)
}

/// `count` cards of each kind of `kinds`, kind after kind.
pub open spec fn stack(kinds: Seq<Identity>, count: nat) -> Seq<Identity>
    decreases kinds.len(),
{
    if kinds.len() == 0 {
        Seq::empty()
    } else {
        stack(kinds.drop_last(), count) + copies(kinds.last(), count)
    }
}

/// A stack holds as many cards as there are kinds, times the count.
pub proof fn stack_size(kinds: Seq<Identity>, count: nat)
    ensures
        stack(kinds, count).len() == kinds.len() * count,
    decreases kinds.len(),
{
    if kinds.len() > 0 {
        stack_size(kinds.drop_last(), count);
        assert((kinds.len() - 1) * count + count == kinds.len() * count) by (nonlinear_arith);
    } else {
        assert(0 * count == 0);
    }
}

/// The cards that are in nobody's hand: the deck, face down.
#[derive(Debug)]
pub struct GameField {
    /// The deck; cards are drawn from the front.
    pub deck: Vec<Identity>,
}

impl GameField {
    /// A deck of `num_cards` cards of each identity of `identities`, in
    /// catalogue order.
    pub fn new(identities: IdentitySet, num_cards: u8) -> (r: Self)
        ensures
            r.deck@ == stack(identities.members(), num_cards as nat),
            r.deck@.len() == identities.members().len() * num_cards,
    {
        let kinds = identities.to_vec();
        let mut deck: Vec<Identity> = Vec::new();
        let mut k: usize = 0;
        assert(stack(kinds@.take(0), num_cards as nat) =~= Seq::<Identity>::empty());
        while k < kinds.len()
            invariant
                k <= kinds.len(),
                kinds@.len() <= 5,
                kinds@ == identities.members(),
                deck@ == stack(kinds@.take(k as int), num_cards as nat),
                deck@.len() == k * num_cards,
            decreases kinds.len() - k,
        {
            let identity = kinds[k];
            let ghost before = deck@;
            let mut c: u8 = 0;
            while c < num_cards
                invariant
                    c <= num_cards,
                    k < 5,
                    before.len() == k * num_cards,
                    deck@ =~= before + copies(identity, c as nat),
                decreases num_cards - c,
            {
                deck.push(identity);
                c += 1;
            }
            proof {
                assert(kinds@.take(k + 1).drop_last() == kinds@.take(k as int));
                assert(kinds@.take(k + 1).last() == identity);
                assert(k * num_cards + num_cards == (k + 1) * num_cards) by (nonlinear_arith);
            }
            k += 1;
        }
        proof {
            assert(kinds@.take(kinds.len() as int) == kinds@);
            stack_size(identities.members(), num_cards as nat);
        }
        Self { deck }
    }

    pub fn len(&self) -> (r: usize)
        ensures
            r == self.deck@.len(),
    {
        self.deck.len()
    }

    /// Takes the top card off the deck, if the deck has one.
    pub fn draw(&mut self) -> (r: Option<Identity>)
        ensures
            match r {
                Some(card) => old(self).deck@.len() > 0 && card == old(self).deck@[0]
                    && final(self).deck@ == old(self).deck@.remove(0),
                None => old(self).deck@.len() == 0 && final(self).deck@ == old(self).deck@,
            },
    {
        if self.deck.len() > 0 {
            Some(self.deck.remove(0))
        } else {
            None
        }
    }

    /// Puts `card` under the deck.
    pub fn put_back(&mut self, card: Identity)
        ensures
            final(self).deck@ == old(self).deck@.push(card),
    {
        self.deck.push(card);
    }
}

/// `count` cards of one kind are that many of that kind and none of another.
pub proof fn copies_hold_one_kind(kind: Identity, count: nat, card: Identity)
    ensures
        copies(kind, count).to_multiset().count(card) == (if card == kind {
            count
        } else {
            0
        }),
    decreases count,
{
    if count == 0 {
        assert(copies(kind, count) =~= Seq::<Identity>::empty());
        copies(kind, count).to_multiset_ensures();
        assert(!copies(kind, count).contains(card));
    } else {
        let fewer = copies(kind, (count - 1) as nat);
        copies_hold_one_kind(kind, (count - 1) as nat, card);
        assert(copies(kind, count) =~= fewer.push(kind));
        fewer.to_multiset_ensures();
    }
}

/// A stack of kinds that are all different holds `count` cards of each
/// of its kinds and none of any other.
pub proof fn stack_holds_each_kind(kinds: Seq<Identity>, count: nat, card: Identity)
    requires
        kinds.no_duplicates(),
    ensures
        stack(kinds, count).to_multiset().count(card) == (if kinds.contains(card) {
            count
        } else {
            0
        }),
    decreases kinds.len(),
{
    if kinds.len() == 0 {
        stack(kinds, count).to_multiset_ensures();
        assert(!stack(kinds, count).contains(card));
    } else {
        let front = kinds.drop_last();
        let last = kinds.last();
        stack_holds_each_kind(front, count, card);
        copies_hold_one_kind(last, count, card);
        vstd::seq_lib::lemma_multiset_commutative(stack(front, count), copies(last, count));
        if front.contains(card) {
            let i = choose|i: int| 0 <= i < front.len() && front[i] == card;
            assert(kinds[i] == card);
            assert(card != last);
        } else if card == last {
            assert(kinds[kinds.len() - 1] == card);
        } else if kinds.contains(card) {
            let i = choose|i: int| 0 <= i < kinds.len() && kinds[i] == card;
            assert(front[i] == card);
        }
    }
}

/// A full deck holds `count` cards of each identity of `identities` and
/// none of any other.
pub proof fn a_full_deck_holds_each_identity(identities: IdentitySet, count: nat, card: Identity)
    ensures
        stack(identities.members(), count).to_multiset().count(card) == (if identities.has(card) {
            count
        } else {
            0
        }),
        stack(identities.members(), count).len() == identities.members().len() * count,
{
    crate::identity::members_are_exact(identities, card);
    crate::identity::members_are_distinct(identities);
    stack_holds_each_kind(identities.members(), count, card);
    stack_size(identities.members(), count);
}

} // verus!

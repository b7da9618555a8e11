use crate::identity::Identity;
use vstd::prelude::*;

verus! {

/// The key by which a player is found, fixed for the length of a game.
#[derive(Clone, Copy, Debug, PartialEq, Eq, Structural, Hash)]
pub struct PlayerID(pub u8);

/// What a player may declare: an action on their own turn, or a
/// counter-action against the action of another player.
#[derive(Clone, Copy, Debug, PartialEq, Eq, Structural, Hash)]
pub enum Action {
    Income,
    ForeignAid,
    Tax,
    Assassinate(PlayerID),
    Coup(PlayerID),
    Steal(PlayerID),
    Exchange,
    BlockForeignAid,
    BlockAssassination,
    BlockStealCaptain,
    BlockStealAmbassador,
}

impl Action {
    /// The player at whom the action is aimed, if it has a target.
    pub open spec fn target(self) -> Option<PlayerID> {
        match self {
            Action::Assassinate(t) | Action::Coup(t) | Action::Steal(t) => Some(t),
            _ => None,
        }
    }

    /// Whether the action is a counter-action.
    pub open spec fn is_counter(self) -> bool {
        self == Action::BlockForeignAid || self == Action::BlockAssassination || self
            == Action::BlockStealCaptain || self == Action::BlockStealAmbassador
    }

    /// Whether carrying out the action changes anything on the table.
    pub open spec fn has_effect(self) -> bool {
        !self.is_counter() && self != Action::Exchange
    }

    /// The name of the variant, as the action is written in code.
    pub open spec fn variant(self) -> Seq<char> {
        match self {
            Action::Income => "Income"@,
            Action::ForeignAid => "ForeignAid"@,
            Action::Tax => "Tax"@,
            Action::Assassinate(_) => "Assassinate"@,
            Action::Coup(_) => "Coup"@,
            Action::Steal(_) => "Steal"@,
            Action::Exchange => "Exchange"@,
            Action::BlockForeignAid => "BlockForeignAid"@,
            Action::BlockAssassination => "BlockAssassination"@,
            Action::BlockStealCaptain => "BlockStealCaptain"@,
            Action::BlockStealAmbassador => "BlockStealAmbassador"@,
        }
    }

    /// The action as it is written in code: the name of the variant and,
    /// where the action has a target, the target in brackets.
    pub open spec fn written(self) -> Seq<char> {
        match self.target() {
            Some(t) => self.variant() + "(PlayerID("@ + crate::report::decimal(t.0 as nat) + "))"@,
            None => self.variant(),
        }
    }

    /// The counter-actions open to player `id` against this action: `None`
    /// where `id` cannot block it.
    pub open spec fn counters(self, id: PlayerID) -> Option<Seq<Action>> {
        match self {
            Action::ForeignAid => Some(seq![Action::BlockForeignAid]),
            Action::Assassinate(t) => if t == id {
                Some(seq![Action::BlockAssassination])
            } else {
                None
            },
            Action::Steal(t) => if t == id {
                Some(seq![Action::BlockStealCaptain, Action::BlockStealAmbassador])
            } else {
                None
            },
            _ => None,
        }
    }

    /// The identity that a player must hold to declare the action
    /// truthfully: `None` where the action is open to everyone.
    pub open spec fn required_identity(self) -> Option<Identity> {
        match self {
            Action::Income | Action::ForeignAid | Action::Coup(_) => None,
            Action::Assassinate(_) => Some(Identity::Assassin),
            Action::Tax => Some(Identity::Duke),
            Action::Exchange => Some(Identity::Ambassador),
            Action::BlockForeignAid => Some(Identity::Duke),
            Action::BlockAssassination => Some(Identity::Contessa),
            Action::Steal(_) => Some(Identity::Captain),
            Action::BlockStealCaptain => Some(Identity::Captain),
            Action::BlockStealAmbassador => Some(Identity::Ambassador),
        }
    }

    /// The words by which the action is announced.
    pub open spec fn label(self) -> Seq<char> {
        match self {
            Action::Income => "Income"@,
            Action::ForeignAid => "Foreign Aid"@,
            Action::Tax => "Tax"@,
            Action::Assassinate(_) => "Assassinate"@,
            Action::Coup(_) => "Coup"@,
            Action::Steal(_) => "Steal"@,
            Action::Exchange => "Exchange"@,
            Action::BlockForeignAid => "Block Foreign Aid"@,
            Action::BlockAssassination => "Contess"@,
            Action::BlockStealCaptain => "Block as Captain"@,
            Action::BlockStealAmbassador => "Block as Ambassador"@,
        }
    }

    /// The counter-actions that player `id` may declare against this action.
    pub fn blockable(&self, id: &PlayerID) -> (r: Option<Vec<Action>>)
        ensures
            match r {
                Some(list) => self.counters(*id) == Some(list@),
                None => self.counters(*id).is_none(),
            },
    {
        match self {
            Action::Income
            | Action::Coup(..)
            | Action::Exchange
            | Action::Tax
            | Action::BlockForeignAid
            | Action::BlockAssassination
            | Action::BlockStealCaptain
            | Action::BlockStealAmbassador => None,
            Action::Assassinate(target) => {
                if target.0 == id.0 {
                    let list = vec![Action::BlockAssassination];
                    assert(list@ =~= seq![Action::BlockAssassination]);
                    Some(list)
                } else {
                    None
                }
            },
            Action::Steal(target) => {
                if target.0 == id.0 {
                    let list = vec![Action::BlockStealCaptain, Action::BlockStealAmbassador];
                    assert(list@ =~= seq![
                        Action::BlockStealCaptain,
                        Action::BlockStealAmbassador,
                    ]);
                    Some(list)
                } else {
                    None
                }
            },
            Action::ForeignAid => {
                let list = vec![Action::BlockForeignAid];
                assert(list@ =~= seq![Action::BlockForeignAid]);
                Some(list)
            },
        }
    }

    /// Whether the action rests on a claim to an identity, so that another
    /// player may challenge it.
    pub fn challengable(&self) -> (r: bool)
        ensures
            r == self.required_identity().is_some(),
            r == !(*self == Action::Income || *self == Action::ForeignAid
                || self matches Action::Coup(_)),
    {
        match self {
            Action::Income | Action::ForeignAid | Action::Coup(..) => false,
            _ => true,
        }
    }

    /// The identity that backs the action, if it needs one.
    pub fn claimed_identity(&self) -> (r: Option<Identity>)
        ensures
            r == self.required_identity(),
    {
        match self {
            Action::Income | Action::ForeignAid | Action::Coup(..) => None,
            Action::Assassinate(..) => Some(Identity::Assassin),
            Action::Tax => Some(Identity::Duke),
            Action::Exchange => Some(Identity::Ambassador),
            Action::BlockForeignAid => Some(Identity::Duke),
            Action::BlockAssassination => Some(Identity::Contessa),
            Action::Steal(..) => Some(Identity::Captain),
            Action::BlockStealCaptain => Some(Identity::Captain),
            Action::BlockStealAmbassador => Some(Identity::Ambassador),
        }
    }

    /// The words by which the action is announced, without its target.
    pub fn name(&self) -> (r: String)
        ensures
            r@ == self.label(),
    {
        match self {
            Action::Income => "Income".to_string(),
            Action::ForeignAid => "Foreign Aid".to_string(),
            Action::Tax => "Tax".to_string(),
            Action::Assassinate(..) => "Assassinate".to_string(),
            Action::Coup(..) => "Coup".to_string(),
            Action::Steal(..) => "Steal".to_string(),
            Action::Exchange => "Exchange".to_string(),
            Action::BlockForeignAid => "Block Foreign Aid".to_string(),
            Action::BlockAssassination => "Contess".to_string(),
            Action::BlockStealCaptain => "Block as Captain".to_string(),
            Action::BlockStealAmbassador => "Block as Ambassador".to_string(),
        }
    }

    /// The action as it is written in code.
    pub fn to_code(&self) -> (r: String)
        ensures
            r@ == self.written(),
    {
        let name = match self {
            Action::Income => "Income",
            Action::ForeignAid => "ForeignAid",
            Action::Tax => "Tax",
            Action::Assassinate(..) => "Assassinate",
            Action::Coup(..) => "Coup",
            Action::Steal(..) => "Steal",
            Action::Exchange => "Exchange",
            Action::BlockForeignAid => "BlockForeignAid",
            Action::BlockAssassination => "BlockAssassination",
            Action::BlockStealCaptain => "BlockStealCaptain",
            Action::BlockStealAmbassador => "BlockStealAmbassador",
        };
        match self {
            Action::Assassinate(target) | Action::Coup(target) | Action::Steal(target) => {
                let mut text = crate::report::join(name, "(PlayerID(");
                text.push_str(crate::report::number(target.0).as_str());
                text.push_str("))");
                text
            },
            _ => name.to_string(),
        }
    }

    /// Whether `list` holds this action.
    pub fn is_among(&self, list: &Vec<Action>) -> (r: bool)
        ensures
            r == list@.contains(*self),
    {
        let mut i: usize = 0;
        while i < list.len()
            invariant
                i <= list.len(),
                forall|j: int| 0 <= j < i ==> list@[j] != *self,
            decreases list.len() - i,
        {
            if list[i] == *self {
                return true;
            }
            i += 1;
        }
        false
    }
}

/// Nobody can block an action that has no target, but for foreign aid,
/// which everybody can block in one way; nobody can block a coup; and an
/// assassination or a theft can be blocked by nobody but its target.
pub proof fn only_the_target_may_block(action: Action, candidate: PlayerID)
    ensures
        action.target().is_none() && action != Action::ForeignAid ==> action.counters(
            candidate,
        ).is_none(),
        action == Action::ForeignAid ==> action.counters(candidate) == Some(
            seq![Action::BlockForeignAid],
        ),
        action matches Action::Coup(_) ==> action.counters(candidate).is_none(),
        action.counters(candidate).is_some() && action != Action::ForeignAid ==> action.target()
            == Some(candidate),
        (action matches Action::Assassinate(_) || action matches Action::Steal(_)) ==> (
        action.counters(candidate).is_some() <==> action.target() == Some(candidate)),
{
}

/// Every counter-action that the catalogue opens against an action is a
/// counter-action, and can itself be challenged.
pub proof fn counters_are_counters(action: Action, candidate: PlayerID, counter: Action)
    requires
        action.counters(candidate) matches Some(list) && list.contains(counter),
    ensures
        counter.is_counter(),
        counter.target().is_none(),
        counter.required_identity().is_some(),
{
    let list = action.counters(candidate).unwrap();
    let i = choose|i: int| 0 <= i < list.len() && list[i] == counter;
    assert(list[i] == counter);
}

} // verus!

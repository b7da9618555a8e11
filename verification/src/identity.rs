use vstd::prelude::*;

verus! {

/// The kinds of card in the game. Cards of one kind are interchangeable.
#[derive(Clone, Copy, Debug, PartialEq, Eq, Structural, Hash)]
pub enum Identity {
    Ambassador,
    Assassin,
    Contessa,
    Captain,
    Duke,
}

impl Identity {
    /// The name of the identity as it is shown to players.
    pub open spec fn label(self) -> Seq<char> {
        match self {
            Identity::Ambassador => "Ambassador"@,
            Identity::Assassin => "Assassin"@,
            Identity::Contessa => "Contessa"@,
            Identity::Captain => "Captain"@,
            Identity::Duke => "Duke"@,
        }
    }

    pub fn name(&self) -> (r: String)
        ensures
            r@ == self.label(),
    {
        match self {
            Identity::Ambassador => "Ambassador".to_string(),
            Identity::Assassin => "Assassin".to_string(),
            Identity::Contessa => "Contessa".to_string(),
            Identity::Captain => "Captain".to_string(),
            Identity::Duke => "Duke".to_string(),
        }
    }
}

/// A set of identities: the kinds of card that a game is played with.
#[derive(Clone, Copy, Debug, PartialEq, Eq, Structural, Hash)]
pub struct IdentitySet {
    pub ambassador: bool,
    pub assassin: bool,
    pub contessa: bool,
    pub captain: bool,
    pub duke: bool,
}

impl IdentitySet {
    /// Whether the set holds `card`.
    pub open spec fn has(self, card: Identity) -> bool {
        match card {
            Identity::Ambassador => self.ambassador,
            Identity::Assassin => self.assassin,
            Identity::Contessa => self.contessa,
            Identity::Captain => self.captain,
            Identity::Duke => self.duke,
        }
    }

    /// The members of the set, in catalogue order.
    pub open spec fn members(self) -> Seq<Identity> {
        pick(self, Identity::Ambassador) + pick(self, Identity::Assassin) + pick(
            self,
            Identity::Contessa,
        ) + pick(self, Identity::Captain) + pick(self, Identity::Duke)
    }

    pub fn empty() -> (r: Self)
        ensures
            forall|card: Identity| !r.has(card),
    {
        IdentitySet {
            ambassador: false,
            assassin: false,
            contessa: false,
            captain: false,
            duke: false,
        }
    }

    pub fn all() -> (r: Self)
        ensures
            forall|card: Identity| r.has(card),
    {
        IdentitySet { ambassador: true, assassin: true, contessa: true, captain: true, duke: true }
    }

    pub fn contains(&self, card: Identity) -> (r: bool)
        ensures
            r == self.has(card),
    {
        match card {
            Identity::Ambassador => self.ambassador,
            Identity::Assassin => self.assassin,
            Identity::Contessa => self.contessa,
            Identity::Captain => self.captain,
            Identity::Duke => self.duke,
        }
    }

    pub fn insert(&mut self, card: Identity)
        ensures
            forall|other: Identity| final(self).has(other) == (other == card || old(self).has(other)),
    {
        match card {
            Identity::Ambassador => {
                self.ambassador = true;
            },
            Identity::Assassin => {
                self.assassin = true;
            },
            Identity::Contessa => {
                self.contessa = true;
            },
            Identity::Captain => {
                self.captain = true;
            },
            Identity::Duke => {
                self.duke = true;
            },
        }
    }

    pub fn to_vec(&self) -> (r: Vec<Identity>)
        ensures
            r@ == self.members(),
    {
        let mut out: Vec<Identity> = Vec::new();
        if self.ambassador {
            out.push(Identity::Ambassador);
        }
        if self.assassin {
            out.push(Identity::Assassin);
        }
        if self.contessa {
            out.push(Identity::Contessa);
        }
        if self.captain {
            out.push(Identity::Captain);
        }
        if self.duke {
            out.push(Identity::Duke);
        }
        assert(out@ =~= self.members());
        out
    }

    pub fn len(&self) -> (r: usize)
        ensures
            r == self.members().len(),
            r <= 5,
    {
        self.to_vec().len()
    }
}

/// `card` alone where `set` holds it, nothing where it does not.
pub open spec fn pick(set: IdentitySet, card: Identity) -> Seq<Identity> {
    if set.has(card) {
        seq![card]
    } else {
        Seq::empty()
    }
}

/// Every member of a set is in it.
proof fn members_belong(set: IdentitySet, i: int)
    requires
        0 <= i < set.members().len(),
    ensures
        set.has(set.members()[i]),
{
    let m = set.members();
    let a = pick(set, Identity::Ambassador);
    let b = a + pick(set, Identity::Assassin);
    let c = b + pick(set, Identity::Contessa);
    let d = c + pick(set, Identity::Captain);
    if i < a.len() {
        assert(m[i] == Identity::Ambassador && set.ambassador);
    } else if i < b.len() {
        assert(m[i] == Identity::Assassin && set.assassin);
    } else if i < c.len() {
        assert(m[i] == Identity::Contessa && set.contessa);
    } else if i < d.len() {
        assert(m[i] == Identity::Captain && set.captain);
    } else {
        assert(m[i] == Identity::Duke && set.duke);
    }
}

/// Every identity of a set is among its members.
proof fn identities_are_members(set: IdentitySet, card: Identity)
    requires
        set.has(card),
    ensures
        set.members().contains(card),
{
    let m = set.members();
    let a = pick(set, Identity::Ambassador);
    let b = a + pick(set, Identity::Assassin);
    let c = b + pick(set, Identity::Contessa);
    let d = c + pick(set, Identity::Captain);
    if card == Identity::Ambassador {
        assert(m[0] == card);
    } else if card == Identity::Assassin {
        assert(b[a.len() as int] == card);
        assert(m[a.len() as int] == card);
    } else if card == Identity::Contessa {
        assert(c[b.len() as int] == card);
        assert(m[b.len() as int] == card);
    } else if card == Identity::Captain {
        assert(d[c.len() as int] == card);
        assert(m[c.len() as int] == card);
    } else {
        assert(m[d.len() as int] == card);
    }
}

/// Every member of a set is in it, and nothing else is.
pub proof fn members_are_exact(set: IdentitySet, card: Identity)
    ensures
        set.members().contains(card) <==> set.has(card),
{
    if set.has(card) {
        identities_are_members(set, card);
    }
    if set.members().contains(card) {
        let i = choose|i: int| 0 <= i < set.members().len() && set.members()[i] == card;
        members_belong(set, i);
    }
}

/// The place of an identity in the catalogue.
pub open spec fn place(card: Identity) -> int {
    match card {
        Identity::Ambassador => 0,
        Identity::Assassin => 1,
        Identity::Contessa => 2,
        Identity::Captain => 3,
        Identity::Duke => 4,
    }
}

/// No identity comes twice among the members of a set: they come in
/// catalogue order.
pub proof fn members_are_distinct(set: IdentitySet)
    ensures
        set.members().no_duplicates(),
        forall|i: int, j: int|
            0 <= i < j < set.members().len() ==> place(set.members()[i]) < place(
                set.members()[j],
            ),
{
    let m = set.members();
    let a = pick(set, Identity::Ambassador);
    let b = a + pick(set, Identity::Assassin);
    let c = b + pick(set, Identity::Contessa);
    let d = c + pick(set, Identity::Captain);
    assert forall|i: int, j: int| 0 <= i < j < m.len() implies place(m[i]) < place(m[j]) by {
        assert(forall|k: int| 0 <= k < a.len() ==> place(m[k]) == 0);
        assert(forall|k: int| a.len() <= k < b.len() ==> place(m[k]) == 1);
        assert(forall|k: int| b.len() <= k < c.len() ==> place(m[k]) == 2);
        assert(forall|k: int| c.len() <= k < d.len() ==> place(m[k]) == 3);
        assert(forall|k: int| d.len() <= k < m.len() ==> place(m[k]) == 4);
    }
    assert forall|i: int, j: int| 0 <= i < m.len() && 0 <= j < m.len() && i != j implies m[i]
        != m[j] by {
        if i < j {
            assert(place(m[i]) < place(m[j]));
        } else {
            assert(place(m[j]) < place(m[i]));
        }
    }
}

} // verus!

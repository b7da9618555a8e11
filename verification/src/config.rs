use vstd::prelude::*;

verus! {

/// The kinds of player that can take a seat.
#[derive(Debug, Clone, Copy, Hash, PartialEq, Eq, Structural)]
pub enum PlayerType {
    /// A player who takes income every turn.
    DumbCPU,
    /// A player who leaves the decisions to chance.
    RandomCPU,
    /// A player who is asked at a prompt.
    Local,
}

/// Who takes a seat, and under which name.
#[derive(Debug, Clone, Hash, PartialEq, Eq)]
pub struct PlayerConfig {
    pub player_type: PlayerType,
    pub player_name: String,
}

impl PlayerConfig {
    pub fn new(player_type: PlayerType, player_name: String) -> (r: Self)
        ensures
            r.player_type == player_type,
            r.player_name@ == player_name@,
    {
        PlayerConfig { player_type, player_name }
    }
}

/// How many of `configs` are players who are asked at a prompt.
pub open spec fn locals(configs: Seq<PlayerConfig>) -> nat
    decreases configs.len(),
{
    if configs.len() == 0 {
        0
    } else if configs.last().player_type == PlayerType::Local {
        locals(configs.drop_last()) + 1
    } else {
        locals(configs.drop_last())
    }
}

/// Counts the players of `configs` who are asked at a prompt.
pub fn count_locals(configs: &Vec<PlayerConfig>) -> (r: usize)
    ensures
        r == locals(configs@),
{
    let mut count: usize = 0;
    let mut i: usize = 0;
    while i < configs.len()
        invariant
            i <= configs.len(),
            count == locals(configs@.take(i as int)),
            count <= i,
        decreases configs.len() - i,
    {
        proof {
            assert(configs@.take(i + 1).drop_last() == configs@.take(i as int));
            assert(configs@.take(i + 1).last() == configs@[i as int]);
        }
        match configs[i].player_type {
            PlayerType::Local => {
                count += 1;
            },
            _ => {},
        }
        i += 1;
    }
    assert(configs@.take(configs.len() as int) == configs@);
    count
}

} // verus!

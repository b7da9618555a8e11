use crate::action::Action;
use crate::identity::Identity;
use vstd::prelude::*;

verus! {

/// `String::push_str` appends the characters of `other` to the string.
pub assume_specification[ String::push_str ](s: &mut String, other: &str)
    ensures
        final(s)@ == old(s)@ + other@,
;

/// `first` followed by `second`.
pub fn join(first: &str, second: &str) -> (r: String)
    ensures
        r@ == first@ + second@,
{
    let mut text = String::new();
    text.push_str(first);
    text.push_str(second);
    assert(text@ =~= first@ + second@);
    text
}

/// Announces that the turn of `name` begins.
pub fn turn_begins(name: &str) -> (r: String)
    ensures
        r@ == name@ + "'s turn!"@,
{
    join(name, "'s turn!")
}

/// Announces the action that `name` has declared.
pub fn action_chosen(name: &str, action: &str) -> (r: String)
    ensures
        r@ == name@ + " chose action "@ + action@,
{
    let mut text = join(name, " chose action ");
    text.push_str(action);
    text
}

/// Announces that `blocker` meets the action of `actor` with a counter-action.
pub fn block_declared(blocker: &str, actor: &str, action: &str, counter: &str) -> (r: String)
    ensures
        r@ == blocker@ + " is blocking "@ + actor@ + "'s "@ + action@ + " with "@ + counter@,
{
    let mut text = join(blocker, " is blocking ");
    text.push_str(actor);
    text.push_str("'s ");
    text.push_str(action);
    text.push_str(" with ");
    text.push_str(counter);
    text
}

/// Announces that `challenger` doubts the action of `actor`.
pub fn challenge_declared(challenger: &str, actor: &str, action: &str) -> (r: String)
    ensures
        r@ == challenger@ + " is challenging "@ + actor@ + "'s "@ + action@,
{
    let mut text = join(challenger, " is challenging ");
    text.push_str(actor);
    text.push_str("'s ");
    text.push_str(action);
    text
}

/// Announces who lost a challenge.
pub fn challenge_lost(loser: &str) -> (r: String)
    ensures
        r@ == loser@ + " lost the challenge"@,
{
    join(loser, " lost the challenge")
}

/// Reports an attack on a player who was out of the game already.
pub fn no_lives_left(name: &str) -> (r: String)
    ensures
        r@ == "Tried to kill "@ + name@ + " but they have no lives left!"@,
{
    let mut text = join("Tried to kill ", name);
    text.push_str(" but they have no lives left!");
    text
}

/// Announces the card that `name` has revealed.
pub fn discarded(name: &str, card: Identity) -> (r: String)
    ensures
        r@ == name@ + " discarded "@ + card.label(),
{
    let mut text = join(name, " discarded ");
    text.push_str(card.name().as_str());
    text
}

/// Reports an action that changes nothing on the table.
pub fn nothing_to_apply(action: &Action) -> (r: String)
    ensures
        r@ == "Unknown action... Moving on "@ + action.written(),
{
    join("Unknown action... Moving on ", action.to_code().as_str())
}

/// Announces the winner.
pub fn winner(name: &str) -> (r: String)
    ensures
        r@ == name@ + " won!"@,
{
    join(name, " won!")
}

/// What is said of a game that ends without a single winner.
pub fn no_winner() -> (r: String)
    ensures
        r@ == "Uh oh... a lot of people won?"@,
{
    "Uh oh... a lot of people won?".to_string()
}

/// What is said when the game starts.
pub fn game_begins() -> (r: String)
    ensures
        r@ == "Let the game begin!"@,
{
    "Let the game begin!".to_string()
}

/// The names of `names`, each followed by a blank.
pub open spec fn listed(names: Seq<Seq<char>>) -> Seq<char>
    decreases names.len(),
{
    if names.len() == 0 {
        Seq::empty()
    } else {
        listed(names.drop_last()) + names.last() + " "@
    }
}

/// Announces the order in which the players take their turns.
pub fn turn_order_is(names: &Vec<String>) -> (r: String)
    ensures
        r@ == "The turn order is as follows: "@ + listed(names@.map_values(|s: String| s@)),
{
    let ghost views = names@.map_values(|s: String| s@);
    let mut text = "The turn order is as follows: ".to_string();
    let mut i: usize = 0;
    assert(listed(views.take(0)) =~= Seq::<char>::empty());
    while i < names.len()
        invariant
            i <= names.len(),
            views == names@.map_values(|s: String| s@),
            text@ =~= "The turn order is as follows: "@ + listed(views.take(i as int)),
        decreases names.len() - i,
    {
        proof {
            assert(views.take(i + 1).drop_last() == views.take(i as int));
            assert(views.take(i + 1).last() == names@[i as int]@);
        }
        text.push_str(names[i].as_str());
        text.push_str(" ");
        i += 1;
    }
    assert(views.take(names.len() as int) == views);
    text
}

/// Asks whether the player challenges `action` of `name`.
pub fn challenge_question(name: &str, action: &str) -> (r: String)
    ensures
        r@ == "Would you like to challenge "@ + name@ + "'s "@ + action@ + "?"@,
{
    let mut text = join("Would you like to challenge ", name);
    text.push_str("'s ");
    text.push_str(action);
    text.push_str("?");
    text
}

/// Asks whether the player blocks `action` of `name`.
pub fn block_question(name: &str, action: &str) -> (r: String)
    ensures
        r@ == "Would you like to block "@ + name@ + "'s "@ + action@ + "?"@,
{
    let mut text = join("Would you like to block ", name);
    text.push_str("'s ");
    text.push_str(action);
    text.push_str("?");
    text
}

/// Asks whether the player gives up a card for `card`, which they drew.
pub fn exchange_question(card: Identity) -> (r: String)
    ensures
        r@ == "You drew a "@ + card.label()
            + ". Would you like to exchange it with one of your current cards?"@,
{
    let mut text = join("You drew a ", card.name().as_str());
    text.push_str(". Would you like to exchange it with one of your current cards?");
    text
}

/// The character for a digit.
pub open spec fn digit(d: int) -> char {
    if d == 0 {
        '0'
    } else if d == 1 {
        '1'
    } else if d == 2 {
        '2'
    } else if d == 3 {
        '3'
    } else if d == 4 {
        '4'
    } else if d == 5 {
        '5'
    } else if d == 6 {
        '6'
    } else if d == 7 {
        '7'
    } else if d == 8 {
        '8'
    } else {
        '9'
    }
}

/// A number written in decimal digits, without leading zeros.
pub open spec fn decimal(n: nat) -> Seq<char>
    decreases n,
{
    if n < 10 {
        seq![digit(n as int)]
    } else {
        decimal(n / 10).push(digit((n % 10) as int))
    }
}

/// The character for the digit `d`.
pub fn digit_char(d: u8) -> (r: char)
    requires
        d < 10,
    ensures
        r == digit(d as int),
{
    match d {
        0 => '0',
        1 => '1',
        2 => '2',
        3 => '3',
        4 => '4',
        5 => '5',
        6 => '6',
        7 => '7',
        8 => '8',
        _ => '9',
    }
}

/// Writes `n` in decimal digits.
pub fn number(n: u8) -> (r: String)
    ensures
        r@ == decimal(n as nat),
{
    let mut text = String::new();
    if n >= 100 {
        text.push(digit_char(n / 100));
    }
    if n >= 10 {
        text.push(digit_char((n / 10) % 10));
    }
    text.push(digit_char(n % 10));
    proof {
        reveal_with_fuel(decimal, 3);
        assert(text@ =~= decimal(n as nat));
    }
    text
}

} // verus!

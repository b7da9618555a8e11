use vstd::prelude::*;

verus! {

/// Where the game reports what happens. The game hands each message over
/// and asks nothing of what becomes of it.
pub trait Logger {
    /// Takes a message on the inner workings of the game.
    fn log(&self, message: String);

    /// Takes a message that is meant for the players.
    fn present(&self, message: String);
}

/// The kinds of logger that a game can be run with.
#[derive(Clone, Copy, Debug, PartialEq, Eq, Structural, Hash)]
pub enum LoggerType {
    Local,
}

} // verus!

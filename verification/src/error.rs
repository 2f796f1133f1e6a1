//! Why an action was refused.

use vstd::prelude::*;

verus! {

/// Why an action was refused. A refused action changes nothing.
#[derive(Clone, Copy, Debug, PartialEq, Eq, Structural)]
pub enum Error {
    /// A player cannot play against itself.
    NoFakePlay,
    /// The player already has a game.
    PlayerHasGame,
    /// The player waits in the matchmaking queue.
    AlreadyQueued,
    /// The player has no game, or the game is not on record.
    GameDoesntExist,
    /// The player has already committed to a weapon in this game.
    PlayerChoiceExist,
    /// The player has not committed to a weapon in this game.
    PlayerChoiceDoesntExist,
    /// The game is not in the phase of the action, or the phase does not
    /// wait for the player.
    WrongPhase,
    /// The salt and weapon revealed do not open what the player has on
    /// record.
    BadBehaviour,
}

} // verus!

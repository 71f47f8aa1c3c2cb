//! The phases of a round when the two sides strictly alternate.

use vstd::prelude::*;

verus! {

/// The phase that a round is in.
#[derive(Clone, Copy, Debug, Hash, PartialEq, Eq, Structural)]
pub enum GameState {
    WaitingInput,
    PlayerTurn,
    MonsterTurn,
}

} // verus!

//! The coarse state of play.

use vstd::prelude::*;

verus! {

/// What the game is doing at the moment.
#[derive(Clone, Copy, Debug, Hash, PartialEq, Eq, Structural)]
pub enum GameState {
    WaitingInput,
    MonsterAi,
    Turn,
    Inventory,
    DropItemMenu,
}

/// Whose side is to act.
#[derive(Clone, Copy, Debug, Hash, PartialEq, Eq, Structural)]
pub enum CurrentTurn {
    Player,
    Monster,
}

impl CurrentTurn {
    /// The other side.
    pub open spec fn other(self) -> CurrentTurn {
        match self {
            CurrentTurn::Player => CurrentTurn::Monster,
            CurrentTurn::Monster => CurrentTurn::Player,
        }
    }

    /// Hands the turn to the other side.
    pub fn change(&mut self)
        ensures
            *final(self) == old(self).other(),
    {
        *self = match self {
            CurrentTurn::Player => CurrentTurn::Monster,
            CurrentTurn::Monster => CurrentTurn::Player,
        }
    }
}

/// Handing the turn over twice gives it back.
pub proof fn lemma_change_twice(turn: CurrentTurn)
    ensures
        turn.other().other() == turn,
        turn.other() != turn,
{
}

} // verus!

use vstd::prelude::*;

verus! {

/// The mode deciding which batch of systems runs on a tick: a cyclic
/// three-state machine whose single initial state is `AwaitingInput`.
#[derive(Clone, Copy, Debug, PartialEq, Eq, Structural)]
pub enum TurnState {
    AwaitingInput,
    PlayerTurn,
    MonsterTurn,
}

/// The machine's transition function.  `intent_emitted` records whether the
/// input batch queued a movement intent this tick; it matters only in
/// `AwaitingInput`, whose batch self-loops when no move key was pressed.
pub open spec fn spec_next_turn(s: TurnState, intent_emitted: bool) -> TurnState {
    match s {
        TurnState::AwaitingInput => if intent_emitted {
            TurnState::PlayerTurn
        } else {
            TurnState::AwaitingInput
        },
        TurnState::PlayerTurn => TurnState::MonsterTurn,
        TurnState::MonsterTurn => TurnState::AwaitingInput,
    }
}

/// The turn cycle is closed: from `AwaitingInput`, a tick that emits a player
/// intent reaches `PlayerTurn`, the player batch reaches `MonsterTurn`, and
/// the monster batch returns to `AwaitingInput` — no state is ever skipped.
/// A tick that emits nothing self-loops in `AwaitingInput`.
pub proof fn lemma_turn_cycle()
    ensures
        spec_next_turn(TurnState::AwaitingInput, true) == TurnState::PlayerTurn,
        forall|e: bool|
            spec_next_turn(TurnState::PlayerTurn, e) == TurnState::MonsterTurn,
        forall|e: bool|
            spec_next_turn(TurnState::MonsterTurn, e) == TurnState::AwaitingInput,
        forall|e1: bool, e2: bool|
            spec_next_turn(
                spec_next_turn(spec_next_turn(TurnState::AwaitingInput, true), e1),
                e2,
            ) == TurnState::AwaitingInput,
        spec_next_turn(TurnState::AwaitingInput, false) == TurnState::AwaitingInput,
{
}

} // verus!

use vstd::prelude::*;

verus! {

/// Every way a command can be rejected.  A rejected command leaves the game
/// record unchanged; the variants distinguish which guard failed.
#[derive(Clone, Copy, Debug, PartialEq, Eq, Structural)]
pub enum ContractError {
    /// The caller is not the required principal for this action.
    Unauthorized,
    /// The referenced game id does not exist.
    NotFound,
    /// The target cell is already occupied or the coordinates are out of range.
    IllegalMove,
    /// The move was submitted for a side that is not currently to move.
    WrongTurn,
    /// The action requires a different lifecycle status than the game has.
    GameNotPlayable,
    /// Settlement was attempted while the board outcome is still undetermined.
    GameNotSettleable,
    /// The board's mark counts are inconsistent with legal alternating play.
    InvalidBoard,
    /// Attached funds are absent, of the wrong denomination, or of the wrong
    /// amount, or funds were attached to a command that takes none.
    FundsMismatch,
    /// A game with the requested id already exists; ids are never overwritten.
    GameAlreadyExists,
}

} // verus!

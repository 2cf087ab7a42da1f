use vstd::prelude::*;

use crate::state::{Coin, Game};

verus! {

/// The (empty) instantiation message of the contract.
#[derive(Clone, Copy, Debug, PartialEq, Eq, Structural)]
pub struct InstantiateMsg {}

/// A plain counter value, as some hosts expect count queries to answer.
#[derive(Clone, Copy, Debug, PartialEq, Eq, Structural)]
pub struct CountResponse {
    pub count: i32,
}

/// The commands the lifecycle accepts.  `side` is `true` for cross and
/// `false` for nought; `i` is the row and `j` the column of a move.
#[derive(Debug)]
pub enum ExecuteMsg {
    CreateGame { bet: Coin },
    JoinGame { game_id: u128 },
    WithdrawBet { game_id: u128 },
    UpdateGame { game_id: u128, side: bool, i: u16, j: u16 },
    CancelGame { game_id: u128 },
}

/// The read-only queries.
#[derive(Debug)]
pub enum QueryMsg {
    GetWinner { game_id: u128 },
    QueryGame { game_id: u128 },
    PendingGames {},
    AllGames { start_after: Option<u128>, limit: Option<u32> },
}

/// One answer per query variant.
#[derive(Debug)]
pub enum QueryResponse {
    Winner(GameResult),
    Game(Game),
    PendingGames(Vec<u128>),
    AllGames(Vec<u128>),
}

/// The authenticated context a command arrives with: who calls, and which
/// funds the call attaches.
#[derive(Debug)]
pub struct MessageInfo {
    pub sender: String,
    pub funds: Vec<Coin>,
}

/// The host environment of a command; the chain height seeds new game ids.
#[derive(Clone, Copy, Debug, PartialEq, Eq, Structural)]
pub struct Env {
    pub height: u64,
}

/// One transfer instruction for the host's bank: pay `amount` to
/// `to_address`.
#[derive(Debug)]
pub struct Transfer {
    pub to_address: String,
    pub amount: Coin,
}

/// What a command hands back to the host: the transfer instructions it
/// wants performed.
#[derive(Debug)]
pub struct Response {
    pub messages: Vec<Transfer>,
}

/// The classification of a board: a winner, a draw, or not yet decided.
#[derive(Clone, Copy, Debug, PartialEq, Eq, Structural)]
pub enum GameResult {
    /// The cross player (the creator, who moves first) has three in a row.
    Cross,
    /// The nought player (the opponent) has three in a row.
    Nought,
    /// The board is full and neither side has three in a row.
    Draw,
    /// The board is not yet determinate.
    NoResult,
}

} // verus!

//! A wagered two-player tic-tac-toe engine.
//!
//! Two players escrow equal stakes, play alternating moves on a 3x3 board,
//! and a permissionless settlement step pays the pooled stake to the winner,
//! or splits it on a draw.  The crate verifies the board engine (move
//! legality and outcome classification), the game lifecycle state machine
//! (create, join, move, cancel, settle), the escrow payouts, and the
//! paginated game index.

pub mod board;
pub mod contract;
pub mod error;
pub mod laws;
pub mod msg;
pub mod state;
pub mod store;

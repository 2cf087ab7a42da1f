use vstd::prelude::*;

use crate::board::{
    apply_move, balance_for_turn, board_empty, board_sets, cell, GameBoard,
};

verus! {

/// An amount of a single currency denomination.  A stake is immutable once
/// a game is created and is compared by value and denomination everywhere
/// funds are checked.
#[derive(Debug)]
pub struct Coin {
    pub amount: u128,
    pub denom: String,
}

impl Coin {
    /// An identical copy of this coin.
    pub fn dup(&self) -> (c: Coin)
        ensures
            c == *self,
    {
        Coin { amount: self.amount, denom: self.denom.clone() }
    }
}

impl PartialEq for Coin {
    fn eq(&self, other: &Coin) -> bool {
        self.amount == other.amount && self.denom == other.denom
    }
}

impl vstd::std_specs::cmp::PartialEqSpecImpl for Coin {
    open spec fn obeys_eq_spec() -> bool {
        true
    }

    open spec fn eq_spec(&self, other: &Coin) -> bool {
        self.amount == other.amount && self.denom@ == other.denom@
    }
}

/// The lifecycle phase of a game.  Status only moves forward: Pending to
/// Started to Completed, or Pending to Completed via cancellation.
#[derive(Clone, Copy, Debug, PartialEq, Eq, Structural)]
pub enum GameState {
    /// Created and escrowing the creator's stake; waiting for an opponent.
    Pending,
    /// Both players joined; moves are accepted.
    Started,
    /// Terminal: cancelled before play or settled after it.  The record is
    /// retained for audit and query; the pool has been emptied.
    Completed,
}

/// The game aggregate: the board, whose move is next (`true` for cross),
/// the two players, the stake each side locks, and the lifecycle status.
/// The creator plays cross and moves first; the opponent plays nought and
/// is absent until the game is joined.
#[derive(Debug)]
pub struct Game {
    pub game: GameBoard,
    pub next_move: bool,
    pub cross: String,
    pub nought: Option<String>,
    pub bet: Coin,
    pub state: GameState,
}

impl Game {
    /// The invariant every stored game satisfies: the mark counts agree
    /// with whose turn it is (alternating play starting with cross), a
    /// pending game has an empty board and no opponent, a started game has
    /// an opponent, and a completed game either has an opponent or was
    /// cancelled with its board still empty.
    pub open spec fn wf(self) -> bool {
        &&& balance_for_turn(self.game, self.next_move)
        &&& self.state == GameState::Pending ==> self.nought is None && board_empty(self.game)
            && self.next_move
        &&& self.state == GameState::Started ==> self.nought is Some
        &&& self.state == GameState::Completed ==> self.nought is Some || board_empty(self.game)
    }

    /// A fresh pending game: empty board, cross to move, no opponent.
    pub fn new(cross: &String, bet: &Coin) -> (g: Game)
        ensures
            board_empty(g.game),
            g.next_move,
            g.cross == *cross,
            g.nought is None,
            g.bet == *bet,
            g.state == GameState::Pending,
            g.wf(),
    {
        let g = Game {
            game: [[None, None, None], [None, None, None], [None, None, None]],
            next_move: true,
            cross: cross.clone(),
            bet: bet.dup(),
            nought: None,
            state: GameState::Pending,
        };
        proof {
            assert forall|r: int, c: int| 0 <= r < 3 && 0 <= c < 3 implies (#[trigger] cell(
                g.game,
                r,
                c,
            )) is None by {
                assert(g.game[r][c] is None);
            }
        }
        g
    }

    /// Record `nought` as the opponent.
    pub fn update_opponent(&mut self, nought: &String)
        ensures
            *final(self) == (Game { nought: Some(*nought), ..*old(self) }),
    {
        self.nought = Some(nought.clone());
    }

    /// Place `val`'s mark at (`i`, `j`) if the game is underway, the
    /// coordinates are in range, and the cell is empty; report whether the
    /// move was accepted.  A rejected move changes nothing.
    pub fn update_game(&mut self, i: u16, j: u16, val: bool) -> (r: bool)
        ensures
            r == (old(self).state == GameState::Started && i < 3 && j < 3 && cell(
                old(self).game,
                i as int,
                j as int,
            ) is None),
            r ==> board_sets(old(self).game, final(self).game, i as int, j as int, val),
            r ==> *final(self) == (Game { game: final(self).game, ..*old(self) }),
            !r ==> *final(self) == *old(self),
    {
        if self.state == GameState::Started {
            match apply_move(self.game, i, j, val) {
                Ok(b2) => {
                    self.game = b2;
                    true
                },
                Err(_) => false,
            }
        } else {
            false
        }
    }

    /// Hand the turn to the other side.
    pub fn update_side(&mut self)
        ensures
            *final(self) == (Game { next_move: !old(self).next_move, ..*old(self) }),
    {
        self.next_move = !self.next_move;
    }

    /// Mark the game as underway.
    pub fn start_game(&mut self)
        ensures
            *final(self) == (Game { state: GameState::Started, ..*old(self) }),
    {
        self.state = GameState::Started;
    }

    /// Mark the game as terminal.
    pub fn complete_game(&mut self)
        ensures
            *final(self) == (Game { state: GameState::Completed, ..*old(self) }),
    {
        self.state = GameState::Completed;
    }

    /// An identical copy of this game record.
    pub fn dup(&self) -> (g: Game)
        ensures
            g == *self,
    {
        Game {
            game: self.game,
            next_move: self.next_move,
            cross: self.cross.clone(),
            nought: match &self.nought {
                Some(n) => Some(n.clone()),
                None => None,
            },
            bet: self.bet.dup(),
            state: self.state,
        }
    }
}

} // verus!

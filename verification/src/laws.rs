use vstd::prelude::*;

use crate::board::{
    balance_for_turn, board_empty, board_full, board_sets, cell, classify_spec, line_win,
    mark_count, mark_counts_ok, one_if, GameBoard,
};
use crate::contract::{
    game_moved, keys_after, store_replaced, update_move_guard, withdraw_guard,
};
use crate::error::ContractError;
use crate::msg::{GameResult, MessageInfo};
use crate::state::{Game, GameState};
use crate::store::{games_wf, seq_get, seq_has, seq_index_of, seq_keys, sorted_keys};

verus! {

/// An empty board carries no marks, so it is balanced with cross to move:
/// alternating play starts with cross.
pub proof fn lemma_empty_board_balanced(b: GameBoard)
    requires
        board_empty(b),
    ensures
        balance_for_turn(b, true),
{
    assert(mark_count(b, true) == 0);
    assert(mark_count(b, false) == 0);
}

/// One accepted move of alternating play keeps the board balanced: when it
/// is `side`'s turn and `side`'s mark lands on an empty cell, the mark
/// counts afterwards are the ones the other side's turn requires.
pub proof fn lemma_move_preserves_balance(b: GameBoard, b2: GameBoard, i: int, j: int, side: bool)
    requires
        0 <= i < 3,
        0 <= j < 3,
        cell(b, i, j) is None,
        board_sets(b, b2, i, j, side),
        balance_for_turn(b, side),
    ensures
        balance_for_turn(b2, !side),
{
    assert(mark_count(b2, side) == mark_count(b, side) + 1);
    assert(mark_count(b2, !side) == mark_count(b, !side));
}

/// A board reached by strictly alternating play starting with cross never
/// fails the mark-count check for the outcome `classify` reports: the
/// defensive guard in settlement cannot reject a board the engine itself
/// produced.  Together with `lemma_empty_board_balanced` and
/// `lemma_move_preserves_balance`, which carry balance from the empty
/// board through every accepted move, this covers all reachable boards.
pub proof fn lemma_balanced_board_passes_mark_check(b: GameBoard, next: bool)
    requires
        balance_for_turn(b, next),
    ensures
        mark_counts_ok(b, classify_spec(b)),
{
    let x = mark_count(b, true);
    let o = mark_count(b, false);
    assert(x + o <= 9);
    if line_win(b, true) {
        assert(x >= 3) by {
            lemma_line_win_three_marks(b, true);
        }
    } else if line_win(b, false) {
        assert(o >= 3) by {
            lemma_line_win_three_marks(b, false);
        }
    } else if board_full(b) {
        lemma_full_board_nine_marks(b);
    }
}

/// A full board carries exactly nine marks in all.
proof fn lemma_full_board_nine_marks(b: GameBoard)
    requires
        board_full(b),
    ensures
        mark_count(b, true) + mark_count(b, false) == 9,
{
    lemma_filled_cell_one_mark(cell(b, 0, 0));
    lemma_filled_cell_one_mark(cell(b, 0, 1));
    lemma_filled_cell_one_mark(cell(b, 0, 2));
    lemma_filled_cell_one_mark(cell(b, 1, 0));
    lemma_filled_cell_one_mark(cell(b, 1, 1));
    lemma_filled_cell_one_mark(cell(b, 1, 2));
    lemma_filled_cell_one_mark(cell(b, 2, 0));
    lemma_filled_cell_one_mark(cell(b, 2, 1));
    lemma_filled_cell_one_mark(cell(b, 2, 2));
}

/// The side that plays move number `k` (counting from zero) under strictly
/// alternating play starting with cross.
pub open spec fn side_of_move(k: nat) -> bool {
    k % 2 == 0
}

/// `b` is the board after exactly `n` moves of strictly alternating play
/// starting with cross, each placed by `apply_move` on an empty cell of
/// the board before it.
pub open spec fn reachable_in(b: GameBoard, n: nat) -> bool
    decreases n,
{
    if n == 0 {
        board_empty(b)
    } else {
        exists|b0: GameBoard, r: int, c: int|
            {
                &&& reachable_in(b0, (n - 1) as nat)
                &&& 0 <= r < 3
                &&& 0 <= c < 3
                &&& cell(b0, r, c) is None
                &&& board_sets(b0, b, r, c, side_of_move((n - 1) as nat))
            }
    }
}

/// `b` can be produced from the empty board by some number of moves of
/// strictly alternating play starting with cross.
pub open spec fn board_reachable(b: GameBoard) -> bool {
    exists|n: nat| reachable_in(b, n)
}

/// After `n` moves of alternating play the board holds exactly the marks
/// the moves placed: cross played the even-numbered moves, nought the odd
/// ones.
proof fn lemma_reachable_in_counts(b: GameBoard, n: nat)
    requires
        reachable_in(b, n),
    ensures
        mark_count(b, true) == ((n + 1) / 2) as int,
        mark_count(b, false) == (n / 2) as int,
    decreases n,
{
    if n == 0 {
        assert(mark_count(b, true) == 0);
        assert(mark_count(b, false) == 0);
    } else {
        let (b0, r, c) = choose|b0: GameBoard, r: int, c: int|
            {
                &&& reachable_in(b0, (n - 1) as nat)
                &&& 0 <= r < 3
                &&& 0 <= c < 3
                &&& cell(b0, r, c) is None
                &&& board_sets(b0, b, r, c, side_of_move((n - 1) as nat))
            };
        lemma_reachable_in_counts(b0, (n - 1) as nat);
        let side = side_of_move((n - 1) as nat);
        lemma_one_mark_added(b0, b, r, c, side);
    }
}

/// Setting one empty cell adds exactly one mark for the moving side and
/// none for the other.
proof fn lemma_one_mark_added(b0: GameBoard, b: GameBoard, r: int, c: int, side: bool)
    requires
        0 <= r < 3,
        0 <= c < 3,
        cell(b0, r, c) is None,
        board_sets(b0, b, r, c, side),
    ensures
        mark_count(b, side) == mark_count(b0, side) + 1,
        mark_count(b, !side) == mark_count(b0, !side),
{
}

/// For all boards reachable only via `apply_move` from the empty board
/// with strictly alternating sides starting with cross, the mark-count
/// check never rejects the outcome `classify` reports.
pub proof fn lemma_reachable_boards_pass_mark_check(b: GameBoard)
    requires
        board_reachable(b),
    ensures
        mark_counts_ok(b, classify_spec(b)),
{
    let n = choose|n: nat| reachable_in(b, n);
    lemma_reachable_in_counts(b, n);
    if n % 2 == 0 {
        lemma_balanced_board_passes_mark_check(b, true);
    } else {
        lemma_balanced_board_passes_mark_check(b, false);
    }
}

/// The empty board is reachable: it is the start of play.
pub proof fn lemma_empty_board_reachable(b: GameBoard)
    requires
        board_empty(b),
    ensures
        board_reachable(b),
{
    assert(reachable_in(b, 0));
}

/// An accepted move of the side whose turn the mark counts give keeps the
/// board reachable: the lifecycle's turn enforcement and `apply_move`
/// together only ever produce reachable boards.
pub proof fn lemma_move_keeps_reachable(b: GameBoard, b2: GameBoard, r: int, c: int, side: bool)
    requires
        board_reachable(b),
        side == (mark_count(b, true) == mark_count(b, false)),
        0 <= r < 3,
        0 <= c < 3,
        cell(b, r, c) is None,
        board_sets(b, b2, r, c, side),
    ensures
        board_reachable(b2),
{
    let n = choose|n: nat| reachable_in(b, n);
    lemma_reachable_in_counts(b, n);
    assert(side == side_of_move(n));
    assert(reachable_in(b2, n + 1));
}

/// A game's pool transfers exactly once: settlement completes the game,
/// and the guard of WithdrawBet rejects a completed game with
/// `GameNotPlayable`, so a second settlement returns that error, leaves
/// the store untouched, and issues no transfers.
pub proof fn lemma_pool_transfers_once(
    s0: Seq<(u128, Game)>,
    s1: Seq<(u128, Game)>,
    info1: MessageInfo,
    info2: MessageInfo,
    game_id: u128,
)
    requires
        withdraw_guard(s0, info1, game_id) is Ok,
        store_replaced(s0, s1, game_id),
        seq_get(s1, game_id) == (Game { state: GameState::Completed, ..seq_get(s0, game_id) }),
        info2.funds@.len() == 0,
    ensures
        withdraw_guard(s1, info2, game_id) == Err::<GameResult, ContractError>(
            ContractError::GameNotPlayable,
        ),
{
    assert(seq_has(s0, game_id));
    assert(seq_has(s1, game_id));
}

/// Turns strictly alternate: of two consecutively accepted moves on the
/// same game, the second is by the opposite side of the first.
pub proof fn lemma_turns_alternate(
    s0: Seq<(u128, Game)>,
    s1: Seq<(u128, Game)>,
    info1: MessageInfo,
    info2: MessageInfo,
    game_id: u128,
    i1: u16,
    j1: u16,
    side1: bool,
    i2: u16,
    j2: u16,
    side2: bool,
)
    requires
        update_move_guard(s0, info1, game_id, i1, j1, side1) is Ok,
        store_replaced(s0, s1, game_id),
        game_moved(seq_get(s0, game_id), seq_get(s1, game_id), i1, j1, side1),
        update_move_guard(s1, info2, game_id, i2, j2, side2) is Ok,
    ensures
        side2 == !side1,
{
    assert(side1 == seq_get(s0, game_id).next_move);
    assert(seq_get(s1, game_id).next_move == !side1);
}

/// The first accepted move of a game is by cross: while the board is still
/// empty, well-formedness forces the turn to be cross's, and an accepted
/// move's side is the side whose turn it is.
pub proof fn lemma_first_move_is_cross(
    s: Seq<(u128, Game)>,
    info: MessageInfo,
    game_id: u128,
    i: u16,
    j: u16,
    side: bool,
)
    requires
        games_wf(s),
        seq_has(s, game_id),
        board_empty(seq_get(s, game_id).game),
        update_move_guard(s, info, game_id, i, j, side) is Ok,
    ensures
        side == true,
{
    let g = seq_get(s, game_id);
    let k = seq_index_of(s, game_id);
    assert(0 <= k < s.len() && s[k].0 == game_id);
    assert(s[k].1.wf());
    assert(mark_count(g.game, true) == 0);
    assert(mark_count(g.game, false) == 0);
    assert(g.next_move);
}

/// Without a cursor, a listing walks every id in storage order.
pub proof fn lemma_keys_after_none(s: Seq<(u128, Game)>)
    ensures
        keys_after(s, None) == seq_keys(s),
    decreases s.len(),
{
    if s.len() == 0 {
        assert(keys_after(s, None) =~= seq_keys(s));
    } else {
        lemma_keys_after_none(s.drop_last());
        assert(keys_after(s, None) =~= seq_keys(s));
    }
}

/// A cursor at or above every stored id filters the listing empty.
proof fn lemma_cursor_filters_all(s: Seq<(u128, Game)>, c: u128)
    requires
        forall|k: int| 0 <= k < s.len() ==> (#[trigger] s[k]).0 <= c,
    ensures
        keys_after(s, Some(c)) == Seq::<u128>::empty(),
    decreases s.len(),
{
    if s.len() == 0 {
        assert(keys_after(s, Some(c)) =~= Seq::<u128>::empty());
    } else {
        lemma_cursor_filters_all(s.drop_last(), c);
        assert(keys_after(s, Some(c)) =~= Seq::<u128>::empty());
    }
}

/// Pagination resumes with no duplicates and no gaps: with ascending ids,
/// listing strictly after the id at position `i` yields exactly the ids
/// that follow position `i` in an unpaged listing.
pub proof fn lemma_pagination_resumes(s: Seq<(u128, Game)>, i: int)
    requires
        sorted_keys(s),
        0 <= i < s.len(),
    ensures
        keys_after(s, Some(s[i].0)) == seq_keys(s).skip(i + 1),
    decreases s.len(),
{
    let c = s[i].0;
    let dl = s.drop_last();
    if i == s.len() - 1 {
        assert forall|k: int| 0 <= k < dl.len() implies (#[trigger] dl[k]).0 <= c by {
            assert(dl[k] == s[k]);
            assert(s[k].0 < s[i].0);
        }
        lemma_cursor_filters_all(dl, c);
        assert(keys_after(s, Some(c)) =~= seq_keys(s).skip(i + 1));
    } else {
        assert forall|k1: int, k2: int| 0 <= k1 < k2 < dl.len() implies (#[trigger] dl[k1]).0 < (
        #[trigger] dl[k2]).0 by {
            assert(dl[k1] == s[k1] && dl[k2] == s[k2]);
        }
        assert(dl[i] == s[i]);
        lemma_pagination_resumes(dl, i);
        assert(s.last().0 > c);
        assert(keys_after(s, Some(c)) =~= seq_keys(s).skip(i + 1));
    }
}

/// A filled cell carries exactly one mark, of one side or the other.
proof fn lemma_filled_cell_one_mark(c: Option<bool>)
    requires
        c is Some,
    ensures
        one_if(c, true) + one_if(c, false) == 1,
{
    match c {
        Some(v) => {
            if v {
                assert(c == Some(true));
            } else {
                assert(c == Some(false));
            }
        },
        None => {},
    }
}

/// Three in a row means at least three marks of that side on the board.
proof fn lemma_line_win_three_marks(b: GameBoard, side: bool)
    requires
        line_win(b, side),
    ensures
        mark_count(b, side) >= 3,
{
}

} // verus!

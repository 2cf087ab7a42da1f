use vstd::prelude::*;

use crate::error::ContractError;
use crate::msg::GameResult;

verus! {

broadcast use vstd::array::group_array_axioms;

/// A 3x3 grid of tri-state cells, row-major.  `None` is an empty cell,
/// `Some(true)` a cross mark, `Some(false)` a nought mark.
pub type GameBoard = [[Option<bool>; 3]; 3];

/// The cell of `b` at row `r`, column `c`.
pub open spec fn cell(b: GameBoard, r: int, c: int) -> Option<bool>
    recommends
        0 <= r < 3,
        0 <= c < 3,
{
    b[r][c]
}

/// 1 if the cell holds the mark of side `v`, else 0.
pub open spec fn one_if(c: Option<bool>, v: bool) -> int {
    if c == Some(v) {
        1
    } else {
        0
    }
}

/// How many cells of `b` hold the mark of side `v`.
pub open spec fn mark_count(b: GameBoard, v: bool) -> int {
    one_if(cell(b, 0, 0), v) + one_if(cell(b, 0, 1), v) + one_if(cell(b, 0, 2), v)
        + one_if(cell(b, 1, 0), v) + one_if(cell(b, 1, 1), v) + one_if(cell(b, 1, 2), v)
        + one_if(cell(b, 2, 0), v) + one_if(cell(b, 2, 1), v) + one_if(cell(b, 2, 2), v)
}

/// Row `i` is three-in-a-row for `side`.
pub open spec fn row_win(b: GameBoard, i: int, side: bool) -> bool {
    cell(b, i, 0) == Some(side) && cell(b, i, 1) == Some(side) && cell(b, i, 2) == Some(side)
}

/// Column `j` is three-in-a-row for `side`.
pub open spec fn col_win(b: GameBoard, j: int, side: bool) -> bool {
    cell(b, 0, j) == Some(side) && cell(b, 1, j) == Some(side) && cell(b, 2, j) == Some(side)
}

/// The main diagonal is three-in-a-row for `side`.
pub open spec fn main_diag_win(b: GameBoard, side: bool) -> bool {
    cell(b, 0, 0) == Some(side) && cell(b, 1, 1) == Some(side) && cell(b, 2, 2) == Some(side)
}

/// The anti-diagonal is three-in-a-row for `side`.
pub open spec fn anti_diag_win(b: GameBoard, side: bool) -> bool {
    cell(b, 0, 2) == Some(side) && cell(b, 1, 1) == Some(side) && cell(b, 2, 0) == Some(side)
}

/// Some row is three-in-a-row for `side`.
pub open spec fn any_row_win(b: GameBoard, side: bool) -> bool {
    row_win(b, 0, side) || row_win(b, 1, side) || row_win(b, 2, side)
}

/// Some column is three-in-a-row for `side`.
pub open spec fn any_col_win(b: GameBoard, side: bool) -> bool {
    col_win(b, 0, side) || col_win(b, 1, side) || col_win(b, 2, side)
}

/// `side` has three in a row anywhere: a row, a column, or a diagonal.
pub open spec fn line_win(b: GameBoard, side: bool) -> bool {
    any_row_win(b, side) || any_col_win(b, side) || main_diag_win(b, side) || anti_diag_win(b, side)
}

/// Every cell of `b` is filled.
pub open spec fn board_full(b: GameBoard) -> bool {
    forall|r: int, c: int| 0 <= r < 3 && 0 <= c < 3 ==> (#[trigger] cell(b, r, c)) is Some
}

/// Every cell of `b` is empty.
pub open spec fn board_empty(b: GameBoard) -> bool {
    forall|r: int, c: int| 0 <= r < 3 && 0 <= c < 3 ==> (#[trigger] cell(b, r, c)) is None
}

/// The outcome of a board.  Cross is checked first, as cross moves first;
/// with no winning line the board is a draw exactly when it is full.
pub open spec fn classify_spec(b: GameBoard) -> GameResult {
    if line_win(b, true) {
        GameResult::Cross
    } else if line_win(b, false) {
        GameResult::Nought
    } else if board_full(b) {
        GameResult::Draw
    } else {
        GameResult::NoResult
    }
}

/// The defensive consistency check that gates settlement: for a winner the
/// cross count must lie in 1..=5 and the nought count in 1..=4 (cross moves
/// first, so cross never trails); for a draw the board must hold exactly
/// five crosses and four noughts.
pub open spec fn mark_counts_ok(b: GameBoard, outcome: GameResult) -> bool {
    match outcome {
        GameResult::Cross | GameResult::Nought => {
            1 <= mark_count(b, true) <= 5 && 1 <= mark_count(b, false) <= 4
        },
        GameResult::Draw => mark_count(b, true) == 5 && mark_count(b, false) == 4,
        GameResult::NoResult => true,
    }
}

/// The mark counts a board must show when `next` is the side to move under
/// strictly alternating play starting with cross: equal counts when cross
/// is to move, one extra cross when nought is to move.
pub open spec fn balance_for_turn(b: GameBoard, next: bool) -> bool {
    if next {
        mark_count(b, true) == mark_count(b, false)
    } else {
        mark_count(b, true) == mark_count(b, false) + 1
    }
}

/// `b2` is `b` with the cell at (`i`, `j`) set to `side`'s mark and every
/// other cell unchanged.
pub open spec fn board_sets(b: GameBoard, b2: GameBoard, i: int, j: int, side: bool) -> bool {
    &&& cell(b2, i, j) == Some(side)
    &&& forall|r: int, c: int|
        0 <= r < 3 && 0 <= c < 3 && !(r == i && c == j) ==> #[trigger] cell(b2, r, c) == cell(
            b,
            r,
            c,
        )
}

/// Place `side`'s mark at (`i`, `j`).  Legal exactly when the coordinates
/// are in range and the cell is empty; an illegal move is rejected and, the
/// board being passed by value, changes nothing.
pub fn apply_move(board: GameBoard, i: u16, j: u16, side: bool) -> (r: Result<
    GameBoard,
    ContractError,
>)
    ensures
        i < 3 && j < 3 && cell(board, i as int, j as int) is None ==> (r matches Ok(b2)
            && board_sets(board, b2, i as int, j as int, side)),
        !(i < 3 && j < 3 && cell(board, i as int, j as int) is None) ==> r == Err::<
            GameBoard,
            ContractError,
        >(ContractError::IllegalMove),
{
    if i < 3 && j < 3 {
        let ii = i as usize;
        let jj = j as usize;
        if board[ii][jj].is_none() {
            let mut b2 = board;
            b2[ii][jj] = Some(side);
            Ok(b2)
        } else {
            Err(ContractError::IllegalMove)
        }
    } else {
        Err(ContractError::IllegalMove)
    }
}

/// The cell of `b` at linear position `k` in row-major order.
pub open spec fn cell_linear(b: GameBoard, k: int) -> Option<bool>
    recommends
        0 <= k < 9,
{
    cell(b, k / 3, k % 3)
}

/// How many of the first `k` cells (row-major) hold the mark of side `v`.
pub open spec fn mark_count_prefix(b: GameBoard, v: bool, k: int) -> int
    decreases k,
{
    if k <= 0 {
        0
    } else {
        mark_count_prefix(b, v, k - 1) + one_if(cell_linear(b, k - 1), v)
    }
}

proof fn lemma_mark_count_prefix_full(b: GameBoard, v: bool)
    ensures
        mark_count_prefix(b, v, 9) == mark_count(b, v),
{
    reveal_with_fuel(mark_count_prefix, 10);
}

/// Read one cell.
fn cell_at(b: &GameBoard, i: usize, j: usize) -> (c: Option<bool>)
    requires
        i < 3,
        j < 3,
    ensures
        c == cell(*b, i as int, j as int),
{
    b[i][j]
}

/// Count the cross marks and the nought marks of `b`.
fn count_marks(b: &GameBoard) -> (r: (u32, u32))
    ensures
        r.0 == mark_count(*b, true),
        r.1 == mark_count(*b, false),
{
    let mut x: u32 = 0;
    let mut o: u32 = 0;
    for k in 0..9usize
        invariant
            x == mark_count_prefix(*b, true, k as int),
            o == mark_count_prefix(*b, false, k as int),
            x <= k,
            o <= k,
    {
        match cell_at(b, k / 3, k % 3) {
            Some(true) => {
                x = x + 1;
            },
            Some(false) => {
                o = o + 1;
            },
            None => {},
        }
    }
    proof {
        lemma_mark_count_prefix_full(*b, true);
        lemma_mark_count_prefix_full(*b, false);
    }
    (x, o)
}

/// True when the cell at (`i`, `j`) holds the mark of `side`.
fn cell_matches(b: &GameBoard, i: usize, j: usize, side: bool) -> (r: bool)
    requires
        i < 3,
        j < 3,
    ensures
        r == (cell(*b, i as int, j as int) == Some(side)),
{
    match b[i][j] {
        Some(v) => v == side,
        None => false,
    }
}

/// Scan the three rows (or the three columns) of `arr` for three marks of
/// the side `is_cross` stands for.
pub fn validate_rows_or_cols(arr: &GameBoard, is_cross: &bool, is_row: bool) -> (r: bool)
    ensures
        is_row ==> r == any_row_win(*arr, *is_cross),
        !is_row ==> r == any_col_win(*arr, *is_cross),
{
    for i in 0..3usize
        invariant
            forall|k: int|
                0 <= k < i ==> if is_row {
                    !row_win(*arr, k, *is_cross)
                } else {
                    !col_win(*arr, k, *is_cross)
                },
    {
        let win = if is_row {
            cell_matches(arr, i, 0, *is_cross) && cell_matches(arr, i, 1, *is_cross)
                && cell_matches(arr, i, 2, *is_cross)
        } else {
            cell_matches(arr, 0, i, *is_cross) && cell_matches(arr, 1, i, *is_cross)
                && cell_matches(arr, 2, i, *is_cross)
        };
        if win {
            return true;
        }
    }
    false
}

/// Check one diagonal: the anti-diagonal when `is_rev`, else the main one.
pub fn validate_diagonals_inter(arr: &GameBoard, is_cross: &bool, is_rev: bool) -> (r: bool)
    ensures
        is_rev ==> r == anti_diag_win(*arr, *is_cross),
        !is_rev ==> r == main_diag_win(*arr, *is_cross),
{
    if is_rev {
        cell_matches(arr, 0, 2, *is_cross) && cell_matches(arr, 1, 1, *is_cross) && cell_matches(
            arr,
            2,
            0,
            *is_cross,
        )
    } else {
        cell_matches(arr, 0, 0, *is_cross) && cell_matches(arr, 1, 1, *is_cross) && cell_matches(
            arr,
            2,
            2,
            *is_cross,
        )
    }
}

/// Check both diagonals for three marks of the side `is_cross` stands for.
pub fn validate_diagonals(arr: &GameBoard, is_cross: &bool) -> (r: bool)
    ensures
        r == (main_diag_win(*arr, *is_cross) || anti_diag_win(*arr, *is_cross)),
{
    if validate_diagonals_inter(arr, is_cross, false) {
        true
    } else {
        validate_diagonals_inter(arr, is_cross, true)
    }
}

/// Whether the side `is_cross` stands for has three in a row anywhere.
pub fn validate_game(arr: GameBoard, is_cross: bool) -> (r: Result<bool, ContractError>)
    ensures
        r == Ok::<bool, ContractError>(line_win(arr, is_cross)),
{
    if validate_rows_or_cols(&arr, &is_cross, true) {
        return Ok(true);
    }
    if validate_rows_or_cols(&arr, &is_cross, false) {
        return Ok(true);
    }
    if validate_diagonals(&arr, &is_cross) {
        return Ok(true);
    }
    Ok(false)
}

/// Whether every cell of `b` is filled.
fn board_is_full(b: &GameBoard) -> (r: bool)
    ensures
        r == board_full(*b),
{
    for i in 0..3usize
        invariant
            forall|r2: int, c2: int|
                0 <= r2 < i && 0 <= c2 < 3 ==> (#[trigger] cell(*b, r2, c2)) is Some,
    {
        for j in 0..3usize
            invariant
                i < 3,
                forall|r2: int, c2: int|
                    0 <= r2 < i && 0 <= c2 < 3 ==> (#[trigger] cell(*b, r2, c2)) is Some,
                forall|c2: int| 0 <= c2 < j ==> (#[trigger] cell(*b, i as int, c2)) is Some,
        {
            if cell_at(b, i, j).is_none() {
                return false;
            }
        }
    }
    true
}

/// Classify a board: the winning side if one has three in a row (cross
/// checked first), a draw if the board is full, else not yet decided.
pub fn classify(b: &GameBoard) -> (r: GameResult)
    ensures
        r == classify_spec(*b),
{
    if validate_rows_or_cols(b, &true, true) || validate_rows_or_cols(b, &true, false)
        || validate_diagonals(b, &true) {
        GameResult::Cross
    } else if validate_rows_or_cols(b, &false, true) || validate_rows_or_cols(b, &false, false)
        || validate_diagonals(b, &false) {
        GameResult::Nought
    } else if board_is_full(b) {
        GameResult::Draw
    } else {
        GameResult::NoResult
    }
}

/// The count check behind `validate_mark_counts`.  In full mode the board
/// must hold exactly five crosses and four noughts; otherwise the cross
/// count must lie in 1..=5 and the nought count in 1..=4.
pub fn is_valid_board(arr: &GameBoard, is_full_mode: bool) -> (r: bool)
    ensures
        is_full_mode ==> r == (mark_count(*arr, true) == 5 && mark_count(*arr, false) == 4),
        !is_full_mode ==> r == (1 <= mark_count(*arr, true) <= 5 && 1 <= mark_count(*arr, false)
            <= 4),
{
    let (x_count, o_count) = count_marks(arr);
    if is_full_mode {
        x_count == 5 && o_count == 4
    } else {
        !(x_count == 0 || x_count > 5 || o_count == 0 || o_count > 4)
    }
}

/// Whether `arr` is a full board on which cross holds exactly one mark more
/// than nought, as a completed game of alternating play would leave it.
pub fn is_not_empty(arr: &GameBoard) -> (r: bool)
    ensures
        r == (board_full(*arr) && mark_count(*arr, true) == mark_count(*arr, false) + 1),
{
    if !board_is_full(arr) {
        return false;
    }
    let (x_count, o_count) = count_marks(arr);
    x_count == o_count + 1
}

/// Confirm that the mark counts of `b` are consistent with legal
/// alternating play for the reported `outcome`; an inconsistent board is
/// surfaced as a hard error, never silently accepted.
pub fn validate_mark_counts(b: &GameBoard, outcome: GameResult) -> (r: Result<(), ContractError>)
    ensures
        mark_counts_ok(*b, outcome) ==> r == Ok::<(), ContractError>(()),
        !mark_counts_ok(*b, outcome) ==> r == Err::<(), ContractError>(ContractError::InvalidBoard),
{
    match outcome {
        GameResult::Cross | GameResult::Nought => {
            if is_valid_board(b, false) {
                Ok(())
            } else {
                Err(ContractError::InvalidBoard)
            }
        },
        GameResult::Draw => {
            if is_valid_board(b, true) {
                Ok(())
            } else {
                Err(ContractError::InvalidBoard)
            }
        },
        GameResult::NoResult => Ok(()),
    }
}

/// Classify a board and confirm its mark counts: the outcome when the
/// counts are consistent, `InvalidBoard` when they are not.
pub fn find_winner_by_board(game: GameBoard) -> (r: Result<GameResult, ContractError>)
    ensures
        mark_counts_ok(game, classify_spec(game)) ==> r == Ok::<GameResult, ContractError>(
            classify_spec(game),
        ),
        !mark_counts_ok(game, classify_spec(game)) ==> r == Err::<GameResult, ContractError>(
            ContractError::InvalidBoard,
        ),
{
    let outcome = classify(&game);
    match validate_mark_counts(&game, outcome) {
        Ok(()) => Ok(outcome),
        Err(e) => Err(e),
    }
}

} // verus!

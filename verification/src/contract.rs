use vstd::prelude::*;

use crate::board::{
    board_empty, board_sets, cell, classify_spec, find_winner_by_board, mark_counts_ok,
};
use crate::error::ContractError;
use crate::msg::{
    Env, ExecuteMsg, GameResult, InstantiateMsg, MessageInfo, QueryMsg, QueryResponse, Response,
    Transfer,
};
use crate::state::{Coin, Game, GameState};
use crate::store::{seq_get, seq_has, GameStore};

verus! {

/// `funds` contain a coin equal to `c` in both amount and denomination.
pub open spec fn spec_has_coin(funds: Seq<Coin>, c: Coin) -> bool {
    exists|i: int|
        0 <= i < funds.len() && (#[trigger] funds[i]).amount == c.amount && funds[i].denom@
            == c.denom@
}

/// `s1` is `s0` with the record under `id` overwritten: the same ids in the
/// same order, every other record untouched.
pub open spec fn store_replaced(s0: Seq<(u128, Game)>, s1: Seq<(u128, Game)>, id: u128) -> bool {
    &&& s1.len() == s0.len()
    &&& forall|x: u128| seq_has(s1, x) <==> seq_has(s0, x)
    &&& forall|x: u128| x != id && seq_has(s0, x) ==> seq_get(s1, x) == seq_get(s0, x)
}

/// `s1` is `s0` with one new record filed under `id`; every old record is
/// untouched.
pub open spec fn store_inserted(s0: Seq<(u128, Game)>, s1: Seq<(u128, Game)>, id: u128) -> bool {
    &&& s1.len() == s0.len() + 1
    &&& forall|x: u128| seq_has(s1, x) <==> (seq_has(s0, x) || x == id)
    &&& forall|x: u128| x != id && seq_has(s0, x) ==> seq_get(s1, x) == seq_get(s0, x)
}

/// A freshly created game: empty board, cross to move, `sender` as the
/// creator, no opponent, `bet` escrowed, pending.
pub open spec fn created_game(g: Game, sender: String, bet: Coin) -> bool {
    &&& board_empty(g.game)
    &&& g.next_move
    &&& g.cross == sender
    &&& g.nought is None
    &&& g.bet == bet
    &&& g.state == GameState::Pending
}

/// The guards of CreateGame: the caller must attach funds equal to the
/// stake, and the id derived from the chain height must be fresh.
pub open spec fn create_guard(
    s: Seq<(u128, Game)>,
    height: u64,
    info: MessageInfo,
    bet: Coin,
) -> Result<(), ContractError> {
    if !spec_has_coin(info.funds@, bet) {
        Err(ContractError::FundsMismatch)
    } else if seq_has(s, height as u128) {
        Err(ContractError::GameAlreadyExists)
    } else {
        Ok(())
    }
}

/// The guards of JoinGame: the game must exist and be pending, the caller
/// must not be the creator, and the attached funds must match the stake.
pub open spec fn join_guard(s: Seq<(u128, Game)>, info: MessageInfo, game_id: u128) -> Result<
    (),
    ContractError,
> {
    if !seq_has(s, game_id) {
        Err(ContractError::NotFound)
    } else {
        let g = seq_get(s, game_id);
        if g.state != GameState::Pending {
            Err(ContractError::GameNotPlayable)
        } else if info.sender@ == g.cross@ {
            Err(ContractError::Unauthorized)
        } else if !spec_has_coin(info.funds@, g.bet) {
            Err(ContractError::FundsMismatch)
        } else {
            Ok(())
        }
    }
}

/// The caller allowed to move for `side`: the creator for cross, the
/// opponent for nought.
pub open spec fn side_player_ok(g: Game, sender: String, side: bool) -> bool {
    if side {
        sender@ == g.cross@
    } else {
        g.nought matches Some(n) && sender@ == n@
    }
}

/// The guards of UpdateGame, checked in order: no funds attached, the game
/// exists and is underway, it is `side`'s turn, the caller plays `side`,
/// and the target cell is in range and empty.
pub open spec fn update_move_guard(
    s: Seq<(u128, Game)>,
    info: MessageInfo,
    game_id: u128,
    i: u16,
    j: u16,
    side: bool,
) -> Result<(), ContractError> {
    if info.funds@.len() != 0 {
        Err(ContractError::FundsMismatch)
    } else if !seq_has(s, game_id) {
        Err(ContractError::NotFound)
    } else {
        let g = seq_get(s, game_id);
        if g.state != GameState::Started {
            Err(ContractError::GameNotPlayable)
        } else if side != g.next_move {
            Err(ContractError::WrongTurn)
        } else if !side_player_ok(g, info.sender, side) {
            Err(ContractError::Unauthorized)
        } else if !(i < 3 && j < 3 && cell(g.game, i as int, j as int) is None) {
            Err(ContractError::IllegalMove)
        } else {
            Ok(())
        }
    }
}

/// `g2` is `g` after an accepted move: `side`'s mark placed at (`i`, `j`),
/// the turn handed over, everything else untouched.
pub open spec fn game_moved(g: Game, g2: Game, i: u16, j: u16, side: bool) -> bool {
    &&& board_sets(g.game, g2.game, i as int, j as int, side)
    &&& g2.next_move == !side
    &&& g2.cross == g.cross
    &&& g2.nought == g.nought
    &&& g2.bet == g.bet
    &&& g2.state == g.state
}

/// The guards of CancelGame: no funds attached, the game exists, it is
/// still pending, and the caller is its creator.
pub open spec fn cancel_guard(s: Seq<(u128, Game)>, info: MessageInfo, game_id: u128) -> Result<
    (),
    ContractError,
> {
    if info.funds@.len() != 0 {
        Err(ContractError::FundsMismatch)
    } else if !seq_has(s, game_id) {
        Err(ContractError::NotFound)
    } else {
        let g = seq_get(s, game_id);
        if g.state != GameState::Pending {
            Err(ContractError::GameNotPlayable)
        } else if info.sender@ != g.cross@ {
            Err(ContractError::Unauthorized)
        } else {
            Ok(())
        }
    }
}

/// The guards of WithdrawBet: no funds attached, the game exists and is
/// underway, its board passes the mark-count check, and the outcome is
/// determinate.  On success the outcome is returned.  Settlement is
/// permissionless: the caller is never inspected.
pub open spec fn withdraw_guard(s: Seq<(u128, Game)>, info: MessageInfo, game_id: u128) -> Result<
    GameResult,
    ContractError,
> {
    if info.funds@.len() != 0 {
        Err(ContractError::FundsMismatch)
    } else if !seq_has(s, game_id) {
        Err(ContractError::NotFound)
    } else {
        let g = seq_get(s, game_id);
        if g.state != GameState::Started {
            Err(ContractError::GameNotPlayable)
        } else {
            let out = classify_spec(g.game);
            if !mark_counts_ok(g.game, out) {
                Err(ContractError::InvalidBoard)
            } else if out == GameResult::NoResult {
                Err(ContractError::GameNotSettleable)
            } else {
                Ok(out)
            }
        }
    }
}

/// `t` pays exactly `amount` of `denom` to `to`.
pub open spec fn pays(t: Transfer, to: Seq<char>, amount: int, denom: Seq<char>) -> bool {
    t.to_address@ == to && t.amount.amount == amount && t.amount.denom@ == denom
}

/// The transfer instructions settlement owes for outcome `out` of game `g`:
/// the whole pool of twice the stake to the winner, or the stake back to
/// each player on a draw.
pub open spec fn settle_messages_ok(msgs: Seq<Transfer>, g: Game, out: GameResult) -> bool {
    match out {
        GameResult::Cross => msgs.len() == 1 && pays(
            msgs[0],
            g.cross@,
            2 * g.bet.amount,
            g.bet.denom@,
        ),
        GameResult::Nought => g.nought matches Some(n) && msgs.len() == 1 && pays(
            msgs[0],
            n@,
            2 * g.bet.amount,
            g.bet.denom@,
        ),
        GameResult::Draw => g.nought matches Some(n) && msgs.len() == 2 && pays(
            msgs[0],
            n@,
            g.bet.amount as int,
            g.bet.denom@,
        ) && pays(msgs[1], g.cross@, g.bet.amount as int, g.bet.denom@),
        GameResult::NoResult => false,
    }
}

/// Instantiation has no state of its own to set up.
pub fn instantiate(_msg: InstantiateMsg) -> (r: Result<Response, ContractError>)
    ensures
        r matches Ok(resp) && resp.messages@.len() == 0,
{
    Ok(Response { messages: Vec::new() })
}

/// Reject any command that arrives with funds attached.
pub fn nonpayable(info: &MessageInfo) -> (r: Result<(), ContractError>)
    ensures
        info.funds@.len() == 0 ==> r == Ok::<(), ContractError>(()),
        info.funds@.len() != 0 ==> r == Err::<(), ContractError>(ContractError::FundsMismatch),
{
    if self_funds_empty(info) {
        Ok(())
    } else {
        Err(ContractError::FundsMismatch)
    }
}

/// Whether the call attached no funds.
fn self_funds_empty(info: &MessageInfo) -> (r: bool)
    ensures
        r == (info.funds@.len() == 0),
{
    info.funds.is_empty()
}

/// Whether `funds` contain a coin equal to `c`.
fn has_matching_coin(funds: &Vec<Coin>, c: &Coin) -> (r: bool)
    ensures
        r == spec_has_coin(funds@, *c),
{
    let n = funds.len();
    let mut k: usize = 0;
    while k < n
        invariant
            n == funds@.len(),
            k <= n,
            forall|m: int|
                0 <= m < k ==> !((#[trigger] funds@[m]).amount == c.amount && funds@[m].denom@
                    == c.denom@),
        decreases n - k,
    {
        if funds[k] == *c {
            return true;
        }
        k = k + 1;
    }
    false
}

/// Create a new pending game under the id the chain height provides,
/// escrowing the creator's stake.  An existing id is rejected, never
/// overwritten.
pub fn try_create_game(
    store: &mut GameStore,
    env: &Env,
    info: &MessageInfo,
    bet: Coin,
) -> (r: Result<Response, ContractError>)
    requires
        old(store).wf(),
    ensures
        final(store).wf(),
        match create_guard(old(store)@, env.height, *info, bet) {
            Err(e) => r == Err::<Response, ContractError>(e) && final(store)@ == old(store)@,
            Ok(()) => {
                &&& r matches Ok(resp) && resp.messages@.len() == 0
                &&& store_inserted(old(store)@, final(store)@, env.height as u128)
                &&& created_game(seq_get(final(store)@, env.height as u128), info.sender, bet)
            },
        },
{
    if !has_matching_coin(&info.funds, &bet) {
        return Err(ContractError::FundsMismatch);
    }
    let id: u128 = env.height as u128;
    if store.has(id) {
        return Err(ContractError::GameAlreadyExists);
    }
    let game = Game::new(&info.sender, &bet);
    store.insert_new(id, game);
    Ok(Response { messages: Vec::new() })
}

/// Join a pending game as the nought player, escrowing the same stake the
/// creator did; the game becomes active and cross is to move.
pub fn try_join_game(store: &mut GameStore, info: &MessageInfo, game_id: u128) -> (r: Result<
    Response,
    ContractError,
>)
    requires
        old(store).wf(),
    ensures
        final(store).wf(),
        match join_guard(old(store)@, *info, game_id) {
            Err(e) => r == Err::<Response, ContractError>(e) && final(store)@ == old(store)@,
            Ok(()) => {
                &&& r matches Ok(resp) && resp.messages@.len() == 0
                &&& store_replaced(old(store)@, final(store)@, game_id)
                &&& seq_get(final(store)@, game_id) == (Game {
                    nought: Some(info.sender),
                    state: GameState::Started,
                    ..seq_get(old(store)@, game_id)
                })
            },
        },
{
    let g = match store.get(game_id) {
        Some(g) => g,
        None => {
            return Err(ContractError::NotFound);
        },
    };
    if !matches!(g.state, GameState::Pending) {
        return Err(ContractError::GameNotPlayable);
    }
    if info.sender == g.cross {
        return Err(ContractError::Unauthorized);
    }
    if !has_matching_coin(&info.funds, &g.bet) {
        return Err(ContractError::FundsMismatch);
    }
    let mut g2 = g.dup();
    g2.update_opponent(&info.sender);
    g2.start_game();
    proof {
        assert(g2.wf());
    }
    store.replace(game_id, g2);
    Ok(Response { messages: Vec::new() })
}

/// Cancel a pending game: only its creator may, and only before an
/// opponent joins; the escrowed stake is refunded to the creator and the
/// game becomes terminal.
pub fn try_cancel_game(store: &mut GameStore, info: &MessageInfo, game_id: u128) -> (r: Result<
    Response,
    ContractError,
>)
    requires
        old(store).wf(),
    ensures
        final(store).wf(),
        match cancel_guard(old(store)@, *info, game_id) {
            Err(e) => r == Err::<Response, ContractError>(e) && final(store)@ == old(store)@,
            Ok(()) => {
                &&& store_replaced(old(store)@, final(store)@, game_id)
                &&& seq_get(final(store)@, game_id) == (Game {
                    state: GameState::Completed,
                    ..seq_get(old(store)@, game_id)
                })
                &&& r matches Ok(resp) && resp.messages@.len() == 1 && pays(
                    resp.messages@[0],
                    seq_get(old(store)@, game_id).cross@,
                    seq_get(old(store)@, game_id).bet.amount as int,
                    seq_get(old(store)@, game_id).bet.denom@,
                )
            },
        },
{
    nonpayable(info)?;
    let g = match store.get(game_id) {
        Some(g) => g,
        None => {
            return Err(ContractError::NotFound);
        },
    };
    if !matches!(g.state, GameState::Pending) {
        return Err(ContractError::GameNotPlayable);
    }
    if info.sender != g.cross {
        return Err(ContractError::Unauthorized);
    }
    let refund = Transfer { to_address: g.cross.clone(), amount: g.bet.dup() };
    let mut g2 = g.dup();
    g2.complete_game();
    store.replace(game_id, g2);
    let mut messages: Vec<Transfer> = Vec::new();
    messages.push(refund);
    Ok(Response { messages })
}

/// Play one move: place `side`'s mark at (`i`, `j`).  The game must be
/// underway, it must be `side`'s turn, and the caller must be the player
/// assigned to `side`; the board cell must be free.  An accepted move
/// flips the turn; a rejected one changes nothing.
pub fn try_update_game(
    store: &mut GameStore,
    info: &MessageInfo,
    game_id: u128,
    i: u16,
    j: u16,
    side: bool,
) -> (r: Result<Response, ContractError>)
    requires
        old(store).wf(),
    ensures
        final(store).wf(),
        match update_move_guard(old(store)@, *info, game_id, i, j, side) {
            Err(e) => r == Err::<Response, ContractError>(e) && final(store)@ == old(store)@,
            Ok(()) => {
                &&& r matches Ok(resp) && resp.messages@.len() == 0
                &&& store_replaced(old(store)@, final(store)@, game_id)
                &&& game_moved(seq_get(old(store)@, game_id), seq_get(final(store)@, game_id), i, j, side)
            },
        },
{
    nonpayable(info)?;
    let g = match store.get(game_id) {
        Some(g) => g,
        None => {
            return Err(ContractError::NotFound);
        },
    };
    if !matches!(g.state, GameState::Started) {
        return Err(ContractError::GameNotPlayable);
    }
    if g.next_move != side {
        return Err(ContractError::WrongTurn);
    }
    if side {
        if info.sender != g.cross {
            return Err(ContractError::Unauthorized);
        }
    } else {
        match &g.nought {
            Some(n) => {
                if info.sender != *n {
                    return Err(ContractError::Unauthorized);
                }
            },
            None => {
                return Err(ContractError::Unauthorized);
            },
        }
    }
    let mut g2 = g.dup();
    let success = g2.update_game(i, j, side);
    if !success {
        return Err(ContractError::IllegalMove);
    }
    g2.update_side();
    proof {
        crate::laws::lemma_move_preserves_balance(
            seq_get(old(store)@, game_id).game,
            g2.game,
            i as int,
            j as int,
            side,
        );
        assert(g2.wf());
    }
    store.replace(game_id, g2);
    Ok(Response { messages: Vec::new() })
}

/// Settle an active game whose board is determinate.  Any caller may
/// trigger settlement; the payout destination is fixed by the outcome: the
/// whole pool of twice the stake to the winner, or each player's stake
/// back on a draw.  The game becomes terminal, so the pool can never be
/// paid out twice.  A well-formed store never yields `InvalidBoard` here.
pub fn try_withdraw_bets(store: &mut GameStore, info: &MessageInfo, game_id: u128) -> (r: Result<
    Response,
    ContractError,
>)
    requires
        old(store).wf(),
        seq_has(old(store)@, game_id) ==> seq_get(old(store)@, game_id).bet.amount * 2
            <= u128::MAX,
    ensures
        final(store).wf(),
        match withdraw_guard(old(store)@, *info, game_id) {
            Err(e) => r == Err::<Response, ContractError>(e) && final(store)@ == old(store)@,
            Ok(out) => {
                &&& store_replaced(old(store)@, final(store)@, game_id)
                &&& seq_get(final(store)@, game_id) == (Game {
                    state: GameState::Completed,
                    ..seq_get(old(store)@, game_id)
                })
                &&& r matches Ok(resp) && settle_messages_ok(
                    resp.messages@,
                    seq_get(old(store)@, game_id),
                    out,
                )
            },
        },
        r != Err::<Response, ContractError>(ContractError::InvalidBoard),
{
    proof {
        if seq_has(old(store)@, game_id) {
            let g = seq_get(old(store)@, game_id);
            crate::laws::lemma_balanced_board_passes_mark_check(g.game, g.next_move);
        }
    }
    nonpayable(info)?;
    let g = match store.get(game_id) {
        Some(g) => g,
        None => {
            return Err(ContractError::NotFound);
        },
    };
    if !matches!(g.state, GameState::Started) {
        return Err(ContractError::GameNotPlayable);
    }
    let validated_game = find_winner_by_board(g.game)?;
    let game_bet: u128 = g.bet.amount * 2;
    let mut messages: Vec<Transfer> = Vec::new();
    match validated_game {
        GameResult::Cross => {
            messages.push(
                Transfer {
                    to_address: g.cross.clone(),
                    amount: Coin { amount: game_bet, denom: g.bet.denom.clone() },
                },
            );
        },
        GameResult::Nought => {
            match &g.nought {
                Some(n) => {
                    messages.push(
                        Transfer {
                            to_address: n.clone(),
                            amount: Coin { amount: game_bet, denom: g.bet.denom.clone() },
                        },
                    );
                },
                None => {
                    proof {
                        assert(false);
                    }
                },
            }
        },
        GameResult::Draw => {
            match &g.nought {
                Some(n) => {
                    messages.push(Transfer { to_address: n.clone(), amount: g.bet.dup() });
                    messages.push(Transfer { to_address: g.cross.clone(), amount: g.bet.dup() });
                },
                None => {
                    proof {
                        assert(false);
                    }
                },
            }
        },
        GameResult::NoResult => {
            return Err(ContractError::GameNotSettleable);
        },
    }
    let mut g2 = g.dup();
    g2.complete_game();
    store.replace(game_id, g2);
    Ok(Response { messages })
}

/// The ids of the pending games of `s`, in storage order.
pub open spec fn pending_ids(s: Seq<(u128, Game)>) -> Seq<u128>
    decreases s.len(),
{
    if s.len() == 0 {
        Seq::empty()
    } else {
        pending_ids(s.drop_last()) + if s.last().1.state == GameState::Pending {
            seq![s.last().0]
        } else {
            Seq::empty()
        }
    }
}

/// Whether `k` lies strictly beyond the pagination cursor.
pub open spec fn after_cursor(k: u128, start_after: Option<u128>) -> bool {
    match start_after {
        None => true,
        Some(c) => k > c,
    }
}

/// The ids of `s`, in storage order, strictly beyond the cursor.
pub open spec fn keys_after(s: Seq<(u128, Game)>, start_after: Option<u128>) -> Seq<u128>
    decreases s.len(),
{
    if s.len() == 0 {
        Seq::empty()
    } else {
        keys_after(s.drop_last(), start_after) + if after_cursor(s.last().0, start_after) {
            seq![s.last().0]
        } else {
            Seq::empty()
        }
    }
}

/// The page size a listing uses: 10 when none is asked for, and never more
/// than 30.
pub open spec fn clamped_limit(limit: Option<u32>) -> int {
    match limit {
        None => 10,
        Some(l) => if l > 30 {
            30
        } else {
            l as int
        },
    }
}

/// The first `n` elements of `s`, or all of them if `s` is shorter.
pub open spec fn take_up_to(s: Seq<u128>, n: int) -> Seq<u128> {
    if n <= s.len() {
        s.take(n)
    } else {
        s
    }
}

/// Look up a game record.
pub fn query_game(store: &GameStore, game_id: u128) -> (r: Result<Game, ContractError>)
    requires
        store.wf(),
    ensures
        seq_has(store@, game_id) ==> r == Ok::<Game, ContractError>(seq_get(store@, game_id)),
        !seq_has(store@, game_id) ==> r == Err::<Game, ContractError>(ContractError::NotFound),
{
    match store.get(game_id) {
        Some(g) => Ok(g.dup()),
        None => Err(ContractError::NotFound),
    }
}

/// Classify a game's board, confirming its mark counts.
pub fn get_winner(store: &GameStore, game_id: u128) -> (r: Result<GameResult, ContractError>)
    requires
        store.wf(),
    ensures
        !seq_has(store@, game_id) ==> r == Err::<GameResult, ContractError>(
            ContractError::NotFound,
        ),
        seq_has(store@, game_id) ==> {
            let b = seq_get(store@, game_id).game;
            if mark_counts_ok(b, classify_spec(b)) {
                r == Ok::<GameResult, ContractError>(classify_spec(b))
            } else {
                r == Err::<GameResult, ContractError>(ContractError::InvalidBoard)
            }
        },
{
    match store.get(game_id) {
        Some(g) => find_winner_by_board(g.game),
        None => Err(ContractError::NotFound),
    }
}

/// List the ids of all pending games, ascending: the games an opponent
/// could still join.  Produced by a full scan, acceptable for a
/// bounded-size catalog.
pub fn query_pending_games(store: &GameStore) -> (r: Result<Vec<u128>, ContractError>)
    ensures
        r matches Ok(ids) && ids@ == pending_ids(store@),
{
    let n = store.len();
    let mut ids: Vec<u128> = Vec::new();
    let mut k: usize = 0;
    while k < n
        invariant
            n == store@.len(),
            k <= n,
            ids@ == pending_ids(store@.take(k as int)),
        decreases n - k,
    {
        let ghost prefix = store@.take(k as int);
        let id = store.id_at(k);
        if matches!(store.game_at(k).state, GameState::Pending) {
            ids.push(id);
        }
        proof {
            assert(store@.take(k + 1).drop_last() =~= prefix);
            assert(store@.take(k + 1).last() == store@[k as int]);
        }
        k = k + 1;
    }
    proof {
        assert(store@.take(n as int) =~= store@);
    }
    Ok(ids)
}

/// List game ids ascending, resumable: ids strictly beyond `start_after`,
/// at most `limit` of them (default 10, hard maximum 30).
pub fn query_all_games(
    store: &GameStore,
    start_after: Option<u128>,
    limit: Option<u32>,
) -> (r: Result<Vec<u128>, ContractError>)
    ensures
        r matches Ok(ids) && ids@ == take_up_to(
            keys_after(store@, start_after),
            clamped_limit(limit),
        ),
{
    let lim: usize = match limit {
        None => 10,
        Some(l) => if l > 30 {
            30
        } else {
            l as usize
        },
    };
    let n = store.len();
    let mut ids: Vec<u128> = Vec::new();
    let mut k: usize = 0;
    while k < n
        invariant
            n == store@.len(),
            k <= n,
            ids@ == keys_after(store@.take(k as int), start_after),
        decreases n - k,
    {
        let ghost prefix = store@.take(k as int);
        let id = store.id_at(k);
        let beyond = match start_after {
            None => true,
            Some(c) => id > c,
        };
        if beyond {
            ids.push(id);
        }
        proof {
            assert(store@.take(k + 1).drop_last() =~= prefix);
            assert(store@.take(k + 1).last() == store@[k as int]);
        }
        k = k + 1;
    }
    proof {
        assert(store@.take(n as int) =~= store@);
    }
    if ids.len() > lim {
        ids.truncate(lim);
    }
    Ok(ids)
}

/// Route a command to its handler.  The contract of each arm restates the
/// handler's: the command's guards decide between the exact error and the
/// exact effect, and a failing guard leaves the store untouched.
pub fn execute(store: &mut GameStore, env: Env, info: MessageInfo, msg: ExecuteMsg) -> (r: Result<
    Response,
    ContractError,
>)
    requires
        old(store).wf(),
        msg matches ExecuteMsg::WithdrawBet { game_id } ==> (seq_has(old(store)@, game_id)
            ==> seq_get(old(store)@, game_id).bet.amount * 2 <= u128::MAX),
    ensures
        final(store).wf(),
        match msg {
            ExecuteMsg::CreateGame { bet } => match create_guard(old(store)@, env.height, info, bet) {
                Err(e) => r == Err::<Response, ContractError>(e) && final(store)@ == old(store)@,
                Ok(()) => {
                    &&& r matches Ok(resp) && resp.messages@.len() == 0
                    &&& store_inserted(old(store)@, final(store)@, env.height as u128)
                    &&& created_game(seq_get(final(store)@, env.height as u128), info.sender, bet)
                },
            },
            ExecuteMsg::JoinGame { game_id } => match join_guard(old(store)@, info, game_id) {
                Err(e) => r == Err::<Response, ContractError>(e) && final(store)@ == old(store)@,
                Ok(()) => {
                    &&& r matches Ok(resp) && resp.messages@.len() == 0
                    &&& store_replaced(old(store)@, final(store)@, game_id)
                    &&& seq_get(final(store)@, game_id) == (Game {
                        nought: Some(info.sender),
                        state: GameState::Started,
                        ..seq_get(old(store)@, game_id)
                    })
                },
            },
            ExecuteMsg::WithdrawBet { game_id } => match withdraw_guard(old(store)@, info, game_id) {
                Err(e) => r == Err::<Response, ContractError>(e) && final(store)@ == old(store)@,
                Ok(out) => {
                    &&& store_replaced(old(store)@, final(store)@, game_id)
                    &&& seq_get(final(store)@, game_id) == (Game {
                        state: GameState::Completed,
                        ..seq_get(old(store)@, game_id)
                    })
                    &&& r matches Ok(resp) && settle_messages_ok(
                        resp.messages@,
                        seq_get(old(store)@, game_id),
                        out,
                    )
                },
            },
            ExecuteMsg::UpdateGame { game_id, side, i, j } => match update_move_guard(
                old(store)@,
                info,
                game_id,
                i,
                j,
                side,
            ) {
                Err(e) => r == Err::<Response, ContractError>(e) && final(store)@ == old(store)@,
                Ok(()) => {
                    &&& r matches Ok(resp) && resp.messages@.len() == 0
                    &&& store_replaced(old(store)@, final(store)@, game_id)
                    &&& game_moved(
                        seq_get(old(store)@, game_id),
                        seq_get(final(store)@, game_id),
                        i,
                        j,
                        side,
                    )
                },
            },
            ExecuteMsg::CancelGame { game_id } => match cancel_guard(old(store)@, info, game_id) {
                Err(e) => r == Err::<Response, ContractError>(e) && final(store)@ == old(store)@,
                Ok(()) => {
                    &&& store_replaced(old(store)@, final(store)@, game_id)
                    &&& seq_get(final(store)@, game_id) == (Game {
                        state: GameState::Completed,
                        ..seq_get(old(store)@, game_id)
                    })
                    &&& r matches Ok(resp) && resp.messages@.len() == 1 && pays(
                        resp.messages@[0],
                        seq_get(old(store)@, game_id).cross@,
                        seq_get(old(store)@, game_id).bet.amount as int,
                        seq_get(old(store)@, game_id).bet.denom@,
                    )
                },
            },
        },
{
    match msg {
        ExecuteMsg::CreateGame { bet } => try_create_game(store, &env, &info, bet),
        ExecuteMsg::JoinGame { game_id } => try_join_game(store, &info, game_id),
        ExecuteMsg::WithdrawBet { game_id } => try_withdraw_bets(store, &info, game_id),
        ExecuteMsg::UpdateGame { game_id, side, i, j } => try_update_game(
            store,
            &info,
            game_id,
            i,
            j,
            side,
        ),
        ExecuteMsg::CancelGame { game_id } => try_cancel_game(store, &info, game_id),
    }
}

/// Route a query to its reader.  Queries never mutate the catalog.
pub fn query(store: &GameStore, msg: QueryMsg) -> (r: Result<QueryResponse, ContractError>)
    requires
        store.wf(),
    ensures
        match msg {
            QueryMsg::GetWinner { game_id } => {
                if !seq_has(store@, game_id) {
                    r == Err::<QueryResponse, ContractError>(ContractError::NotFound)
                } else {
                    let b = seq_get(store@, game_id).game;
                    if mark_counts_ok(b, classify_spec(b)) {
                        r == Ok::<QueryResponse, ContractError>(
                            QueryResponse::Winner(classify_spec(b)),
                        )
                    } else {
                        r == Err::<QueryResponse, ContractError>(ContractError::InvalidBoard)
                    }
                }
            },
            QueryMsg::QueryGame { game_id } => {
                if seq_has(store@, game_id) {
                    r == Ok::<QueryResponse, ContractError>(
                        QueryResponse::Game(seq_get(store@, game_id)),
                    )
                } else {
                    r == Err::<QueryResponse, ContractError>(ContractError::NotFound)
                }
            },
            QueryMsg::PendingGames {} => r matches Ok(QueryResponse::PendingGames(ids)) && ids@
                == pending_ids(store@),
            QueryMsg::AllGames { start_after, limit } => r matches Ok(QueryResponse::AllGames(ids))
                && ids@ == take_up_to(keys_after(store@, start_after), clamped_limit(limit)),
        },
{
    match msg {
        QueryMsg::GetWinner { game_id } => match get_winner(store, game_id) {
            Ok(w) => Ok(QueryResponse::Winner(w)),
            Err(e) => Err(e),
        },
        QueryMsg::QueryGame { game_id } => match query_game(store, game_id) {
            Ok(g) => Ok(QueryResponse::Game(g)),
            Err(e) => Err(e),
        },
        QueryMsg::PendingGames {} => match query_pending_games(store) {
            Ok(ids) => Ok(QueryResponse::PendingGames(ids)),
            Err(e) => Err(e),
        },
        QueryMsg::AllGames { start_after, limit } => match query_all_games(
            store,
            start_after,
            limit,
        ) {
            Ok(ids) => Ok(QueryResponse::AllGames(ids)),
            Err(e) => Err(e),
        },
    }
}

} // verus!

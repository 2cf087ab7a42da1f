use tic_tac_toe::contract::{
    execute, get_winner, query, query_game, try_cancel_game, try_create_game, try_join_game,
    try_update_game, try_withdraw_bets,
};
use tic_tac_toe::error::ContractError;
use tic_tac_toe::msg::{Env, ExecuteMsg, GameResult, MessageInfo, QueryMsg, QueryResponse};
use tic_tac_toe::state::{Coin, Game, GameState};
use tic_tac_toe::store::GameStore;

fn mk_coin(amount: u128, denom: &str) -> Coin {
    Coin { amount, denom: denom.to_string() }
}

fn mk_info(sender: &str, funds: Vec<Coin>) -> MessageInfo {
    MessageInfo { sender: sender.to_string(), funds }
}

fn play(store: &mut GameStore, id: u128, moves: &[(&str, bool, u16, u16)]) {
    for (sender, side, i, j) in moves {
        try_update_game(store, &mk_info(sender, vec![]), id, *i, *j, *side).unwrap();
    }
}

/// A game won by cross along the top row, settled by a stranger: the whole
/// pool of twice the stake goes to the creator in a single transfer.
#[test]
fn cross_win_pays_whole_pool_to_creator() {
    let mut store = GameStore::new();
    try_create_game(
        &mut store,
        &Env { height: 7 },
        &mk_info("alice", vec![mk_coin(2, "X")]),
        mk_coin(2, "X"),
    )
    .unwrap();
    try_join_game(&mut store, &mk_info("bob", vec![mk_coin(2, "X")]), 7).unwrap();
    play(
        &mut store,
        7,
        &[
            ("alice", true, 0, 0),
            ("bob", false, 1, 0),
            ("alice", true, 0, 1),
            ("bob", false, 1, 1),
            ("alice", true, 0, 2),
        ],
    );
    assert_eq!(get_winner(&store, 7), Ok(GameResult::Cross));
    let res = try_withdraw_bets(&mut store, &mk_info("anyone", vec![]), 7).unwrap();
    assert_eq!(res.messages.len(), 1);
    assert_eq!(res.messages[0].to_address, "alice");
    assert_eq!(res.messages[0].amount.amount, 4);
    assert_eq!(res.messages[0].amount.denom, "X");
    assert_eq!(query_game(&store, 7).unwrap().state, GameState::Completed);
}

/// A game won by nought pays the whole pool to the opponent.
#[test]
fn nought_win_pays_whole_pool_to_opponent() {
    let mut store = GameStore::new();
    try_create_game(
        &mut store,
        &Env { height: 8 },
        &mk_info("alice", vec![mk_coin(3, "X")]),
        mk_coin(3, "X"),
    )
    .unwrap();
    try_join_game(&mut store, &mk_info("bob", vec![mk_coin(3, "X")]), 8).unwrap();
    play(
        &mut store,
        8,
        &[
            ("alice", true, 0, 0),
            ("bob", false, 1, 0),
            ("alice", true, 0, 1),
            ("bob", false, 1, 1),
            ("alice", true, 2, 2),
            ("bob", false, 1, 2),
        ],
    );
    let res = try_withdraw_bets(&mut store, &mk_info("carol", vec![]), 8).unwrap();
    assert_eq!(res.messages.len(), 1);
    assert_eq!(res.messages[0].to_address, "bob");
    assert_eq!(res.messages[0].amount.amount, 6);
}

/// The pool transfers exactly once: a second settlement is rejected with
/// `GameNotPlayable` and produces no further transfers.
#[test]
fn pool_transfers_exactly_once() {
    let mut store = GameStore::new();
    try_create_game(
        &mut store,
        &Env { height: 7 },
        &mk_info("alice", vec![mk_coin(2, "X")]),
        mk_coin(2, "X"),
    )
    .unwrap();
    try_join_game(&mut store, &mk_info("bob", vec![mk_coin(2, "X")]), 7).unwrap();
    play(
        &mut store,
        7,
        &[
            ("alice", true, 0, 0),
            ("bob", false, 1, 0),
            ("alice", true, 0, 1),
            ("bob", false, 1, 1),
            ("alice", true, 0, 2),
        ],
    );
    let res = try_withdraw_bets(&mut store, &mk_info("anyone", vec![]), 7).unwrap();
    assert_eq!(res.messages.len(), 1);
    let err = try_withdraw_bets(&mut store, &mk_info("anyone", vec![]), 7).unwrap_err();
    assert_eq!(err, ContractError::GameNotPlayable);
    let err = try_withdraw_bets(&mut store, &mk_info("alice", vec![]), 7).unwrap_err();
    assert_eq!(err, ContractError::GameNotPlayable);
}

/// Cancelling a pending game refunds the creator's stake and closes the
/// game; joining it afterwards fails.
#[test]
fn cancel_refunds_creator_and_blocks_join() {
    let mut store = GameStore::new();
    try_create_game(
        &mut store,
        &Env { height: 5 },
        &mk_info("alice", vec![mk_coin(2, "X")]),
        mk_coin(2, "X"),
    )
    .unwrap();
    let res = try_cancel_game(&mut store, &mk_info("alice", vec![]), 5).unwrap();
    assert_eq!(res.messages.len(), 1);
    assert_eq!(res.messages[0].to_address, "alice");
    assert_eq!(res.messages[0].amount.amount, 2);
    assert_eq!(res.messages[0].amount.denom, "X");
    assert_eq!(query_game(&store, 5).unwrap().state, GameState::Completed);
    let err = try_join_game(&mut store, &mk_info("bob", vec![mk_coin(2, "X")]), 5).unwrap_err();
    assert_eq!(err, ContractError::GameNotPlayable);
}

/// A drawn board settles by returning each player's stake: two transfers,
/// one to each side.
#[test]
fn draw_returns_each_stake() {
    let mut store = GameStore::new();
    try_create_game(
        &mut store,
        &Env { height: 9 },
        &mk_info("alice", vec![mk_coin(1, "X")]),
        mk_coin(1, "X"),
    )
    .unwrap();
    try_join_game(&mut store, &mk_info("bob", vec![mk_coin(1, "X")]), 9).unwrap();
    play(
        &mut store,
        9,
        &[
            ("alice", true, 0, 0),
            ("bob", false, 0, 1),
            ("alice", true, 0, 2),
            ("bob", false, 1, 1),
            ("alice", true, 1, 0),
            ("bob", false, 1, 2),
            ("alice", true, 2, 1),
            ("bob", false, 2, 0),
            ("alice", true, 2, 2),
        ],
    );
    assert_eq!(get_winner(&store, 9), Ok(GameResult::Draw));
    let res = try_withdraw_bets(&mut store, &mk_info("anyone", vec![]), 9).unwrap();
    assert_eq!(res.messages.len(), 2);
    assert_eq!(res.messages[0].to_address, "bob");
    assert_eq!(res.messages[0].amount.amount, 1);
    assert_eq!(res.messages[1].to_address, "alice");
    assert_eq!(res.messages[1].amount.amount, 1);
}

/// A move for cross while it is nought's turn is rejected as `WrongTurn`
/// and leaves the board untouched.
#[test]
fn wrong_turn_is_rejected_and_changes_nothing() {
    let mut store = GameStore::new();
    try_create_game(
        &mut store,
        &Env { height: 4 },
        &mk_info("alice", vec![mk_coin(2, "X")]),
        mk_coin(2, "X"),
    )
    .unwrap();
    try_join_game(&mut store, &mk_info("bob", vec![mk_coin(2, "X")]), 4).unwrap();
    try_update_game(&mut store, &mk_info("alice", vec![]), 4, 0, 0, true).unwrap();
    let before: Game = query_game(&store, 4).unwrap();
    let err = try_update_game(&mut store, &mk_info("bob", vec![]), 4, 1, 1, true).unwrap_err();
    assert_eq!(err, ContractError::WrongTurn);
    let after: Game = query_game(&store, 4).unwrap();
    assert_eq!(after.game, before.game);
    assert_eq!(after.next_move, before.next_move);
}

/// Joining a game that is already underway fails and changes neither the
/// opponent nor anything else.
#[test]
fn join_of_active_game_is_rejected() {
    let mut store = GameStore::new();
    try_create_game(
        &mut store,
        &Env { height: 4 },
        &mk_info("alice", vec![mk_coin(2, "X")]),
        mk_coin(2, "X"),
    )
    .unwrap();
    try_join_game(&mut store, &mk_info("bob", vec![mk_coin(2, "X")]), 4).unwrap();
    let err = try_join_game(&mut store, &mk_info("carol", vec![mk_coin(2, "X")]), 4).unwrap_err();
    assert_eq!(err, ContractError::GameNotPlayable);
    assert_eq!(query_game(&store, 4).unwrap().nought, Some("bob".to_string()));
}

/// The side values of accepted moves strictly alternate starting with
/// cross: the engine rejects any out-of-order side.
#[test]
fn accepted_sides_alternate_from_cross() {
    let mut store = GameStore::new();
    try_create_game(
        &mut store,
        &Env { height: 2 },
        &mk_info("alice", vec![mk_coin(2, "X")]),
        mk_coin(2, "X"),
    )
    .unwrap();
    try_join_game(&mut store, &mk_info("bob", vec![mk_coin(2, "X")]), 2).unwrap();
    // nought cannot open the game
    let err = try_update_game(&mut store, &mk_info("bob", vec![]), 2, 0, 0, false).unwrap_err();
    assert_eq!(err, ContractError::WrongTurn);
    let mut expected_side = true;
    let script: [(&str, u16, u16); 4] = [
        ("alice", 0, 0),
        ("bob", 1, 0),
        ("alice", 0, 1),
        ("bob", 1, 1),
    ];
    for (sender, i, j) in script {
        // the same side twice in a row is always rejected ...
        let repeat =
            try_update_game(&mut store, &mk_info(sender, vec![]), 2, i, j, !expected_side);
        assert_eq!(repeat.unwrap_err(), ContractError::WrongTurn);
        // ... and the alternating side is accepted
        try_update_game(&mut store, &mk_info(sender, vec![]), 2, i, j, expected_side).unwrap();
        expected_side = !expected_side;
    }
}

/// The query dispatcher answers each variant from the same store.
#[test]
fn query_dispatch_answers_all_variants() {
    let mut store = GameStore::new();
    try_create_game(
        &mut store,
        &Env { height: 3 },
        &mk_info("alice", vec![mk_coin(2, "X")]),
        mk_coin(2, "X"),
    )
    .unwrap();
    match query(&store, QueryMsg::QueryGame { game_id: 3 }).unwrap() {
        QueryResponse::Game(g) => {
            assert_eq!(g.cross, "alice");
            assert_eq!(g.bet.amount, 2);
            assert_eq!(g.state, GameState::Pending);
            assert_eq!(g.next_move, true);
            assert_eq!(g.nought, None);
        },
        _ => panic!("wrong answer variant"),
    }
    match query(&store, QueryMsg::GetWinner { game_id: 3 }).unwrap() {
        QueryResponse::Winner(w) => assert_eq!(w, GameResult::NoResult),
        _ => panic!("wrong answer variant"),
    }
    match query(&store, QueryMsg::PendingGames {}).unwrap() {
        QueryResponse::PendingGames(ids) => assert_eq!(ids, vec![3u128]),
        _ => panic!("wrong answer variant"),
    }
    match query(&store, QueryMsg::AllGames { start_after: None, limit: None }).unwrap() {
        QueryResponse::AllGames(ids) => assert_eq!(ids, vec![3u128]),
        _ => panic!("wrong answer variant"),
    }
    assert_eq!(
        query(&store, QueryMsg::QueryGame { game_id: 99 }).unwrap_err(),
        ContractError::NotFound
    );
}

/// Each guard produces its own error, and a failing guard never mutates
/// the store.
#[test]
fn every_guard_reports_its_own_error() {
    let mut store = GameStore::new();
    // funds mismatched on create: absent, wrong amount, wrong denomination
    let err = try_create_game(&mut store, &Env { height: 1 }, &mk_info("alice", vec![]), mk_coin(2, "X"))
        .unwrap_err();
    assert_eq!(err, ContractError::FundsMismatch);
    let err = try_create_game(
        &mut store,
        &Env { height: 1 },
        &mk_info("alice", vec![mk_coin(1, "X")]),
        mk_coin(2, "X"),
    )
    .unwrap_err();
    assert_eq!(err, ContractError::FundsMismatch);
    let err = try_create_game(
        &mut store,
        &Env { height: 1 },
        &mk_info("alice", vec![mk_coin(2, "Y")]),
        mk_coin(2, "X"),
    )
    .unwrap_err();
    assert_eq!(err, ContractError::FundsMismatch);
    assert_eq!(store.len(), 0);

    try_create_game(
        &mut store,
        &Env { height: 1 },
        &mk_info("alice", vec![mk_coin(2, "X")]),
        mk_coin(2, "X"),
    )
    .unwrap();
    // a fresh game referenced by a stale id
    assert_eq!(
        try_join_game(&mut store, &mk_info("bob", vec![mk_coin(2, "X")]), 99).unwrap_err(),
        ContractError::NotFound
    );
    assert_eq!(
        try_update_game(&mut store, &mk_info("alice", vec![]), 99, 0, 0, true).unwrap_err(),
        ContractError::NotFound
    );
    assert_eq!(
        try_cancel_game(&mut store, &mk_info("alice", vec![]), 99).unwrap_err(),
        ContractError::NotFound
    );
    assert_eq!(
        try_withdraw_bets(&mut store, &mk_info("alice", vec![]), 99).unwrap_err(),
        ContractError::NotFound
    );
    // the creator cannot take the opponent's seat
    assert_eq!(
        try_join_game(&mut store, &mk_info("alice", vec![mk_coin(2, "X")]), 1).unwrap_err(),
        ContractError::Unauthorized
    );
    // moves are only accepted while the game is underway
    assert_eq!(
        try_update_game(&mut store, &mk_info("alice", vec![]), 1, 0, 0, true).unwrap_err(),
        ContractError::GameNotPlayable
    );
    // settlement needs an active game
    assert_eq!(
        try_withdraw_bets(&mut store, &mk_info("alice", vec![]), 1).unwrap_err(),
        ContractError::GameNotPlayable
    );
    // commands that take no funds reject attached coins
    assert_eq!(
        try_cancel_game(&mut store, &mk_info("alice", vec![mk_coin(1, "X")]), 1).unwrap_err(),
        ContractError::FundsMismatch
    );
    assert_eq!(
        try_update_game(&mut store, &mk_info("alice", vec![mk_coin(1, "X")]), 1, 0, 0, true)
            .unwrap_err(),
        ContractError::FundsMismatch
    );
    assert_eq!(
        try_withdraw_bets(&mut store, &mk_info("alice", vec![mk_coin(1, "X")]), 1).unwrap_err(),
        ContractError::FundsMismatch
    );
    try_join_game(&mut store, &mk_info("bob", vec![mk_coin(2, "X")]), 1).unwrap();
    // only the creator may cancel, and only while pending
    assert_eq!(
        try_cancel_game(&mut store, &mk_info("bob", vec![]), 1).unwrap_err(),
        ContractError::GameNotPlayable
    );
    // the opponent cannot move for cross
    assert_eq!(
        try_update_game(&mut store, &mk_info("bob", vec![]), 1, 0, 0, true).unwrap_err(),
        ContractError::Unauthorized
    );
    // a stranger cannot move at all
    assert_eq!(
        try_update_game(&mut store, &mk_info("mallory", vec![]), 1, 0, 0, true).unwrap_err(),
        ContractError::Unauthorized
    );
}

/// Cancelling is the creator's privilege alone, while the game is pending.
#[test]
fn cancel_guards() {
    let mut store = GameStore::new();
    try_create_game(
        &mut store,
        &Env { height: 6 },
        &mk_info("alice", vec![mk_coin(2, "X")]),
        mk_coin(2, "X"),
    )
    .unwrap();
    assert_eq!(
        try_cancel_game(&mut store, &mk_info("bob", vec![]), 6).unwrap_err(),
        ContractError::Unauthorized
    );
    assert_eq!(query_game(&store, 6).unwrap().state, GameState::Pending);
    try_cancel_game(&mut store, &mk_info("alice", vec![]), 6).unwrap();
    // a second cancel finds the game no longer pending
    assert_eq!(
        try_cancel_game(&mut store, &mk_info("alice", vec![]), 6).unwrap_err(),
        ContractError::GameNotPlayable
    );
}

/// The execute dispatcher routes every command variant.
#[test]
fn execute_dispatch_routes_all_commands() {
    let mut store = GameStore::new();
    execute(
        &mut store,
        Env { height: 11 },
        mk_info("alice", vec![mk_coin(2, "X")]),
        ExecuteMsg::CreateGame { bet: mk_coin(2, "X") },
    )
    .unwrap();
    execute(
        &mut store,
        Env { height: 12 },
        mk_info("bob", vec![mk_coin(2, "X")]),
        ExecuteMsg::JoinGame { game_id: 11 },
    )
    .unwrap();
    execute(
        &mut store,
        Env { height: 13 },
        mk_info("alice", vec![]),
        ExecuteMsg::UpdateGame { game_id: 11, side: true, i: 1, j: 1 },
    )
    .unwrap();
    let err = execute(
        &mut store,
        Env { height: 14 },
        mk_info("anyone", vec![]),
        ExecuteMsg::WithdrawBet { game_id: 11 },
    )
    .unwrap_err();
    assert_eq!(err, ContractError::GameNotSettleable);
    let err = execute(
        &mut store,
        Env { height: 15 },
        mk_info("alice", vec![]),
        ExecuteMsg::CancelGame { game_id: 11 },
    )
    .unwrap_err();
    assert_eq!(err, ContractError::GameNotPlayable);
}

use solana_games::key::Pubkey;
use solana_games::mancala::{
    initialize_game_data, make_move, player_joins_game, try_make_move, withdraw,
    ChestVaultAccount, GameDataAccount, GameRecord, InitializeGameData, MakeMove, MancalaError,
    PlayerJoinsGame, Withdraw,
};

fn key(b: u8) -> Pubkey {
    Pubkey { bytes: [b; 32] }
}

fn empty_sheet() -> GameRecord {
    GameRecord {
        player_one: Pubkey::zero(),
        player_one_score: 0,
        player_two: Pubkey::zero(),
        player_two_score: 0,
        total_moves: 0,
        current_move: Pubkey::zero(),
        game_over: false,
        winner: Pubkey::zero(),
    }
}

fn vault(board: [u8; 14]) -> ChestVaultAccount {
    ChestVaultAccount {
        authority: key(1),
        chest_reward: 0,
        password: String::new(),
        entry_fee: 100,
        score_sheet: GameRecord {
            player_one: key(1),
            player_one_score: board[7],
            player_two: key(2),
            player_two_score: board[0],
            total_moves: 0,
            current_move: key(1),
            game_over: false,
            winner: Pubkey::zero(),
        },
        game_board: board,
    }
}

fn stones(board: &[u8; 14]) -> u32 {
    board.iter().map(|&x| x as u32).sum()
}

const START: [u8; 14] = [0, 4, 4, 4, 4, 4, 4, 0, 4, 4, 4, 4, 4, 4];

#[test]
fn mancala_initialize_sets_up_board() {
    let mut acc = InitializeGameData {
        game_data_account: GameDataAccount { all_authorities: vec![key(9)] },
        chest_vault_account: ChestVaultAccount {
            authority: key(7),
            chest_reward: 5,
            password: String::from("pw"),
            entry_fee: 0,
            score_sheet: empty_sheet(),
            game_board: [1; 14],
        },
        signer: key(1),
    };
    let deposit = initialize_game_data(&mut acc, 250);
    assert_eq!(deposit, 250);
    assert_eq!(acc.chest_vault_account.game_board, START);
    assert_eq!(stones(&acc.chest_vault_account.game_board), 48);
    assert_eq!(acc.chest_vault_account.entry_fee, 250);
    assert_eq!(acc.chest_vault_account.score_sheet.player_one, key(1));
    assert_eq!(acc.chest_vault_account.score_sheet.total_moves, 0);
    assert!(!acc.chest_vault_account.score_sheet.game_over);
    assert_eq!(acc.game_data_account.all_authorities, vec![key(9), key(1)]);
    assert_eq!(acc.chest_vault_account.authority, key(7));
}

#[test]
fn mancala_second_player_joins_then_game_is_full() {
    let mut v = vault(START);
    v.score_sheet.player_two = Pubkey::zero();
    v.score_sheet.current_move = Pubkey::zero();
    let mut acc = PlayerJoinsGame { chest_vault_account: v, signer: key(2) };
    assert_eq!(player_joins_game(&mut acc), Ok(100));
    assert_eq!(acc.chest_vault_account.score_sheet.player_two, key(2));
    assert_eq!(acc.chest_vault_account.score_sheet.current_move, key(1));
    acc.signer = key(3);
    assert_eq!(player_joins_game(&mut acc), Err(MancalaError::GameIsFull));
    assert_eq!(acc.chest_vault_account.score_sheet.player_two, key(2));
}

#[test]
fn mancala_last_stone_in_own_store_moves_again() {
    let mut acc = MakeMove { chest_vault_account: vault(START), signer: key(1) };
    assert_eq!(make_move(&mut acc, 3), Ok(()));
    assert_eq!(
        acc.chest_vault_account.game_board,
        [0, 4, 4, 0, 5, 5, 5, 1, 4, 4, 4, 4, 4, 4]
    );
    assert_eq!(acc.chest_vault_account.score_sheet.current_move, key(1));
    assert_eq!(acc.chest_vault_account.score_sheet.player_one_score, 1);
    assert_eq!(acc.chest_vault_account.score_sheet.player_two_score, 0);
    assert_eq!(acc.chest_vault_account.score_sheet.total_moves, 1);
}

#[test]
fn mancala_ordinary_move_passes_turn() {
    let mut acc = MakeMove { chest_vault_account: vault(START), signer: key(1) };
    assert_eq!(make_move(&mut acc, 1), Ok(()));
    assert_eq!(
        acc.chest_vault_account.game_board,
        [0, 0, 5, 5, 5, 5, 4, 0, 4, 4, 4, 4, 4, 4]
    );
    assert_eq!(acc.chest_vault_account.score_sheet.current_move, key(2));
    acc.signer = key(2);
    assert_eq!(make_move(&mut acc, 8), Ok(()));
    assert_eq!(
        acc.chest_vault_account.game_board,
        [0, 0, 5, 5, 5, 5, 4, 0, 0, 5, 5, 5, 5, 4]
    );
    assert_eq!(acc.chest_vault_account.score_sheet.current_move, key(1));
    assert_eq!(acc.chest_vault_account.score_sheet.total_moves, 2);
}

#[test]
fn mancala_player_two_skips_opponent_store() {
    let board = [0, 0, 0, 0, 0, 0, 1, 3, 0, 0, 0, 0, 0, 10];
    let mut v = vault(board);
    v.score_sheet.current_move = key(2);
    let mut acc = MakeMove { chest_vault_account: v, signer: key(2) };
    assert_eq!(make_move(&mut acc, 13), Ok(()));
    // Ten stones from pit 13: pits 0 to 6, pit 7 passed over, pits 8 to
    // 10; the last lands in empty pit 10 and takes pit 4 across.
    assert_eq!(
        acc.chest_vault_account.game_board,
        [3, 1, 1, 1, 0, 1, 2, 3, 1, 1, 0, 0, 0, 0]
    );
    assert_eq!(acc.chest_vault_account.score_sheet.player_two_score, 3);
    assert_eq!(acc.chest_vault_account.score_sheet.current_move, key(1));
    assert_eq!(stones(&acc.chest_vault_account.game_board), stones(&board));
}

#[test]
fn mancala_player_one_skips_opponent_store() {
    let board = [5, 0, 0, 0, 0, 0, 9, 0, 1, 1, 1, 1, 1, 1];
    let mut acc = MakeMove { chest_vault_account: vault(board), signer: key(1) };
    assert_eq!(make_move(&mut acc, 6), Ok(()));
    // Nine stones from pit 6: pits 7 to 13, pit 0 passed over, pits 1 and
    // 2; the last lands in empty pit 2 and takes pit 12 across.
    assert_eq!(
        acc.chest_vault_account.game_board,
        [5, 1, 0, 0, 0, 0, 0, 4, 2, 2, 2, 2, 0, 2]
    );
    assert_eq!(acc.chest_vault_account.score_sheet.player_one_score, 4);
    assert_eq!(acc.chest_vault_account.score_sheet.current_move, key(2));
}

#[test]
fn mancala_capture_takes_opposite_pit() {
    let board = [0, 0, 1, 0, 3, 0, 0, 2, 1, 1, 5, 6, 0, 0];
    let mut acc = MakeMove { chest_vault_account: vault(board), signer: key(1) };
    assert_eq!(make_move(&mut acc, 2), Ok(()));
    // The stone lands in empty pit 3; pit 11 holds 6: both go to store 7.
    assert_eq!(
        acc.chest_vault_account.game_board,
        [0, 0, 0, 0, 3, 0, 0, 9, 1, 1, 5, 0, 0, 0]
    );
    assert_eq!(acc.chest_vault_account.score_sheet.player_one_score, 9);
    assert_eq!(acc.chest_vault_account.score_sheet.current_move, key(2));
    assert_eq!(stones(&acc.chest_vault_account.game_board), stones(&board));
}

#[test]
fn mancala_no_capture_when_opposite_is_empty() {
    let board = [0, 0, 1, 0, 3, 0, 0, 2, 1, 1, 5, 0, 0, 4];
    let mut acc = MakeMove { chest_vault_account: vault(board), signer: key(1) };
    assert_eq!(make_move(&mut acc, 2), Ok(()));
    assert_eq!(
        acc.chest_vault_account.game_board,
        [0, 0, 0, 1, 3, 0, 0, 2, 1, 1, 5, 0, 0, 4]
    );
}

#[test]
fn mancala_clearing_side_ends_game() {
    let board = [3, 0, 0, 0, 0, 0, 1, 6, 1, 1, 1, 1, 1, 1];
    let mut acc = MakeMove { chest_vault_account: vault(board), signer: key(1) };
    assert_eq!(make_move(&mut acc, 6), Ok(()));
    assert!(acc.chest_vault_account.score_sheet.game_over);
    assert_eq!(acc.chest_vault_account.score_sheet.winner, key(1));
    assert_eq!(acc.chest_vault_account.score_sheet.player_one_score, 7);
    assert_eq!(acc.chest_vault_account.score_sheet.current_move, key(1));
}

#[test]
fn mancala_tie_leaves_zero_winner() {
    let board = [7, 0, 0, 0, 0, 0, 1, 6, 1, 1, 1, 1, 1, 1];
    let mut acc = MakeMove { chest_vault_account: vault(board), signer: key(1) };
    assert_eq!(make_move(&mut acc, 6), Ok(()));
    assert!(acc.chest_vault_account.score_sheet.game_over);
    assert!(acc.chest_vault_account.score_sheet.winner.is_zero());
}

#[test]
fn mancala_refused_moves_change_nothing() {
    let mut acc = MakeMove { chest_vault_account: vault(START), signer: key(1) };
    assert_eq!(make_move(&mut acc, 0), Err(MancalaError::InvalidPit));
    assert_eq!(make_move(&mut acc, 7), Err(MancalaError::InvalidPit));
    assert_eq!(make_move(&mut acc, 9), Err(MancalaError::InvalidPit));
    acc.signer = key(5);
    assert_eq!(make_move(&mut acc, 2), Err(MancalaError::NotInGame));
    acc.signer = key(2);
    assert_eq!(make_move(&mut acc, 9), Err(MancalaError::NotYourTurn));
    acc.signer = key(1);
    acc.chest_vault_account.game_board[4] = 0;
    assert_eq!(make_move(&mut acc, 4), Err(MancalaError::PitEmpty));
    assert_eq!(
        acc.chest_vault_account.game_board,
        [0, 4, 4, 4, 0, 4, 4, 0, 4, 4, 4, 4, 4, 4]
    );
    assert_eq!(acc.chest_vault_account.score_sheet.total_moves, 0);
    acc.signer = key(2);
    acc.chest_vault_account.score_sheet.current_move = key(2);
    assert_eq!(make_move(&mut acc, 3), Err(MancalaError::InvalidPit));
}

#[test]
fn mancala_overflowing_move_is_declined() {
    let board = [0, 255, 255, 0, 0, 0, 0, 0, 0, 0, 0, 0, 0, 0];
    let mut acc = MakeMove { chest_vault_account: vault(board), signer: key(1) };
    assert_eq!(try_make_move(&mut acc, 1), None);
    assert_eq!(acc.chest_vault_account.game_board, board);
    assert_eq!(try_make_move(&mut acc, 0), Some(Err(MancalaError::InvalidPit)));
    let mut ok = MakeMove { chest_vault_account: vault(START), signer: key(1) };
    assert_eq!(try_make_move(&mut ok, 3), Some(Ok(())));
    assert_eq!(ok.chest_vault_account.game_board[7], 1);
}

#[test]
fn mancala_move_counter_overflow_is_declined() {
    let mut v = vault(START);
    v.score_sheet.total_moves = 255;
    let mut acc = MakeMove { chest_vault_account: v, signer: key(1) };
    assert_eq!(try_make_move(&mut acc, 1), None);
    assert_eq!(acc.chest_vault_account.game_board, START);
}

#[test]
fn mancala_stones_are_kept_over_a_game() {
    let mut acc = MakeMove { chest_vault_account: vault(START), signer: key(1) };
    let plays: [(u8, u8); 6] = [(1, 3), (1, 1), (2, 8), (1, 2), (2, 13), (1, 6)];
    for (who, pit) in plays.iter() {
        acc.signer = key(*who);
        if acc.chest_vault_account.score_sheet.current_move != acc.signer {
            continue;
        }
        let _ = make_move(&mut acc, *pit);
        assert_eq!(stones(&acc.chest_vault_account.game_board), 48);
    }
    assert!(acc.chest_vault_account.score_sheet.total_moves >= 2);
}

#[test]
fn mancala_withdraw_pays_winner() {
    let mut acc = Withdraw {
        game_data_account: GameDataAccount { all_authorities: vec![key(3), key(1), key(1)] },
        chest_vault_account: vault(START),
        signer: key(1),
    };
    assert_eq!(withdraw(&mut acc), Err(MancalaError::GameNotOver));
    acc.chest_vault_account.score_sheet.game_over = true;
    acc.chest_vault_account.score_sheet.winner = key(2);
    assert_eq!(withdraw(&mut acc), Err(MancalaError::NotWinner));
    assert_eq!(acc.game_data_account.all_authorities, vec![key(3), key(1), key(1)]);
    acc.chest_vault_account.score_sheet.winner = key(1);
    assert_eq!(withdraw(&mut acc), Ok(200));
    assert_eq!(acc.game_data_account.all_authorities, vec![key(3), key(1)]);
}

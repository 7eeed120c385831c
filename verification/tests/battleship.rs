use solana_games::battleship::{
    choose_placement, close_account, initialize_game_data, make_move, player_joins_game,
    withdraw_loot, ChestVaultAccount, ChoosePlacement, CloseAccount, ErrorCode, GameDataAccount,
    GameRecord, InitializeGameData, MakeMove, PlayerJoinsGame, WithdrawLoot,
};
use solana_games::key::Pubkey;

fn key(b: u8) -> Pubkey {
    Pubkey { bytes: [b; 32] }
}

fn sheet(current: u8) -> GameRecord {
    GameRecord {
        player_one: key(1),
        player_one_score: 0,
        player_two: key(2),
        player_two_score: 0,
        current_move: key(current),
        game_over: false,
        winner: None,
    }
}

fn vault(board: [[u8; 10]; 10], current: u8) -> ChestVaultAccount {
    ChestVaultAccount {
        authority: key(1),
        chest_reward: 0,
        password: String::new(),
        entry_fee: 50,
        score_sheet: sheet(current),
        game_board: board,
    }
}

fn marks(board: &[[u8; 10]; 10]) -> usize {
    board.iter().flatten().filter(|&&x| x == 7 || x == 8 || x == 9).count()
}

fn ships() -> [[u8; 10]; 5] {
    [
        [1, 0, 0, 0, 0, 0, 0, 0, 0, 3],
        [1, 0, 4, 0, 0, 0, 0, 0, 0, 3],
        [1, 0, 4, 0, 2, 2, 2, 2, 2, 0],
        [0, 0, 4, 0, 0, 0, 0, 0, 0, 0],
        [0, 0, 4, 0, 0, 0, 0, 0, 0, 0],
    ]
}

#[test]
fn battleship_initialize_clears_board() {
    let mut acc = InitializeGameData {
        game_data_account: GameDataAccount { all_creators: vec![key(4)] },
        chest_vault_account: vault([[3; 10]; 10], 2),
        signer: key(6),
    };
    acc.chest_vault_account.score_sheet.game_over = true;
    acc.chest_vault_account.score_sheet.winner = Some(key(2));
    assert_eq!(initialize_game_data(&mut acc, 75), 75);
    let v = &acc.chest_vault_account;
    assert_eq!(v.game_board, [[0; 10]; 10]);
    assert_eq!(v.entry_fee, 75);
    assert_eq!(v.authority, key(6));
    assert_eq!(v.score_sheet.player_one, key(6));
    assert!(!v.score_sheet.game_over);
    assert!(v.score_sheet.winner.is_none());
    assert_eq!(v.score_sheet.player_two, key(2));
    assert_eq!(acc.game_data_account.all_creators, vec![key(4), key(6)]);
}

#[test]
fn battleship_second_player_joins_then_game_is_full() {
    let mut v = vault([[0; 10]; 10], 0);
    v.score_sheet.player_two = Pubkey::zero();
    let mut acc = PlayerJoinsGame { chest_vault_account: v, signer: key(2) };
    assert_eq!(player_joins_game(&mut acc), Ok(50));
    assert_eq!(acc.chest_vault_account.score_sheet.player_two, key(2));
    assert_eq!(acc.chest_vault_account.score_sheet.current_move, key(1));
    acc.signer = key(3);
    assert_eq!(player_joins_game(&mut acc), Err(ErrorCode::GameIsFull));
    assert_eq!(acc.chest_vault_account.score_sheet.player_two, key(2));
}

#[test]
fn battleship_placement_fills_each_players_half() {
    let mut acc = ChoosePlacement { chest_vault_account: vault([[0; 10]; 10], 1), signer: key(1) };
    assert_eq!(choose_placement(&mut acc, ships()), Ok(()));
    for i in 0..5 {
        assert_eq!(acc.chest_vault_account.game_board[i], ships()[i]);
        assert_eq!(acc.chest_vault_account.game_board[i + 5], [0; 10]);
    }
    acc.signer = key(2);
    let mut other = ships();
    other[0][5] = 5;
    assert_eq!(choose_placement(&mut acc, other), Ok(()));
    for i in 0..5 {
        assert_eq!(acc.chest_vault_account.game_board[i], ships()[i]);
        assert_eq!(acc.chest_vault_account.game_board[i + 5], other[i]);
    }
    let before = acc.chest_vault_account.game_board;
    acc.signer = key(9);
    assert_eq!(choose_placement(&mut acc, [[6; 10]; 5]), Ok(()));
    assert_eq!(acc.chest_vault_account.game_board, before);
    acc.chest_vault_account.score_sheet.game_over = true;
    acc.signer = key(1);
    assert_eq!(choose_placement(&mut acc, [[6; 10]; 5]), Err(ErrorCode::GameIsOver));
    assert_eq!(acc.chest_vault_account.game_board, before);
}

#[test]
fn battleship_shots_mark_hits_and_misses() {
    let mut board = [[0; 10]; 10];
    board[7][3] = 2;
    board[1][1] = 4;
    let mut acc = MakeMove { chest_vault_account: vault(board, 1), signer: key(1) };
    assert_eq!(make_move(&mut acc, [7, 3]), Ok(()));
    assert_eq!(acc.chest_vault_account.game_board[7][3], 9);
    assert_eq!(acc.chest_vault_account.score_sheet.current_move, key(2));
    acc.signer = key(2);
    assert_eq!(make_move(&mut acc, [1, 1]), Ok(()));
    assert_eq!(acc.chest_vault_account.game_board[1][1], 8);
    assert_eq!(acc.chest_vault_account.score_sheet.current_move, key(1));
    acc.signer = key(1);
    assert_eq!(make_move(&mut acc, [9, 9]), Ok(()));
    assert_eq!(acc.chest_vault_account.game_board[9][9], 7);
    assert_eq!(marks(&acc.chest_vault_account.game_board), 3);
    assert!(!acc.chest_vault_account.score_sheet.game_over);
}

#[test]
fn battleship_each_shot_adds_one_mark() {
    let mut board = [[0; 10]; 10];
    for j in 0..10 {
        board[2][j] = 1;
        board[6][j] = 3;
    }
    let mut acc = MakeMove { chest_vault_account: vault(board, 1), signer: key(1) };
    let shots: [[u8; 2]; 6] = [[6, 0], [2, 0], [6, 1], [0, 0], [5, 5], [2, 9]];
    let mut expected = 0;
    for (n, shot) in shots.iter().enumerate() {
        acc.signer = if n % 2 == 0 { key(1) } else { key(2) };
        assert_eq!(make_move(&mut acc, *shot), Ok(()));
        expected += 1;
        assert_eq!(marks(&acc.chest_vault_account.game_board), expected);
    }
}

#[test]
fn battleship_refused_shots_change_nothing() {
    let mut board = [[0; 10]; 10];
    board[4][4] = 7;
    let mut acc = MakeMove { chest_vault_account: vault(board, 1), signer: key(2) };
    assert_eq!(make_move(&mut acc, [0, 0]), Err(ErrorCode::WrongTurn));
    acc.signer = key(1);
    assert_eq!(make_move(&mut acc, [4, 4]), Err(ErrorCode::InvalidMove));
    assert_eq!(acc.chest_vault_account.game_board, board);
    assert_eq!(acc.chest_vault_account.score_sheet.current_move, key(1));
    acc.chest_vault_account.score_sheet.game_over = true;
    assert_eq!(make_move(&mut acc, [0, 0]), Err(ErrorCode::GameIsOver));
    assert_eq!(acc.chest_vault_account.game_board, board);
}

#[test]
fn battleship_fourteenth_hit_wins() {
    let mut board = [[0; 10]; 10];
    for j in 0..10 {
        board[5][j] = 9;
    }
    for j in 0..3 {
        board[6][j] = 9;
    }
    board[6][3] = 2;
    let mut acc = MakeMove { chest_vault_account: vault(board, 1), signer: key(1) };
    assert_eq!(make_move(&mut acc, [6, 3]), Ok(()));
    assert!(acc.chest_vault_account.score_sheet.game_over);
    assert_eq!(acc.chest_vault_account.score_sheet.winner, Some(key(1)));
    let loot = WithdrawLoot { chest_vault_account: acc.chest_vault_account, signer: key(2) };
    assert_eq!(withdraw_loot(&loot), Err(ErrorCode::NotWinner));
    let loot = WithdrawLoot { chest_vault_account: loot.chest_vault_account, signer: key(1) };
    assert_eq!(withdraw_loot(&loot), Ok(100));
}

#[test]
fn battleship_player_two_wins_with_fourteen_hits() {
    let mut board = [[0; 10]; 10];
    for j in 0..10 {
        board[0][j] = 8;
    }
    for j in 0..3 {
        board[1][j] = 8;
    }
    board[1][5] = 1;
    let mut acc = MakeMove { chest_vault_account: vault(board, 2), signer: key(2) };
    assert_eq!(make_move(&mut acc, [1, 5]), Ok(()));
    assert!(acc.chest_vault_account.score_sheet.game_over);
    assert_eq!(acc.chest_vault_account.score_sheet.winner, Some(key(2)));
}

#[test]
fn battleship_close_account_resets_game() {
    let mut v = vault(board_with_ships(), 1);
    v.score_sheet.winner = None;
    let mut acc = CloseAccount {
        game_data_account: GameDataAccount { all_creators: vec![key(1), key(3), key(1)] },
        chest_vault_account: v,
        signer: key(1),
    };
    assert_eq!(close_account(&mut acc), Err(ErrorCode::GameIsNotOver));
    acc.chest_vault_account.score_sheet.winner = Some(key(2));
    acc.signer = key(2);
    assert_eq!(close_account(&mut acc), Err(ErrorCode::NotCreator));
    assert_eq!(acc.game_data_account.all_creators, vec![key(1), key(3), key(1)]);
    acc.signer = key(1);
    assert_eq!(close_account(&mut acc), Ok(()));
    assert_eq!(acc.game_data_account.all_creators, vec![key(3)]);
    let s = &acc.chest_vault_account.score_sheet;
    assert!(s.player_one.is_zero());
    assert!(s.player_two.is_zero());
    assert!(s.current_move.is_zero());
    assert!(s.winner.is_none());
    assert!(!s.game_over);
    assert_eq!(acc.chest_vault_account.game_board, board_with_ships());
}

#[test]
fn battleship_close_account_before_second_player() {
    let mut v = vault([[0; 10]; 10], 1);
    v.score_sheet.player_two = Pubkey::zero();
    let mut acc = CloseAccount {
        game_data_account: GameDataAccount { all_creators: vec![key(1)] },
        chest_vault_account: v,
        signer: key(1),
    };
    assert_eq!(close_account(&mut acc), Ok(()));
    assert!(acc.game_data_account.all_creators.is_empty());
}

fn board_with_ships() -> [[u8; 10]; 10] {
    let mut b = [[0; 10]; 10];
    for i in 0..5 {
        b[i] = ships()[i];
    }
    b
}

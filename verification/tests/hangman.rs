use solana_games::hangman::{
    add_correct_letter, add_incorrect_letter, get_chest_reward, initialize_level_one,
    player_starts_game, try_add_correct_letter, withdraw, AddCorrectLetter, AddIncorrectLetter,
    ChestVaultAccount, GameDataAccount, GameError, GameRecord, GetChestReward,
    InitializeLevelOne, PlayerStartsGame, Withdraw,
};
use solana_games::key::Pubkey;

fn key(b: u8) -> Pubkey {
    Pubkey { bytes: [b; 32] }
}

fn blank_vault() -> ChestVaultAccount {
    ChestVaultAccount {
        creator: key(1),
        chest_reward: 1000,
        password: String::from("cm2w3am2w3t"),
        max_attempts_left: 3,
        entry_fee: 10,
        players: vec![],
    }
}

fn record(player: u8, letters: usize) -> GameRecord {
    GameRecord {
        player: key(player),
        player_score: 0,
        player_position: 0,
        incorrect_guesses: vec![],
        correct_letters: vec![String::from("_"); letters],
        is_winner: false,
    }
}

fn no_creators() -> GameDataAccount {
    GameDataAccount { all_creators: vec![] }
}

fn correct(vault: ChestVaultAccount, player: u8) -> AddCorrectLetter {
    AddCorrectLetter { game_data_account: no_creators(), chest_vault_account: vault, player: key(player) }
}

fn incorrect(vault: ChestVaultAccount, player: u8) -> AddIncorrectLetter {
    AddIncorrectLetter { game_data_account: no_creators(), chest_vault_account: vault, player: key(player) }
}

#[test]
fn hangman_initialize_records_game() {
    let mut acc = InitializeLevelOne {
        new_game_data_account: GameDataAccount { all_creators: vec![key(8)] },
        chest_vault_account: blank_vault(),
        signer: key(4),
    };
    acc.chest_vault_account.players.push(record(2, 3));
    let deposit = initialize_level_one(&mut acc, 500, String::from("dm2w3om2w3g"), 6, 20);
    assert_eq!(deposit, 500);
    let v = &acc.chest_vault_account;
    assert_eq!(v.chest_reward, 500);
    assert_eq!(v.max_attempts_left, 6);
    assert_eq!(v.entry_fee, 20);
    assert_eq!(v.password, "dm2w3om2w3g");
    assert!(v.players.is_empty());
    assert_eq!(v.creator, key(4));
    assert_eq!(acc.new_game_data_account.all_creators, vec![key(8), key(4)]);
}

#[test]
fn hangman_player_starts_with_blanks() {
    let mut acc = PlayerStartsGame {
        game_data_account: no_creators(),
        chest_vault_account: blank_vault(),
        signer: key(2),
    };
    assert_eq!(player_starts_game(&mut acc), Ok(10));
    let v = &acc.chest_vault_account;
    assert_eq!(v.players.len(), 1);
    assert_eq!(v.players[0].player, key(2));
    assert_eq!(v.players[0].correct_letters, vec!["_", "_", "_"]);
    assert_eq!(v.players[0].player_position, 0);
    assert!(!v.players[0].is_winner);
    assert_eq!(v.max_attempts_left, 2);
}

#[test]
fn hangman_start_refusals() {
    let mut v = blank_vault();
    v.max_attempts_left = 0;
    let mut acc = PlayerStartsGame { game_data_account: no_creators(), chest_vault_account: v, signer: key(2) };
    assert_eq!(player_starts_game(&mut acc), Err(GameError::NoAttemptsLeft));
    acc.chest_vault_account.max_attempts_left = 2;
    let mut scored = record(2, 3);
    scored.player_score = 2;
    acc.chest_vault_account.players.push(record(2, 3));
    acc.chest_vault_account.players.push(scored);
    assert_eq!(player_starts_game(&mut acc), Err(GameError::AlreadyPlayed(2)));
    assert_eq!(acc.chest_vault_account.players.len(), 2);
    assert_eq!(acc.chest_vault_account.max_attempts_left, 2);
    acc.signer = key(3);
    assert_eq!(player_starts_game(&mut acc), Ok(10));
    assert_eq!(acc.chest_vault_account.players.len(), 3);
}

#[test]
fn hangman_wrong_letter_is_recorded_once() {
    let mut v = blank_vault();
    v.players.push(record(2, 3));
    let mut acc = incorrect(v, 2);
    assert_eq!(add_incorrect_letter(&mut acc, String::from("x")), Ok(()));
    assert_eq!(acc.chest_vault_account.players[0].incorrect_guesses, vec!["x"]);
    assert_eq!(
        add_incorrect_letter(&mut acc, String::from("x")),
        Err(GameError::AlreadyGuessedIncorrectly)
    );
    assert_eq!(acc.chest_vault_account.players[0].incorrect_guesses, vec!["x"]);
    let mut c = correct(acc.chest_vault_account, 2);
    assert_eq!(
        add_correct_letter(&mut c, String::from("x"), vec![0]),
        Err(GameError::AlreadyGuessedIncorrectly)
    );
}

#[test]
fn hangman_unknown_player_is_refused() {
    let mut v = blank_vault();
    v.players.push(record(2, 3));
    let mut acc = incorrect(v, 5);
    assert_eq!(add_incorrect_letter(&mut acc, String::from("x")), Err(GameError::NotAPlayer));
    let mut c = correct(acc.chest_vault_account, 5);
    assert_eq!(add_correct_letter(&mut c, String::from("a"), vec![1]), Err(GameError::NotAPlayer));
    let mut g = GetChestReward {
        game_data_account: no_creators(),
        chest_vault_account: c.chest_vault_account,
        player: key(5),
    };
    assert_eq!(get_chest_reward(&mut g), Err(GameError::NotAPlayer));
}

#[test]
fn hangman_right_letters_uncover_word() {
    let mut v = blank_vault();
    v.players.push(record(7, 3));
    v.players.push(record(2, 3));
    let mut acc = correct(v, 2);
    assert_eq!(add_correct_letter(&mut acc, String::from("a"), vec![1]), Ok(()));
    let rec = &acc.chest_vault_account.players[1];
    assert_eq!(rec.correct_letters, vec!["_", "a", "_"]);
    assert_eq!(rec.player_position, 1);
    assert_eq!(rec.player_score, 1);
    assert!(!rec.is_winner);
    assert_eq!(
        add_correct_letter(&mut acc, String::from("a"), vec![2]),
        Err(GameError::AlreadyGuessedCorrectly)
    );
    assert_eq!(add_correct_letter(&mut acc, String::from("c"), vec![0, 2]), Ok(()));
    let rec = &acc.chest_vault_account.players[1];
    assert_eq!(rec.correct_letters, vec!["c", "a", "c"]);
    assert_eq!(rec.player_position, 3);
    assert_eq!(rec.player_score, 0);
    assert!(rec.is_winner);
    assert_eq!(acc.chest_vault_account.players[0].correct_letters, vec!["_", "_", "_"]);
    let mut g = GetChestReward {
        game_data_account: no_creators(),
        chest_vault_account: acc.chest_vault_account,
        player: key(2),
    };
    assert_eq!(get_chest_reward(&mut g), Ok(Some(1000)));
    assert_eq!(g.chest_vault_account.max_attempts_left, 0);
}

#[test]
fn hangman_letter_without_slots_changes_nothing() {
    let mut v = blank_vault();
    v.players.push(record(2, 3));
    let mut acc = correct(v, 2);
    assert_eq!(add_correct_letter(&mut acc, String::from("q"), vec![]), Ok(()));
    let rec = &acc.chest_vault_account.players[0];
    assert_eq!(rec.player_position, 0);
    assert_eq!(rec.correct_letters, vec!["_", "_", "_"]);
}

#[test]
fn hangman_reward_needs_a_win() {
    let mut v = blank_vault();
    v.players.push(record(2, 3));
    let mut g = GetChestReward { game_data_account: no_creators(), chest_vault_account: v, player: key(2) };
    assert_eq!(get_chest_reward(&mut g), Err(GameError::NotSolved));
    g.chest_vault_account.players[0].is_winner = true;
    g.chest_vault_account.players[0].player_position = 4;
    assert_eq!(get_chest_reward(&mut g), Ok(None));
    assert_eq!(g.chest_vault_account.max_attempts_left, 3);
}

#[test]
fn hangman_out_of_range_slot_is_declined() {
    let mut v = blank_vault();
    v.players.push(record(2, 3));
    let mut acc = correct(v, 2);
    assert_eq!(try_add_correct_letter(&mut acc, String::from("a"), vec![3]), None);
    assert_eq!(acc.chest_vault_account.players[0].correct_letters, vec!["_", "_", "_"]);
    assert_eq!(try_add_correct_letter(&mut acc, String::from("a"), vec![2]), Some(Ok(())));
    assert_eq!(acc.chest_vault_account.players[0].correct_letters, vec!["_", "_", "a"]);
    assert_eq!(
        try_add_correct_letter(&mut acc, String::from("a"), vec![1]),
        Some(Err(GameError::AlreadyGuessedCorrectly))
    );
}

#[test]
fn hangman_position_overflow_is_declined() {
    let mut v = blank_vault();
    let mut rec = record(2, 3);
    rec.player_position = 255;
    v.players.push(rec);
    let mut acc = correct(v, 2);
    assert_eq!(try_add_correct_letter(&mut acc, String::from("a"), vec![0]), None);
    assert_eq!(acc.chest_vault_account.players[0].player_position, 255);
}

#[test]
fn hangman_withdraw_closes_game() {
    let mut v = blank_vault();
    v.players.push(record(2, 3));
    let mut acc = Withdraw {
        game_data_account: GameDataAccount { all_creators: vec![key(1), key(5), key(1)] },
        chest_vault_account: v,
        signer: key(5),
    };
    assert_eq!(withdraw(&mut acc), Err(GameError::NotCreator));
    assert_eq!(acc.chest_vault_account.players.len(), 1);
    acc.signer = key(1);
    assert_eq!(withdraw(&mut acc), Ok(()));
    assert!(acc.chest_vault_account.players.is_empty());
    assert_eq!(acc.game_data_account.all_creators, vec![key(5)]);
}

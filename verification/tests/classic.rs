use solana_games::classic::{
    guess_letter, initialize_level_one, player_starts_game, try_guess_letter, withdraw,
    ChestVaultAccount, GameDataAccount, GameError, GameRecord, GuessLetter, InitializeLevelOne,
    PlayerStartsGame, Withdraw,
};
use solana_games::key::Pubkey;

fn key(b: u8) -> Pubkey {
    Pubkey { bytes: [b; 32] }
}

fn vault(password: &str) -> ChestVaultAccount {
    ChestVaultAccount {
        authority: key(1),
        chest_reward: 40,
        password: String::from(password),
        max_attempts_left: 2,
        entry_fee: 3,
        player_list: vec![],
        solved: false,
    }
}

fn record(player: u8, letters: &str) -> GameRecord {
    GameRecord {
        player: key(player),
        player_score: 0,
        correct_letters: String::from(letters),
        incorrect_letters: String::new(),
    }
}

fn guesser(v: ChestVaultAccount, player: u8) -> GuessLetter {
    GuessLetter {
        game_data_account: GameDataAccount { all_authorities: vec![] },
        chest_vault_account: v,
        player: key(player),
    }
}

fn text(s: &str) -> String {
    String::from(s)
}

#[test]
fn classic_initialize_keeps_password() {
    let mut acc = InitializeLevelOne {
        new_game_data_account: GameDataAccount { all_authorities: vec![key(2)] },
        chest_vault_account: vault("old"),
        signer: key(5),
    };
    acc.chest_vault_account.solved = true;
    acc.chest_vault_account.player_list.push(record(2, "*"));
    assert_eq!(initialize_level_one(&mut acc, 77, text("d(*)(*)o(*)(*)g"), 9, 4), 77);
    let v = &acc.chest_vault_account;
    assert_eq!(v.password, "d(*)(*)o(*)(*)g");
    assert_eq!(v.chest_reward, 77);
    assert_eq!(v.max_attempts_left, 9);
    assert_eq!(v.entry_fee, 4);
    assert!(!v.solved);
    assert!(v.player_list.is_empty());
    assert_eq!(v.authority, key(1));
    assert_eq!(acc.new_game_data_account.all_authorities, vec![key(2)]);
}

#[test]
fn classic_start_writes_one_star_per_piece() {
    let mut acc = PlayerStartsGame {
        game_data_account: GameDataAccount { all_authorities: vec![] },
        chest_vault_account: vault("d(*)(*)o(*)(*)g"),
        signer: key(2),
    };
    assert_eq!(player_starts_game(&mut acc), Ok(3));
    let rec = &acc.chest_vault_account.player_list[0];
    assert_eq!(rec.correct_letters, "***");
    assert_eq!(rec.incorrect_letters, "");
    assert_eq!(rec.player, key(2));
    assert_eq!(acc.chest_vault_account.max_attempts_left, 1);
    assert_eq!(player_starts_game(&mut acc), Ok(3));
    assert_eq!(player_starts_game(&mut acc), Err(GameError::NoAttemptsLeft));
    acc.chest_vault_account.solved = true;
    assert_eq!(player_starts_game(&mut acc), Err(GameError::AlreadySolved));
    assert_eq!(acc.chest_vault_account.player_list.len(), 2);
}

#[test]
fn classic_right_guesses_fill_slots() {
    let mut v = vault("c(*)(*)a(*)(*)b");
    v.player_list.push(record(2, "*,*,*"));
    let mut acc = guesser(v, 2);
    assert_eq!(guess_letter(&mut acc, text("a"), true, text("1")), Ok(None));
    let rec = &acc.chest_vault_account.player_list[0];
    assert_eq!(rec.correct_letters, "*,a,*");
    assert_eq!(rec.player_score, 1);
    assert_eq!(guess_letter(&mut acc, text("c"), true, text("0,2")), Ok(None));
    let rec = &acc.chest_vault_account.player_list[0];
    assert_eq!(rec.correct_letters, "c,a,c");
    assert_eq!(rec.player_score, 3);
    assert!(!acc.chest_vault_account.solved);
}

#[test]
fn classic_wrong_guess_changes_no_record() {
    let mut v = vault("c(*)(*)a(*)(*)b");
    v.player_list.push(record(2, "*,*,*"));
    let mut acc = guesser(v, 2);
    assert_eq!(guess_letter(&mut acc, text("z"), false, text("")), Ok(None));
    let rec = &acc.chest_vault_account.player_list[0];
    assert_eq!(rec.correct_letters, "*,*,*");
    assert_eq!(rec.incorrect_letters, "");
    assert_eq!(rec.player_score, 0);
}

#[test]
fn classic_single_piece_secret_is_solved() {
    let mut v = vault("x");
    v.player_list.push(record(2, "*"));
    let mut acc = guesser(v, 2);
    assert_eq!(guess_letter(&mut acc, text("x"), true, text("0")), Ok(Some(40)));
    assert!(acc.chest_vault_account.solved);
    assert_eq!(acc.chest_vault_account.player_list[0].correct_letters, "x");
    assert_eq!(acc.chest_vault_account.player_list[0].player_score, 1);
}

#[test]
fn classic_blank_record_counts_as_solved() {
    // A new record holds one star per piece, so its length already equals
    // the number of pieces.
    let mut v = vault("c(*)(*)a(*)(*)b");
    v.player_list.push(record(2, "***"));
    let mut acc = guesser(v, 2);
    assert_eq!(guess_letter(&mut acc, text("q"), false, text("")), Ok(Some(40)));
    assert!(acc.chest_vault_account.solved);
}

#[test]
fn classic_slots_come_from_first_record() {
    let mut v = vault("c(*)(*)a");
    v.player_list.push(record(7, "x,y"));
    v.player_list.push(record(2, "*,*,*"));
    let mut acc = guesser(v, 2);
    assert_eq!(guess_letter(&mut acc, text("a"), true, text("1")), Ok(None));
    assert_eq!(acc.chest_vault_account.player_list[1].correct_letters, "x,a");
    assert_eq!(acc.chest_vault_account.player_list[1].player_score, 1);
    assert_eq!(acc.chest_vault_account.player_list[0].correct_letters, "x,y");
}

#[test]
fn classic_unknown_player_is_refused() {
    let mut v = vault("c(*)(*)a");
    v.player_list.push(record(2, "*,*"));
    let mut acc = guesser(v, 6);
    assert_eq!(guess_letter(&mut acc, text("a"), true, text("1")), Err(GameError::PlayerNotFound));
    assert_eq!(acc.chest_vault_account.player_list[0].correct_letters, "*,*");
}

#[test]
fn classic_bad_reports_are_declined() {
    let mut empty = guesser(vault("c(*)(*)a"), 2);
    assert_eq!(try_guess_letter(&mut empty, text("a"), true, text("0")), None);
    let mut v = vault("c(*)(*)a");
    v.player_list.push(record(2, "*,*"));
    let mut acc = guesser(v, 2);
    assert_eq!(try_guess_letter(&mut acc, text("a"), true, text("2")), None);
    assert_eq!(try_guess_letter(&mut acc, text("a"), true, text("one")), None);
    assert_eq!(try_guess_letter(&mut acc, text("a"), true, text("0,,1")), None);
    assert_eq!(acc.chest_vault_account.player_list[0].correct_letters, "*,*");
    assert_eq!(try_guess_letter(&mut acc, text("a"), true, text("+1")), Some(Ok(None)));
    assert_eq!(acc.chest_vault_account.player_list[0].correct_letters, "*,a");
    acc.chest_vault_account.player_list[0].player_score = 255;
    assert_eq!(try_guess_letter(&mut acc, text("c"), true, text("0")), None);
    assert_eq!(try_guess_letter(&mut acc, text("c"), false, text("9")), Some(Ok(None)));
    acc.player = key(8);
    assert_eq!(
        try_guess_letter(&mut acc, text("c"), true, text("9")),
        Some(Err(GameError::PlayerNotFound))
    );
}

#[test]
fn classic_withdraw_returns_balance_above_rent() {
    let mut v = vault("c");
    v.player_list.push(record(2, "*"));
    let mut acc = Withdraw {
        game_data_account: GameDataAccount { all_authorities: vec![key(4), key(1)] },
        chest_vault_account: v,
        signer: key(2),
    };
    assert_eq!(withdraw(&mut acc, 12_345, 2), Err(GameError::NotAuthority));
    assert_eq!(acc.chest_vault_account.player_list.len(), 1);
    acc.signer = key(1);
    assert_eq!(withdraw(&mut acc, 12_345, 2), Ok(2_345));
    assert!(acc.chest_vault_account.player_list.is_empty());
    assert_eq!(acc.game_data_account.all_authorities, vec![key(4)]);
}

use solana_games::digest::letter_digest_hex;
use solana_games::key::Pubkey;
use solana_games::lootbox::{
    guess_letter, initialize_level_one, player_starts_game, try_guess_letter, withdraw,
    ChestVaultAccount, GameDataAccount, GameError, GameRecord, GuessLetter, GuessOutcome,
    InitializeLevelOne, PlayerStartsGame, Withdraw,
};
use tiny_keccak::Hasher;

fn key(b: u8) -> Pubkey {
    Pubkey { bytes: [b; 32] }
}

fn sha3_hex(data: &[u8]) -> String {
    let mut h = tiny_keccak::Sha3::v256();
    h.update(data);
    let mut out = [0u8; 32];
    h.finalize(&mut out);
    hex::encode(out)
}

fn digest_of(letter: &str) -> String {
    let salt = sha3_hex("mattisthebest".as_bytes());
    sha3_hex((letter.to_string() + &salt).as_bytes())
}

fn secret(letters: &[&str]) -> String {
    letters.iter().map(|l| digest_of(l)).collect::<Vec<String>>().join("(*)(*)")
}

fn vault(password: String) -> ChestVaultAccount {
    ChestVaultAccount {
        authority: key(1),
        chest_reward: 300,
        password,
        max_attempts_left: 4,
        entry_fee: 7,
        players: vec![],
        solved: false,
    }
}

fn record(player: u8, slots: usize) -> GameRecord {
    GameRecord {
        player: key(player),
        player_score: 0,
        player_position: 0,
        incorrect_guesses: vec![],
        correct_letters: vec![String::from("_"); slots],
    }
}

fn guesser(v: ChestVaultAccount, player: u8) -> GuessLetter {
    GuessLetter { game_data_account: GameDataAccount { all_authorities: vec![] }, chest_vault_account: v, player: key(player) }
}

#[test]
fn lootbox_digest_matches_salted_sha3() {
    let h = letter_digest_hex(&String::from("a"));
    assert_eq!(h, digest_of("a"));
    assert_eq!(h.len(), 64);
    assert!(h.chars().all(|c| c.is_ascii_hexdigit() && !c.is_ascii_uppercase()));
    assert_ne!(h, "a");
    assert_ne!(letter_digest_hex(&String::from("b")), h);
}

#[test]
fn lootbox_initialize_uses_built_in_secret() {
    let mut acc = InitializeLevelOne {
        new_game_data_account: GameDataAccount { all_authorities: vec![key(3)] },
        chest_vault_account: vault(String::from("old")),
        signer: key(1),
    };
    acc.chest_vault_account.solved = true;
    acc.chest_vault_account.players.push(record(2, 1));
    assert_eq!(initialize_level_one(&mut acc, 900, String::from("ignored"), 5, 11), 900);
    let v = &acc.chest_vault_account;
    assert_eq!(v.password, "d(*)(*)o(*)(*)g");
    assert_eq!(v.chest_reward, 900);
    assert_eq!(v.max_attempts_left, 5);
    assert_eq!(v.entry_fee, 11);
    assert!(!v.solved);
    assert!(v.players.is_empty());
    assert_eq!(acc.new_game_data_account.all_authorities, vec![key(3)]);
}

#[test]
fn lootbox_start_adds_blank_record() {
    let mut acc = PlayerStartsGame {
        game_data_account: GameDataAccount { all_authorities: vec![] },
        chest_vault_account: vault(String::from("d(*)(*)o(*)(*)g")),
        signer: key(2),
    };
    assert_eq!(player_starts_game(&mut acc), Ok(7));
    assert_eq!(acc.chest_vault_account.players[0].correct_letters, vec!["_", "_", "_"]);
    assert_eq!(acc.chest_vault_account.max_attempts_left, 3);
    acc.chest_vault_account.players[0].player_score = 4;
    assert_eq!(player_starts_game(&mut acc), Err(GameError::AlreadyPlayed(4)));
    acc.chest_vault_account.max_attempts_left = 0;
    assert_eq!(player_starts_game(&mut acc), Err(GameError::NoAttemptsLeft));
    acc.chest_vault_account.solved = true;
    assert_eq!(player_starts_game(&mut acc), Err(GameError::AlreadySolved));
    assert_eq!(acc.chest_vault_account.players.len(), 1);
}

#[test]
fn lootbox_guesses_solve_the_secret() {
    let mut v = vault(secret(&["a", "b"]));
    v.players.push(record(9, 2));
    v.players.push(record(2, 2));
    let mut acc = guesser(v, 2);
    let out = guess_letter(&mut acc, String::from("a")).unwrap();
    assert_eq!(out, GuessOutcome { correct: true, solved: false, matches: 1, records: 1 });
    let rec = &acc.chest_vault_account.players[1];
    assert_eq!(rec.correct_letters, vec!["a", "_"]);
    assert_eq!(rec.player_position, 1);
    assert_eq!(rec.player_score, 0);
    let out = guess_letter(&mut acc, String::from("z")).unwrap();
    assert_eq!(out, GuessOutcome { correct: false, solved: false, matches: 0, records: 1 });
    assert_eq!(acc.chest_vault_account.players[1].incorrect_guesses, vec!["z"]);
    let out = guess_letter(&mut acc, String::from("b")).unwrap();
    assert_eq!(out, GuessOutcome { correct: true, solved: true, matches: 1, records: 1 });
    let rec = &acc.chest_vault_account.players[1];
    assert_eq!(rec.correct_letters, vec!["a", "b"]);
    assert_eq!(rec.player_position, 2);
    assert_eq!(rec.player_score, 0);
    assert!(acc.chest_vault_account.solved);
    assert_eq!(acc.chest_vault_account.max_attempts_left, 0);
    assert_eq!(acc.chest_vault_account.players[0].correct_letters, vec!["_", "_"]);
    let mut start = PlayerStartsGame {
        game_data_account: GameDataAccount { all_authorities: vec![] },
        chest_vault_account: acc.chest_vault_account,
        signer: key(5),
    };
    assert_eq!(player_starts_game(&mut start), Err(GameError::AlreadySolved));
}

#[test]
fn lootbox_repeated_letter_is_refused() {
    let mut v = vault(secret(&["a", "b", "a"]));
    v.players.push(record(2, 3));
    let mut acc = guesser(v, 2);
    let out = guess_letter(&mut acc, String::from("a")).unwrap();
    assert_eq!(out.matches, 2);
    assert_eq!(acc.chest_vault_account.players[0].correct_letters, vec!["a", "_", "a"]);
    assert_eq!(acc.chest_vault_account.players[0].player_position, 1);
    assert_eq!(guess_letter(&mut acc, String::from("a")), Err(GameError::AlreadyGuessedCorrectly));
    assert_eq!(guess_letter(&mut acc, String::from("q")).unwrap().correct, false);
    assert_eq!(guess_letter(&mut acc, String::from("q")), Err(GameError::AlreadyGuessedIncorrectly));
    assert_eq!(acc.chest_vault_account.players[0].incorrect_guesses, vec!["q"]);
}

#[test]
fn lootbox_stranger_is_refused() {
    let mut v = vault(secret(&["a"]));
    v.players.push(record(2, 1));
    let mut acc = guesser(v, 4);
    assert_eq!(guess_letter(&mut acc, String::from("a")), Err(GameError::NotAPlayer));
    assert_eq!(acc.chest_vault_account.players[0].correct_letters, vec!["_"]);
}

#[test]
fn lootbox_every_record_of_the_player_moves() {
    let mut v = vault(secret(&["a", "b", "c"]));
    let mut first = record(2, 3);
    first.player_position = 1;
    first.correct_letters[1] = String::from("b");
    v.players.push(first);
    v.players.push(record(2, 3));
    let mut acc = guesser(v, 2);
    let out = guess_letter(&mut acc, String::from("c")).unwrap();
    assert_eq!(out.records, 2);
    for rec in acc.chest_vault_account.players.iter() {
        assert_eq!(rec.correct_letters, vec!["_", "_", "c"]);
        assert_eq!(rec.player_position, 1);
    }
}

#[test]
fn lootbox_short_record_is_declined() {
    let mut v = vault(secret(&["a", "b"]));
    v.players.push(record(2, 1));
    let mut acc = guesser(v, 2);
    assert_eq!(try_guess_letter(&mut acc, String::from("b")), None);
    assert_eq!(acc.chest_vault_account.players[0].correct_letters, vec!["_"]);
    let r = try_guess_letter(&mut acc, String::from("a"));
    assert_eq!(r.map(|x| x.map(|o| o.correct)), Some(Ok(true)));
    assert_eq!(try_guess_letter(&mut acc, String::from("a")), Some(Err(GameError::AlreadyGuessedCorrectly)));
}

#[test]
fn lootbox_withdraw_sweeps_authorities() {
    let mut v = vault(secret(&["a"]));
    v.players.push(record(2, 1));
    let mut acc = Withdraw {
        game_data_account: GameDataAccount { all_authorities: vec![key(3), key(4), key(1)] },
        chest_vault_account: v,
        signer: key(3),
    };
    assert_eq!(withdraw(&mut acc, 10_000, 1), Err(GameError::NotAuthority));
    assert_eq!(acc.chest_vault_account.players.len(), 1);
    acc.signer = key(1);
    assert_eq!(withdraw(&mut acc, 10_000, 1), Ok(5_000));
    assert!(acc.chest_vault_account.players.is_empty());
    assert_eq!(acc.game_data_account.all_authorities, vec![key(3), key(4)]);
}

//! Hangman with a hashed secret: the secret word is stored as the salted
//! digests of its letters, separated by `(*)(*)`, and a guess is checked by
//! comparing its digest with each stored piece. The first player to uncover
//! every letter wins the chest.
use vstd::prelude::*;
use crate::digest::{letter_digest, letter_digest_hex};
use crate::key::{Pubkey, sweep, sweep_keys};
use crate::text::{
    chars_eq, chars_of, contains_text, copy_texts, has_text, split, split_chars,
};

verus! {

/// The list of the accounts that run games.
pub struct GameDataAccount {
    pub all_authorities: Vec<Pubkey>,
}

/// One player's progress.
pub struct GameRecord {
    pub player: Pubkey,
    pub player_score: u8,
    pub player_position: u8,
    pub incorrect_guesses: Vec<String>,
    pub correct_letters: Vec<String>,
}

/// The account that holds the chest, the secret and the players.
pub struct ChestVaultAccount {
    pub authority: Pubkey,
    pub chest_reward: u64,
    pub password: String,
    pub max_attempts_left: u8,
    pub entry_fee: u64,
    pub players: Vec<GameRecord>,
    pub solved: bool,
}

/// The accounts of a call that sets up a game.
pub struct InitializeLevelOne {
    pub new_game_data_account: GameDataAccount,
    pub chest_vault_account: ChestVaultAccount,
    pub signer: Pubkey,
}

/// The accounts of a call by which a player enters.
pub struct PlayerStartsGame {
    pub game_data_account: GameDataAccount,
    pub chest_vault_account: ChestVaultAccount,
    pub signer: Pubkey,
}

/// The accounts of a call that guesses a letter.
pub struct GuessLetter {
    pub game_data_account: GameDataAccount,
    pub chest_vault_account: ChestVaultAccount,
    pub player: Pubkey,
}

/// The accounts of a call by which the authority takes back the chest.
pub struct Withdraw {
    pub game_data_account: GameDataAccount,
    pub chest_vault_account: ChestVaultAccount,
    pub signer: Pubkey,
}

/// Why a call is refused.
#[derive(Debug, Clone, Copy, PartialEq, Eq, Structural)]
pub enum GameError {
    /// The secret has been found already.
    AlreadySolved,
    /// No attempts are left.
    NoAttemptsLeft,
    /// The player has played before and scored; the score is given.
    AlreadyPlayed(u8),
    /// The letter is among the player's wrong guesses.
    AlreadyGuessedIncorrectly,
    /// The letter is among the player's uncovered letters.
    AlreadyGuessedCorrectly,
    /// The signer has not entered the game.
    NotAPlayer,
    /// The signer is not the authority of the chest.
    NotAuthority,
}

/// What a guess came to.
#[derive(Debug, Clone, Copy, PartialEq, Eq, Structural)]
pub struct GuessOutcome {
    /// The letter matched at least one piece of the secret.
    pub correct: bool,
    /// The guess uncovered the last letter: the chest reward is paid out
    /// `matches * records` times.
    pub solved: bool,
    /// How many pieces of the secret the letter matched.
    pub matches: usize,
    /// How many records the player has.
    pub records: usize,
}

/// The separator between the pieces of the secret.
pub open spec fn separator() -> Seq<char> {
    "(*)(*)"@
}

/// The secret that a new game is set up with.
pub open spec fn starting_secret() -> Seq<char> {
    "d(*)(*)o(*)(*)g"@
}

/// The number of pieces of the secret.
pub open spec fn secret_length(password: Seq<char>) -> nat {
    split(password, separator()).len()
}

/// The first record of `key` with a score above zero, from `i` on, and its score.
pub open spec fn scored_from(players: Seq<GameRecord>, key: Seq<u8>, i: int) -> Option<u8>
    decreases players.len() - i,
{
    if i < 0 || i >= players.len() {
        None
    } else if players[i].player@ == key && players[i].player_score > 0 {
        Some(players[i].player_score)
    } else {
        scored_from(players, key, i + 1)
    }
}

/// The position of the last record of `key` among the first `k`, or -1.
pub open spec fn last_record_upto(players: Seq<GameRecord>, key: Seq<u8>, k: int) -> int
    decreases k,
{
    if k <= 0 || k > players.len() {
        -1
    } else if players[k - 1].player@ == key {
        k - 1
    } else {
        last_record_upto(players, key, k - 1)
    }
}

/// The position of the last record of `key`, or -1.
pub open spec fn last_record(players: Seq<GameRecord>, key: Seq<u8>) -> int {
    last_record_upto(players, key, players.len() as int)
}

/// How many of the first `k` records belong to `key`.
pub open spec fn records_upto(players: Seq<GameRecord>, key: Seq<u8>, k: int) -> nat
    decreases k,
{
    if k <= 0 || k > players.len() {
        0
    } else {
        records_upto(players, key, k - 1) + if players[k - 1].player@ == key {
            1nat
        } else {
            0nat
        }
    }
}

/// How many pieces among the first `k` equal `h`.
pub open spec fn matches_upto(pieces: Seq<Seq<char>>, h: Seq<char>, k: int) -> nat
    decreases k,
{
    if k <= 0 || k > pieces.len() {
        0
    } else {
        matches_upto(pieces, h, k - 1) + if pieces[k - 1] == h {
            1nat
        } else {
            0nat
        }
    }
}

/// Why a player may not start, checked in this order: the secret is found,
/// no attempts are left, the player has a scoring record.
pub open spec fn start_refusal(v: ChestVaultAccount, signer: Pubkey) -> Option<GameError> {
    if v.solved {
        Some(GameError::AlreadySolved)
    } else if v.max_attempts_left == 0 {
        Some(GameError::NoAttemptsLeft)
    } else {
        match scored_from(v.players@, signer@, 0) {
            Some(score) => Some(GameError::AlreadyPlayed(score)),
            None => None,
        }
    }
}

/// Why a guess is refused, checked in this order: the letter is among the
/// wrong guesses of the player's last record, among its uncovered letters,
/// or the player has no record.
pub open spec fn guess_refusal(v: ChestVaultAccount, key: Seq<u8>, letter: Seq<char>) -> Option<
    GameError,
> {
    let last = last_record(v.players@, key);
    if last < 0 {
        Some(GameError::NotAPlayer)
    } else if has_text(v.players@[last].incorrect_guesses@, letter) {
        Some(GameError::AlreadyGuessedIncorrectly)
    } else if has_text(v.players@[last].correct_letters@, letter) {
        Some(GameError::AlreadyGuessedCorrectly)
    } else {
        None
    }
}

/// Whether a matching letter can be written: the number of pieces is not a
/// multiple of 256 (it divides the position), the position can grow by
/// one, and every matching piece has a slot among the uncovered letters of
/// the player's last record.
pub open spec fn guess_fits(v: ChestVaultAccount, key: Seq<u8>, letter: Seq<char>) -> bool {
    let pieces = split(v.password@, separator());
    let h = letter_digest(letter);
    let rec = v.players@[last_record(v.players@, key)];
    (exists|i: int| 0 <= i < pieces.len() && pieces[i] == h) ==> {
        &&& pieces.len() % 256 != 0
        &&& rec.player_position < 255
        &&& forall|i: int|
            0 <= i < pieces.len() && pieces[i] == h ==> i < rec.correct_letters@.len()
    }
}

/// The uncovered letters after a matching guess: each slot whose piece
/// matches holds the letter.
pub open spec fn uncovered(cor: Seq<String>, pieces: Seq<Seq<char>>, h: Seq<char>, letter: String) -> Seq<
    String,
> {
    Seq::new(
        cor.len(),
        |i: int|
            if i < pieces.len() && pieces[i] == h {
                letter
            } else {
                cor[i]
            },
    )
}

/// A record after a guess: records of other players stay; on a hit each of
/// the player's records takes the position and score derived from the last
/// record and its uncovered letters with the letter written in; on a miss
/// each of the player's records lists the letter among its wrong guesses.
pub open spec fn record_after_guess(
    before: GameRecord,
    after: GameRecord,
    key: Seq<u8>,
    hit: bool,
    pos: u8,
    n: nat,
    letters: Seq<String>,
    letter: String,
) -> bool {
    if before.player@ != key {
        after == before
    } else if hit {
        &&& after.player == before.player
        &&& after.player_score == pos / ((n % 256) as u8)
        &&& after.player_position == pos + 1
        &&& after.incorrect_guesses == before.incorrect_guesses
        &&& after.correct_letters@ == letters
    } else {
        &&& after.player == before.player
        &&& after.player_score == before.player_score
        &&& after.player_position == before.player_position
        &&& after.incorrect_guesses@ == before.incorrect_guesses@.push(letter)
        &&& after.correct_letters == before.correct_letters
    }
}

/// What an accepted guess makes of the vault and what it reports.
pub open spec fn guessed(
    v: ChestVaultAccount,
    key: Seq<u8>,
    letter: String,
    w: ChestVaultAccount,
    out: GuessOutcome,
) -> bool {
    let pieces = split(v.password@, separator());
    let n = pieces.len();
    let h = letter_digest(letter@);
    let rec = v.players@[last_record(v.players@, key)];
    let m = matches_upto(pieces, h, n as int);
    let hit = m > 0;
    let pos = rec.player_position;
    let solved_now = hit && pos + 1 == n % 256;
    &&& out.correct == hit
    &&& out.matches == m
    &&& out.records == records_upto(v.players@, key, v.players@.len() as int)
    &&& out.solved == solved_now
    &&& w.players@.len() == v.players@.len()
    &&& forall|k: int|
        0 <= k < v.players@.len() ==> record_after_guess(
            #[trigger] v.players@[k],
            w.players@[k],
            key,
            hit,
            pos,
            n,
            uncovered(rec.correct_letters@, pieces, h, letter),
            letter,
        )
    &&& if solved_now {
        w.max_attempts_left == 0 && w.solved
    } else {
        w.max_attempts_left == v.max_attempts_left && w.solved == v.solved
    }
    &&& w.authority == v.authority
    &&& w.chest_reward == v.chest_reward
    &&& w.password == v.password
    &&& w.entry_fee == v.entry_fee
}

/// Lists whose records have the same players, position by position, have
/// the same last record of every key.
proof fn lemma_last_record_same_players(a: Seq<GameRecord>, b: Seq<GameRecord>, key: Seq<u8>, k: int)
    requires
        a.len() == b.len(),
        forall|j: int| 0 <= j < a.len() ==> (#[trigger] a[j]).player == b[j].player,
    ensures
        last_record_upto(a, key, k) == last_record_upto(b, key, k),
    decreases k,
{
    if 0 < k <= a.len() {
        lemma_last_record_same_players(a, b, key, k - 1);
    }
}

/// A letter that a player has guessed, with a hit or a miss, is refused
/// when the player guesses it again.
pub proof fn lemma_guess_refused_again(
    v: ChestVaultAccount,
    key: Seq<u8>,
    letter: String,
    w: ChestVaultAccount,
    out: GuessOutcome,
)
    requires
        guess_refusal(v, key, letter@) is None,
        guess_fits(v, key, letter@),
        guessed(v, key, letter, w, out),
    ensures
        guess_refusal(w, key, letter@) == Some(if out.correct {
            GameError::AlreadyGuessedCorrectly
        } else {
            GameError::AlreadyGuessedIncorrectly
        }),
{
    let pieces = split(v.password@, separator());
    let n = pieces.len();
    let h = letter_digest(letter@);
    let last = last_record(v.players@, key);
    let rec = v.players@[last];
    assert forall|j: int| 0 <= j < v.players@.len() implies (#[trigger] v.players@[j]).player
        == w.players@[j].player by {
        assert(record_after_guess(
            v.players@[j],
            w.players@[j],
            key,
            out.correct,
            rec.player_position,
            n,
            uncovered(rec.correct_letters@, pieces, h, letter),
            letter,
        ));
    }
    lemma_last_record_same_players(v.players@, w.players@, key, v.players@.len() as int);
    assert(last_record(w.players@, key) == last);
    lemma_last_record(v.players@, key, v.players@.len() as int);
    let after = w.players@[last];
    assert(record_after_guess(
        rec,
        after,
        key,
        out.correct,
        rec.player_position,
        n,
        uncovered(rec.correct_letters@, pieces, h, letter),
        letter,
    ));
    if out.correct {
        lemma_some_match(pieces, h, n as int);
        let i = choose|i: int| 0 <= i < n as int && pieces[i] == h;
        assert(after.correct_letters@[i] == letter);
    } else {
        assert(after.incorrect_guesses@[after.incorrect_guesses@.len() - 1] == letter);
    }
}

/// Once a guess has solved the game, nobody can start it again.
pub proof fn lemma_solved_game_closed(
    v: ChestVaultAccount,
    key: Seq<u8>,
    letter: String,
    w: ChestVaultAccount,
    out: GuessOutcome,
    newcomer: Pubkey,
)
    requires
        guessed(v, key, letter, w, out),
        out.solved,
    ensures
        start_refusal(w, newcomer) == Some(GameError::AlreadySolved),
{
}

/// The number of pieces of a secret.
fn secret_pieces(password: &String) -> (pieces: Vec<Vec<char>>)
    ensures
        pieces@.len() == split(password@, separator()).len(),
        forall|k: int|
            0 <= k < pieces@.len() ==> #[trigger] pieces@[k]@ == split(password@, separator())[k],
{
    let text = chars_of(password.as_str());
    let sep = chars_of("(*)(*)");
    proof {
        reveal_strlit("(*)(*)");
    }
    split_chars(&text, &sep)
}

/// Sets up a game: the chest reward, the number of attempts and the entry
/// fee are recorded, the secret is set to the built-in word and the players
/// are cleared. Returns the chest reward that the signer pays into the vault.
pub fn initialize_level_one(
    accounts: &mut InitializeLevelOne,
    chest_reward: u64,
    password: String,
    max_attempts: u8,
    entry_fee: u64,
) -> (deposit: u64)
    ensures
        deposit == chest_reward,
        final(accounts).chest_vault_account.chest_reward == chest_reward,
        final(accounts).chest_vault_account.max_attempts_left == max_attempts,
        final(accounts).chest_vault_account.entry_fee == entry_fee,
        !final(accounts).chest_vault_account.solved,
        final(accounts).chest_vault_account.password@ == starting_secret(),
        final(accounts).chest_vault_account.players@.len() == 0,
        final(accounts).chest_vault_account.authority
            == old(accounts).chest_vault_account.authority,
        final(accounts).new_game_data_account == old(accounts).new_game_data_account,
        final(accounts).signer == old(accounts).signer,
{
    accounts.chest_vault_account.chest_reward = chest_reward;
    accounts.chest_vault_account.max_attempts_left = max_attempts;
    accounts.chest_vault_account.entry_fee = entry_fee;
    accounts.chest_vault_account.solved = false;
    accounts.chest_vault_account.password = "d(*)(*)o(*)(*)g".to_owned();
    accounts.chest_vault_account.players = Vec::new();
    chest_reward
}

/// A player enters: a record with one blank `_` per piece of the secret is
/// added and one attempt is used up. Returns the entry fee that the signer
/// pays into the vault. Refused as `start_refusal` says.
pub fn player_starts_game(accounts: &mut PlayerStartsGame) -> (r: Result<u64, GameError>)
    ensures
        match start_refusal(old(accounts).chest_vault_account, old(accounts).signer) {
            Some(e) => r == Err::<u64, GameError>(e) && *final(accounts) == *old(accounts),
            None => {
                let v = old(accounts).chest_vault_account;
                let w = final(accounts).chest_vault_account;
                let rec = w.players@.last();
                &&& r == Ok::<u64, GameError>(v.entry_fee)
                &&& w.players@.len() == v.players@.len() + 1
                &&& w.players@.drop_last() == v.players@
                &&& rec.player == old(accounts).signer
                &&& rec.player_score == 0
                &&& rec.player_position == 0
                &&& rec.incorrect_guesses@.len() == 0
                &&& rec.correct_letters@.len() == secret_length(v.password@)
                &&& forall|k: int|
                    0 <= k < rec.correct_letters@.len() ==> #[trigger] rec.correct_letters@[k]@
                        == seq!['_']
                &&& w.max_attempts_left == v.max_attempts_left - 1
                &&& w.authority == v.authority
                &&& w.chest_reward == v.chest_reward
                &&& w.password == v.password
                &&& w.entry_fee == v.entry_fee
                &&& w.solved == v.solved
                &&& final(accounts).game_data_account == old(accounts).game_data_account
                &&& final(accounts).signer == old(accounts).signer
            },
        },
{
    if accounts.chest_vault_account.solved {
        return Err(GameError::AlreadySolved);
    }
    if accounts.chest_vault_account.max_attempts_left == 0 {
        return Err(GameError::NoAttemptsLeft);
    }
    let signer = accounts.signer;
    let n = accounts.chest_vault_account.players.len();
    let mut i: usize = 0;
    #[verifier::loop_isolation(false)]
    while i < n
        invariant
            n == accounts.chest_vault_account.players@.len(),
            i <= n,
            scored_from(accounts.chest_vault_account.players@, signer@, 0) == scored_from(
                accounts.chest_vault_account.players@,
                signer@,
                i as int,
            ),
        decreases n - i,
    {
        let rec = &accounts.chest_vault_account.players[i];
        if rec.player == signer && rec.player_score > 0 {
            assert(scored_from(accounts.chest_vault_account.players@, signer@, i as int) == Some(
                rec.player_score,
            ));
            return Err(GameError::AlreadyPlayed(rec.player_score));
        }
        i = i + 1;
    }
    let fee = accounts.chest_vault_account.entry_fee;
    let pieces = secret_pieces(&accounts.chest_vault_account.password);
    let blanks = pieces.len();
    let mut letters: Vec<String> = Vec::new();
    let mut k: usize = 0;
    while k < blanks
        invariant
            k <= blanks,
            letters@.len() == k,
            forall|j: int| 0 <= j < k ==> #[trigger] letters@[j]@ == seq!['_'],
        decreases blanks - k,
    {
        proof {
            reveal_strlit("_");
        }
        letters.push("_".to_owned());
        k = k + 1;
    }
    let item = GameRecord {
        player: signer,
        player_score: 0,
        player_position: 0,
        incorrect_guesses: Vec::new(),
        correct_letters: letters,
    };
    let ghost before = accounts.chest_vault_account.players@;
    accounts.chest_vault_account.players.push(item);
    assert(accounts.chest_vault_account.players@.drop_last() =~= before);
    accounts.chest_vault_account.max_attempts_left = accounts.chest_vault_account.max_attempts_left
        - 1;
    Ok(fee)
}

/// Checks a refusal of a guess and finds the player's last record.
fn check_guess(accounts: &GuessLetter, letter: &String) -> (r: Result<usize, GameError>)
    ensures
        match guess_refusal(accounts.chest_vault_account, accounts.player@, letter@) {
            Some(e) => r == Err::<usize, GameError>(e),
            None => r matches Ok(i) && i as int == last_record(
                accounts.chest_vault_account.players@,
                accounts.player@,
            ),
        },
        -1 <= last_record(accounts.chest_vault_account.players@, accounts.player@)
            < accounts.chest_vault_account.players@.len(),
{
    proof {
        lemma_last_record(
            accounts.chest_vault_account.players@,
            accounts.player@,
            accounts.chest_vault_account.players@.len() as int,
        );
    }
    let key = accounts.player;
    let players = &accounts.chest_vault_account.players;
    let n = players.len();
    let mut last: Option<usize> = None;
    let mut k: usize = 0;
    while k < n
        invariant
            n == players@.len(),
            k <= n,
            match last {
                Some(i) => i == last_record_upto(players@, key@, k as int) && i < k,
                None => last_record_upto(players@, key@, k as int) == -1,
            },
        decreases n - k,
    {
        if players[k].player == key {
            last = Some(k);
        }
        k = k + 1;
    }
    match last {
        None => Err(GameError::NotAPlayer),
        Some(i) => {
            if contains_text(&players[i].incorrect_guesses, letter) {
                return Err(GameError::AlreadyGuessedIncorrectly);
            }
            if contains_text(&players[i].correct_letters, letter) {
                return Err(GameError::AlreadyGuessedCorrectly);
            }
            Ok(i)
        },
    }
}

/// Guesses a letter for the player. Its salted digest is compared with each
/// piece of the secret; a hit writes the letter into the matching slots and
/// advances the player, a miss lists the letter among the wrong guesses.
/// When the position reaches the number of pieces the chest is won: the
/// game is marked solved and no attempts are left.
pub fn guess_letter(accounts: &mut GuessLetter, letter: String) -> (r: Result<
    GuessOutcome,
    GameError,
>)
    requires
        guess_refusal(old(accounts).chest_vault_account, old(accounts).player@, letter@) is None
            ==> guess_fits(old(accounts).chest_vault_account, old(accounts).player@, letter@),
    ensures
        match guess_refusal(old(accounts).chest_vault_account, old(accounts).player@, letter@) {
            Some(e) => r == Err::<GuessOutcome, GameError>(e) && *final(accounts) == *old(
                accounts,
            ),
            None => r matches Ok(out) && guessed(
                old(accounts).chest_vault_account,
                old(accounts).player@,
                letter,
                final(accounts).chest_vault_account,
                out,
            ) && final(accounts).game_data_account == old(accounts).game_data_account
                && final(accounts).player == old(accounts).player,
        },
{
    let li = match check_guess(accounts, &letter) {
        Err(e) => {
            return Err(e);
        },
        Ok(i) => i,
    };
    apply_guess(accounts, letter, li)
}

/// `guess_letter`, for any input: `None`, with nothing changed, exactly
/// when an accepted guess would divide by zero, overflow the position, or
/// write past the uncovered letters.
pub fn try_guess_letter(accounts: &mut GuessLetter, letter: String) -> (r: Option<
    Result<GuessOutcome, GameError>,
>)
    ensures
        r is None <==> (guess_refusal(
            old(accounts).chest_vault_account,
            old(accounts).player@,
            letter@,
        ) is None && !guess_fits(old(accounts).chest_vault_account, old(accounts).player@, letter@)),
        r is None ==> *final(accounts) == *old(accounts),
        r matches Some(res) ==> match guess_refusal(
            old(accounts).chest_vault_account,
            old(accounts).player@,
            letter@,
        ) {
            Some(e) => res == Err::<GuessOutcome, GameError>(e) && *final(accounts) == *old(
                accounts,
            ),
            None => res matches Ok(out) && guessed(
                old(accounts).chest_vault_account,
                old(accounts).player@,
                letter,
                final(accounts).chest_vault_account,
                out,
            ) && final(accounts).game_data_account == old(accounts).game_data_account
                && final(accounts).player == old(accounts).player,
        },
{
    let li = match check_guess(accounts, &letter) {
        Err(e) => {
            return Some(Err(e));
        },
        Ok(i) => i,
    };
    let pieces = secret_pieces(&accounts.chest_vault_account.password);
    let digest = letter_digest_hex(&letter);
    let h = chars_of(digest.as_str());
    let n = pieces.len();
    let rec = &accounts.chest_vault_account.players[li];
    let slots = rec.correct_letters.len();
    let ghost spieces = split(accounts.chest_vault_account.password@, separator());
    let ghost hh = letter_digest(letter@);
    let mut any = false;
    let mut i: usize = 0;
    #[verifier::loop_isolation(false)]
    while i < n
        invariant
            n == pieces@.len(),
            n == spieces.len(),
            forall|k: int| 0 <= k < n ==> #[trigger] pieces@[k]@ == spieces[k],
            h@ == hh,
            i <= n,
            any == exists|j: int| 0 <= j < i && #[trigger] pieces@[j]@ == h@,
            forall|j: int| 0 <= j < i && #[trigger] pieces@[j]@ == h@ ==> j < slots,
        decreases n - i,
    {
        if chars_eq(&pieces[i], &h) {
            if i >= slots {
                assert(spieces[i as int] == hh);
                return None;
            }
            any = true;
        }
        i = i + 1;
    }
    if any && (n % 256 == 0 || rec.player_position == 255) {
        proof {
            let j = choose|j: int| 0 <= j < i && #[trigger] pieces@[j]@ == h@;
            assert(spieces[j] == hh);
        }
        return None;
    }
    proof {
        assert forall|j: int| 0 <= j < spieces.len() && spieces[j] == hh implies j < slots by {
            assert(pieces@[j]@ == h@);
        }
        if exists|j: int| 0 <= j < spieces.len() && spieces[j] == hh {
            let j = choose|j: int| 0 <= j < spieces.len() && spieces[j] == hh;
            assert(pieces@[j]@ == h@);
        }
    }
    Some(guess_letter(accounts, letter))
}

/// Carries out an accepted guess.
fn apply_guess(accounts: &mut GuessLetter, letter: String, li: usize) -> (r: Result<
    GuessOutcome,
    GameError,
>)
    requires
        guess_refusal(old(accounts).chest_vault_account, old(accounts).player@, letter@) is None,
        guess_fits(old(accounts).chest_vault_account, old(accounts).player@, letter@),
        li == last_record(old(accounts).chest_vault_account.players@, old(accounts).player@),
    ensures
        r matches Ok(out) && guessed(
            old(accounts).chest_vault_account,
            old(accounts).player@,
            letter,
            final(accounts).chest_vault_account,
            out,
        ),
        final(accounts).game_data_account == old(accounts).game_data_account,
        final(accounts).player == old(accounts).player,
{
    let key = accounts.player;
    let ghost v = accounts.chest_vault_account;
    proof {
        lemma_last_record(v.players@, key@, v.players@.len() as int);
    }
    let pieces = secret_pieces(&accounts.chest_vault_account.password);
    let digest = letter_digest_hex(&letter);
    let h = chars_of(digest.as_str());
    let n = pieces.len();
    let ghost spieces = split(v.password@, separator());
    let ghost hh = letter_digest(letter@);
    let pos = accounts.chest_vault_account.players[li].player_position;
    let mut letters = copy_texts(&accounts.chest_vault_account.players[li].correct_letters);
    let ghost cor = letters@;
    let mut matches: usize = 0;
    let mut i: usize = 0;
    while i < n
        invariant
            n == pieces@.len(),
            n == spieces.len(),
            forall|k: int| 0 <= k < n ==> #[trigger] pieces@[k]@ == spieces[k],
            h@ == hh,
            i <= n,
            matches == matches_upto(spieces, hh, i as int),
            matches <= i,
            letters@.len() == cor.len(),
            forall|j: int|
                0 <= j < n && spieces[j] == hh ==> j < cor.len(),
            forall|j: int|
                0 <= j < cor.len() ==> #[trigger] letters@[j] == if j < i && spieces[j] == hh {
                    letter
                } else {
                    cor[j]
                },
        decreases n - i,
    {
        if chars_eq(&pieces[i], &h) {
            letters.set(i, letter.clone());
            matches = matches + 1;
        }
        i = i + 1;
    }
    let hit = matches > 0;
    let ghost new_letters = uncovered(cor, spieces, hh, letter);
    assert(letters@ =~= new_letters);
    proof {
        if hit {
            lemma_some_match(spieces, hh, n as int);
        } else {
            lemma_no_match(spieces, hh, n as int);
        }
    }
    let width: u8 = (n % 256) as u8;
    let mut old_players: Vec<GameRecord> = Vec::new();
    std::mem::swap(&mut old_players, &mut accounts.chest_vault_account.players);
    let ghost before = old_players@;
    let np = old_players.len();
    let mut new_players: Vec<GameRecord> = Vec::new();
    let mut records: usize = 0;
    for rec in it: old_players.into_iter()
        invariant
            it.seq() == before,
            new_players@.len() == it.index(),
            records == records_upto(before, key@, it.index() as int),
            records <= it.index(),
            it.index() <= np,
            np == before.len(),
            hit ==> width != 0 && pos < 255,
            width == (n % 256) as u8,
            forall|k: int|
                0 <= k < it.index() ==> record_after_guess(
                    #[trigger] before[k],
                    new_players@[k],
                    key@,
                    hit,
                    pos,
                    n as nat,
                    new_letters,
                    letter,
                ),
            letters@ == new_letters,
    {
        let mut rec = rec;
        if rec.player == key {
            if hit {
                rec.player_score = pos / width;
                rec.player_position = pos + 1;
                rec.correct_letters = copy_texts(&letters);
            } else {
                rec.incorrect_guesses.push(letter.clone());
            }
            records = records + 1;
        }
        new_players.push(rec);
    }
    accounts.chest_vault_account.players = new_players;
    let solved_now = hit && pos + 1 == width;
    if solved_now {
        accounts.chest_vault_account.max_attempts_left = 0;
        accounts.chest_vault_account.solved = true;
    }
    Ok(GuessOutcome { correct: hit, solved: solved_now, matches, records })
}

proof fn lemma_last_record(players: Seq<GameRecord>, key: Seq<u8>, k: int)
    requires
        0 <= k <= players.len(),
    ensures
        -1 <= last_record_upto(players, key, k) < k,
        last_record_upto(players, key, k) >= 0 ==> players[last_record_upto(
            players,
            key,
            k,
        )].player@ == key,
    decreases k,
{
    if k > 0 {
        lemma_last_record(players, key, k - 1);
    }
}

proof fn lemma_some_match(p: Seq<Seq<char>>, h: Seq<char>, k: int)
    requires
        0 <= k <= p.len(),
        matches_upto(p, h, k) > 0,
    ensures
        exists|i: int| 0 <= i < k && p[i] == h,
    decreases k,
{
    if p[k - 1] != h {
        lemma_some_match(p, h, k - 1);
    }
}

proof fn lemma_no_match(p: Seq<Seq<char>>, h: Seq<char>, k: int)
    requires
        0 <= k <= p.len(),
        matches_upto(p, h, k) == 0,
    ensures
        forall|i: int| 0 <= i < k ==> p[i] != h,
    decreases k,
{
    if k > 0 {
        lemma_no_match(p, h, k - 1);
    }
}

/// The authority takes the chest's balance above `rent_epoch * 5000`
/// lamports, clears the players, and is swept out of the list of
/// authorities as `sweep` describes; by `lemma_sweep_whole` the sweep goes
/// through exactly when the authority is listed nowhere but last, and then
/// leaves the list without it. Refused for anyone but the authority.
pub fn withdraw(accounts: &mut Withdraw, vault_lamports: u64, rent_epoch: u64) -> (r: Result<
    u64,
    GameError,
>)
    requires
        rent_epoch * 5000 <= vault_lamports,
        old(accounts).signer@ == old(accounts).chest_vault_account.authority@ ==> sweep(
            old(accounts).game_data_account.all_authorities@,
            old(accounts).chest_vault_account.authority@,
            0,
            old(accounts).game_data_account.all_authorities@.len() as int,
        ) is Some,
    ensures
        old(accounts).signer@ != old(accounts).chest_vault_account.authority@ ==> r == Err::<
            u64,
            GameError,
        >(GameError::NotAuthority) && *final(accounts) == *old(accounts),
        old(accounts).signer@ == old(accounts).chest_vault_account.authority@ ==> {
            let v = old(accounts).chest_vault_account;
            let w = final(accounts).chest_vault_account;
            &&& r == Ok::<u64, GameError>((vault_lamports - rent_epoch * 5000) as u64)
            &&& w.players@.len() == 0
            &&& Some(final(accounts).game_data_account.all_authorities@) == sweep(
                old(accounts).game_data_account.all_authorities@,
                v.authority@,
                0,
                old(accounts).game_data_account.all_authorities@.len() as int,
            )
            &&& w.authority == v.authority
            &&& w.chest_reward == v.chest_reward
            &&& w.password == v.password
            &&& w.max_attempts_left == v.max_attempts_left
            &&& w.entry_fee == v.entry_fee
            &&& w.solved == v.solved
            &&& final(accounts).signer == old(accounts).signer
        },
{
    let balance = vault_lamports - rent_epoch * 5000;
    let authority = accounts.chest_vault_account.authority;
    if !(accounts.signer == authority) {
        return Err(GameError::NotAuthority);
    }
    accounts.chest_vault_account.players = Vec::new();
    match sweep_keys(&accounts.game_data_account.all_authorities, &authority) {
        Some(kept) => {
            accounts.game_data_account.all_authorities = kept;
        },
        None => {},
    }
    Ok(balance)
}

/// A scoring record of `key` from position `i` on, if there is one.
proof fn lemma_scored_from(players: Seq<GameRecord>, key: Seq<u8>, i: int)
    requires
        0 <= i,
    ensures
        scored_from(players, key, i) matches Some(s) ==> s > 0 && exists|j: int|
            i <= j < players.len() && (#[trigger] players[j]).player@ == key
                && players[j].player_score == s,
        (forall|j: int|
            i <= j < players.len() && (#[trigger] players[j]).player@ == key
                ==> players[j].player_score == 0) ==> scored_from(players, key, i) is None,
        (exists|j: int|
            i <= j < players.len() && (#[trigger] players[j]).player@ == key
                && players[j].player_score > 0) ==> scored_from(players, key, i) is Some,
    decreases players.len() - i,
{
    if i < players.len() {
        lemma_scored_from(players, key, i + 1);
        if exists|j: int|
            i <= j < players.len() && (#[trigger] players[j]).player@ == key
                && players[j].player_score > 0 {
            let j = choose|j: int|
                i <= j < players.len() && (#[trigger] players[j]).player@ == key
                    && players[j].player_score > 0;
            if j != i {
                assert(i + 1 <= j);
            }
        }
    }
}

/// Entering is refused for having played only when a record of the signer
/// has scored: when the game is not solved, attempts remain and every record of the signer has
/// a score of 0 (or there is none), the signer may enter; the score that
/// a refusal reports is above 0 and is the score of a record of the
/// signer.
pub proof fn lemma_start_refusal(v: ChestVaultAccount, signer: Pubkey)
    ensures
        !v.solved && v.max_attempts_left != 0 && (forall|j: int|
            0 <= j < v.players@.len() && (#[trigger] v.players@[j]).player@ == signer@
                ==> v.players@[j].player_score == 0) ==> start_refusal(v, signer) is None,
        !v.solved && v.max_attempts_left != 0 && (exists|j: int|
            0 <= j < v.players@.len() && (#[trigger] v.players@[j]).player@ == signer@
                && v.players@[j].player_score > 0) ==> start_refusal(v, signer) matches Some(
            GameError::AlreadyPlayed(_),
        ),
        start_refusal(v, signer) matches Some(GameError::AlreadyPlayed(s)) ==> s > 0
            && exists|j: int|
            0 <= j < v.players@.len() && (#[trigger] v.players@[j]).player@ == signer@
                && v.players@[j].player_score == s,
{
    lemma_scored_from(v.players@, signer@, 0);
}

/// What an accepted guess does, read off its inputs: it is a hit exactly
/// when some piece of the secret equals the letter's digest. On a hit
/// every record of the player moves one position past the player's last
/// record and holds the letter at each matching slot, and the guess solves
/// the game exactly when that position reaches the number of pieces
/// (taken as a byte), which then ends the game. On a miss every record of
/// the player lists the letter among its wrong guesses and keeps its
/// position. Records of other players never change.
pub proof fn lemma_guess_effect(
    v: ChestVaultAccount,
    key: Seq<u8>,
    letter: String,
    w: ChestVaultAccount,
    out: GuessOutcome,
)
    requires
        guess_refusal(v, key, letter@) is None,
        guess_fits(v, key, letter@),
        guessed(v, key, letter, w, out),
    ensures
        ({
            let pieces = split(v.password@, separator());
            let h = letter_digest(letter@);
            let rec = v.players@[last_record(v.players@, key)];
            &&& out.correct <==> exists|i: int| 0 <= i < pieces.len() && pieces[i] == h
            &&& out.solved <==> out.correct && rec.player_position + 1 == pieces.len() % 256
            &&& out.solved ==> w.solved && w.max_attempts_left == 0
            &&& !out.solved ==> w.solved == v.solved && w.max_attempts_left
                == v.max_attempts_left
            &&& w.players@.len() == v.players@.len()
            &&& forall|k: int|
                0 <= k < v.players@.len() && v.players@[k].player@ != key ==> #[trigger] w.players@[k]
                    == v.players@[k]
            &&& forall|k: int|
                0 <= k < v.players@.len() && v.players@[k].player@ == key && out.correct
                    ==> #[trigger] w.players@[k].player_position == rec.player_position + 1
            &&& forall|k: int, i: int|
                0 <= k < v.players@.len() && v.players@[k].player@ == key && 0 <= i
                    < pieces.len() && pieces[i] == h ==> #[trigger] w.players@[k].correct_letters@[i]
                    == letter
            &&& forall|k: int|
                0 <= k < v.players@.len() && v.players@[k].player@ == key && !out.correct
                    ==> #[trigger] w.players@[k].incorrect_guesses@ == v.players@[k].incorrect_guesses@.push(
                    letter,
                ) && w.players@[k].player_position == v.players@[k].player_position
        }),
{
    let pieces = split(v.password@, separator());
    let n = pieces.len();
    let h = letter_digest(letter@);
    lemma_last_record(v.players@, key, v.players@.len() as int);
    let rec = v.players@[last_record(v.players@, key)];
    if out.correct {
        lemma_some_match(pieces, h, n as int);
    } else {
        lemma_no_match(pieces, h, n as int);
    }
    assert forall|k: int|
        0 <= k < v.players@.len() implies record_after_guess(
        #[trigger] v.players@[k],
        w.players@[k],
        key,
        out.correct,
        rec.player_position,
        n,
        uncovered(rec.correct_letters@, pieces, h, letter),
        letter,
    ) by {}
    assert forall|k: int, i: int|
        0 <= k < v.players@.len() && v.players@[k].player@ == key && 0 <= i < pieces.len()
            && pieces[i] == h implies #[trigger] w.players@[k].correct_letters@[i] == letter by {
        assert(i < rec.correct_letters@.len());
    }
}

} // verus!

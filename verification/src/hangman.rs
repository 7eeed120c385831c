//! Hangman with the secret kept off the chain: the secret word is stored as
//! its pieces separated by `m2w3`, and the client reports which letters are
//! right and where they go. A player who uncovers the whole word collects
//! the chest.
use vstd::prelude::*;
use crate::key::{Pubkey, remove_key, without_key};
use crate::text::{chars_of, contains_text, has_text, split, split_chars};

verus! {

/// The list of every account that set up a game.
pub struct GameDataAccount {
    pub all_creators: Vec<Pubkey>,
}

/// One player's progress.
pub struct GameRecord {
    pub player: Pubkey,
    pub player_score: u8,
    pub player_position: u8,
    pub incorrect_guesses: Vec<String>,
    pub correct_letters: Vec<String>,
    pub is_winner: bool,
}

/// The account that holds the chest, the secret and the players.
pub struct ChestVaultAccount {
    pub creator: Pubkey,
    pub chest_reward: u64,
    pub password: String,
    pub max_attempts_left: u8,
    pub entry_fee: u64,
    pub players: Vec<GameRecord>,
}

/// The accounts of a call that sets up a game.
pub struct InitializeLevelOne {
    pub new_game_data_account: GameDataAccount,
    pub chest_vault_account: ChestVaultAccount,
    pub signer: Pubkey,
}

/// The accounts of a call by which a player enters.
pub struct PlayerStartsGame {
    pub game_data_account: GameDataAccount,
    pub chest_vault_account: ChestVaultAccount,
    pub signer: Pubkey,
}

/// The accounts of a call that guesses a letter.
pub struct GuessLetter {
    pub game_data_account: GameDataAccount,
    pub chest_vault_account: ChestVaultAccount,
    pub player: Pubkey,
}

/// The accounts of a call that records a right letter.
pub struct AddCorrectLetter {
    pub game_data_account: GameDataAccount,
    pub chest_vault_account: ChestVaultAccount,
    pub player: Pubkey,
}

/// The accounts of a call that records a wrong letter.
pub struct AddIncorrectLetter {
    pub game_data_account: GameDataAccount,
    pub chest_vault_account: ChestVaultAccount,
    pub player: Pubkey,
}

/// The accounts of a call by which a winner collects the chest.
pub struct GetChestReward {
    pub game_data_account: GameDataAccount,
    pub chest_vault_account: ChestVaultAccount,
    pub player: Pubkey,
}

/// The accounts of a call by which the creator closes the game.
pub struct Withdraw {
    pub game_data_account: GameDataAccount,
    pub chest_vault_account: ChestVaultAccount,
    pub signer: Pubkey,
}

/// Why a call is refused.
#[derive(Debug, Clone, Copy, PartialEq, Eq, Structural)]
pub enum GameError {
    /// No attempts are left.
    NoAttemptsLeft,
    /// The player has played before and scored; the score is given.
    AlreadyPlayed(u8),
    /// The player has not started the game.
    NotAPlayer,
    /// The player has not uncovered the word.
    NotSolved,
    /// The letter is among the player's wrong guesses.
    AlreadyGuessedIncorrectly,
    /// The letter is among the player's uncovered letters.
    AlreadyGuessedCorrectly,
    /// The signer did not set up the game.
    NotCreator,
}

/// The separator between the pieces of the secret.
pub open spec fn separator() -> Seq<char> {
    "m2w3"@
}

/// The number of pieces of the secret.
pub open spec fn secret_length(password: Seq<char>) -> nat {
    split(password, separator()).len()
}

/// The first record of `key` with a score above zero, from `i` on, and its score.
pub open spec fn scored_from(players: Seq<GameRecord>, key: Seq<u8>, i: int) -> Option<u8>
    decreases players.len() - i,
{
    if i < 0 || i >= players.len() {
        None
    } else if players[i].player@ == key && players[i].player_score > 0 {
        Some(players[i].player_score)
    } else {
        scored_from(players, key, i + 1)
    }
}

/// The position of the first record of `key`, from `i` on, or -1.
pub open spec fn first_record_from(players: Seq<GameRecord>, key: Seq<u8>, i: int) -> int
    decreases players.len() - i,
{
    if i < 0 || i >= players.len() {
        -1
    } else if players[i].player@ == key {
        i
    } else {
        first_record_from(players, key, i + 1)
    }
}

/// The position of the first record of `key`, or -1.
pub open spec fn first_record(players: Seq<GameRecord>, key: Seq<u8>) -> int {
    first_record_from(players, key, 0)
}

/// Why a player may not start, checked in this order: no attempts are
/// left, the player has a scoring record.
pub open spec fn start_refusal(v: ChestVaultAccount, signer: Pubkey) -> Option<GameError> {
    if v.max_attempts_left == 0 {
        Some(GameError::NoAttemptsLeft)
    } else {
        match scored_from(v.players@, signer@, 0) {
            Some(score) => Some(GameError::AlreadyPlayed(score)),
            None => None,
        }
    }
}

/// Why a letter may not be recorded, checked in this order: the player has
/// no record, the letter is among the wrong guesses of the player's first
/// record, or among its uncovered letters.
pub open spec fn letter_refusal(v: ChestVaultAccount, key: Seq<u8>, letter: Seq<char>) -> Option<
    GameError,
> {
    let first = first_record(v.players@, key);
    if first < 0 {
        Some(GameError::NotAPlayer)
    } else if has_text(v.players@[first].incorrect_guesses@, letter) {
        Some(GameError::AlreadyGuessedIncorrectly)
    } else if has_text(v.players@[first].correct_letters@, letter) {
        Some(GameError::AlreadyGuessedCorrectly)
    } else {
        None
    }
}

/// Whether recording a right letter at the given slots stays in bounds:
/// the number of pieces is not a multiple of 256 (it divides the position),
/// the position can grow by one per slot, and every slot exists.
pub open spec fn correct_letter_fits(v: ChestVaultAccount, key: Seq<u8>, indexes: Seq<u8>) -> bool {
    let rec = v.players@[first_record(v.players@, key)];
    indexes.len() > 0 ==> {
        &&& secret_length(v.password@) % 256 != 0
        &&& rec.player_position + indexes.len() <= 255
        &&& forall|k: int| 0 <= k < indexes.len() ==> #[trigger] indexes[k] < rec.correct_letters@.len()
    }
}

/// The uncovered letters with `letter` written at each of the slots.
pub open spec fn letters_placed(cor: Seq<String>, indexes: Seq<u8>, letter: String) -> Seq<String> {
    Seq::new(
        cor.len(),
        |i: int|
            if exists|k: int| 0 <= k < indexes.len() && indexes[k] == i {
                letter
            } else {
                cor[i]
            },
    )
}

/// The record after a right letter is written at the slots: the position
/// grows by one per slot, the score is the position modulo the number of
/// pieces (taken as a byte), and the player wins when the position passes
/// through that number.
pub open spec fn record_with_letter(
    before: GameRecord,
    after: GameRecord,
    n: nat,
    indexes: Seq<u8>,
    letter: String,
) -> bool {
    let width = (n % 256) as int;
    let pos = before.player_position + indexes.len();
    &&& after.player == before.player
    &&& after.player_position == pos
    &&& after.player_score == if indexes.len() == 0 {
        before.player_score as int
    } else {
        pos % (width as int)
    }
    &&& after.incorrect_guesses == before.incorrect_guesses
    &&& after.correct_letters@ == letters_placed(before.correct_letters@, indexes, letter)
    &&& after.is_winner == (before.is_winner || (before.player_position < width && width <= pos))
}

/// The rest of the vault is as it was.
pub open spec fn same_but_players(v: ChestVaultAccount, w: ChestVaultAccount) -> bool {
    &&& w.creator == v.creator
    &&& w.chest_reward == v.chest_reward
    &&& w.password == v.password
    &&& w.max_attempts_left == v.max_attempts_left
    &&& w.entry_fee == v.entry_fee
}

/// The vault after a wrong letter is recorded: the letter is added to the
/// wrong guesses of the player's first record, and nothing else changes.
pub open spec fn wrong_letter_added(v: ChestVaultAccount, key: Seq<u8>, letter: String, w: ChestVaultAccount) -> bool {
    let first = first_record(v.players@, key);
    let before = v.players@[first];
    let after = w.players@[first];
    &&& w.players@.len() == v.players@.len()
    &&& forall|k: int|
        0 <= k < v.players@.len() && k != first ==> #[trigger] w.players@[k] == v.players@[k]
    &&& after.player == before.player
    &&& after.player_score == before.player_score
    &&& after.player_position == before.player_position
    &&& after.incorrect_guesses@ == before.incorrect_guesses@.push(letter)
    &&& after.correct_letters == before.correct_letters
    &&& after.is_winner == before.is_winner
    &&& same_but_players(v, w)
}

/// The vault after a right letter is recorded at the slots: the player's
/// first record advances as `record_with_letter` says, and nothing else
/// changes.
pub open spec fn right_letter_added(
    v: ChestVaultAccount,
    key: Seq<u8>,
    letter: String,
    indexes: Seq<u8>,
    w: ChestVaultAccount,
) -> bool {
    let first = first_record(v.players@, key);
    &&& w.players@.len() == v.players@.len()
    &&& forall|k: int|
        0 <= k < v.players@.len() && k != first ==> #[trigger] w.players@[k] == v.players@[k]
    &&& record_with_letter(
        v.players@[first],
        w.players@[first],
        secret_length(v.password@),
        indexes,
        letter,
    )
    &&& same_but_players(v, w)
}

/// Lists whose records have the same players, position by position, have
/// the same first record of every key.
proof fn lemma_first_record_same_players(a: Seq<GameRecord>, b: Seq<GameRecord>, key: Seq<u8>, i: int)
    requires
        a.len() == b.len(),
        forall|k: int| 0 <= k < a.len() ==> (#[trigger] a[k]).player == b[k].player,
    ensures
        first_record_from(a, key, i) == first_record_from(b, key, i),
    decreases a.len() - i,
{
    if 0 <= i < a.len() {
        lemma_first_record_same_players(a, b, key, i + 1);
    }
}

/// A letter that has been recorded as wrong for a player is refused when
/// it is reported again, right or wrong.
pub proof fn lemma_wrong_letter_refused_again(
    v: ChestVaultAccount,
    key: Seq<u8>,
    letter: String,
    w: ChestVaultAccount,
)
    requires
        letter_refusal(v, key, letter@) is None,
        wrong_letter_added(v, key, letter, w),
    ensures
        letter_refusal(w, key, letter@) == Some(GameError::AlreadyGuessedIncorrectly),
{
    let first = first_record(v.players@, key);
    assert forall|k: int| 0 <= k < v.players@.len() implies (#[trigger] v.players@[k]).player
        == w.players@[k].player by {
        if k != first {
            assert(w.players@[k] == v.players@[k]);
        }
    }
    lemma_first_record_same_players(v.players@, w.players@, key, 0);
    let after = w.players@[first];
    assert(after.incorrect_guesses@[after.incorrect_guesses@.len() - 1] == letter);
}

/// A letter that has been recorded as right at one slot or more is refused
/// when it is reported again, right or wrong.
pub proof fn lemma_right_letter_refused_again(
    v: ChestVaultAccount,
    key: Seq<u8>,
    letter: String,
    indexes: Seq<u8>,
    w: ChestVaultAccount,
)
    requires
        letter_refusal(v, key, letter@) is None,
        correct_letter_fits(v, key, indexes),
        indexes.len() > 0,
        right_letter_added(v, key, letter, indexes, w),
    ensures
        letter_refusal(w, key, letter@) == Some(GameError::AlreadyGuessedCorrectly),
{
    let first = first_record(v.players@, key);
    assert forall|k: int| 0 <= k < v.players@.len() implies (#[trigger] v.players@[k]).player
        == w.players@[k].player by {
        if k != first {
            assert(w.players@[k] == v.players@[k]);
        }
    }
    lemma_first_record_same_players(v.players@, w.players@, key, 0);
    let after = w.players@[first];
    let slot = indexes[0] as int;
    assert(indexes[0] < v.players@[first].correct_letters@.len());
    assert(after.correct_letters@[slot] == letter);
}

/// The pieces of a secret.
fn secret_pieces(password: &String) -> (pieces: Vec<Vec<char>>)
    ensures
        pieces@.len() == split(password@, separator()).len(),
{
    let text = chars_of(password.as_str());
    let sep = chars_of("m2w3");
    proof {
        reveal_strlit("m2w3");
    }
    split_chars(&text, &sep)
}

/// Sets up a game: the chest reward, the number of attempts, the entry fee
/// and the secret are recorded, the players are cleared, the signer becomes
/// the creator and is listed among the creators. Returns the chest reward
/// that the signer pays into the vault.
pub fn initialize_level_one(
    accounts: &mut InitializeLevelOne,
    chest_reward: u64,
    password: String,
    max_attempts: u8,
    entry_fee: u64,
) -> (deposit: u64)
    ensures
        deposit == chest_reward,
        final(accounts).chest_vault_account.chest_reward == chest_reward,
        final(accounts).chest_vault_account.max_attempts_left == max_attempts,
        final(accounts).chest_vault_account.entry_fee == entry_fee,
        final(accounts).chest_vault_account.password == password,
        final(accounts).chest_vault_account.players@.len() == 0,
        final(accounts).chest_vault_account.creator == old(accounts).signer,
        final(accounts).new_game_data_account.all_creators@ == old(
            accounts,
        ).new_game_data_account.all_creators@.push(old(accounts).signer),
        final(accounts).signer == old(accounts).signer,
{
    let signer = accounts.signer;
    accounts.chest_vault_account.chest_reward = chest_reward;
    accounts.chest_vault_account.max_attempts_left = max_attempts;
    accounts.chest_vault_account.entry_fee = entry_fee;
    accounts.chest_vault_account.players = Vec::new();
    accounts.chest_vault_account.password = password;
    accounts.chest_vault_account.creator = signer;
    accounts.new_game_data_account.all_creators.push(signer);
    chest_reward
}

/// A player enters: a record with one blank `_` per piece of the secret is
/// added and one attempt is used up. Returns the entry fee that the signer
/// pays into the vault. Refused as `start_refusal` says.
pub fn player_starts_game(accounts: &mut PlayerStartsGame) -> (r: Result<u64, GameError>)
    ensures
        match start_refusal(old(accounts).chest_vault_account, old(accounts).signer) {
            Some(e) => r == Err::<u64, GameError>(e) && *final(accounts) == *old(accounts),
            None => {
                let v = old(accounts).chest_vault_account;
                let w = final(accounts).chest_vault_account;
                let rec = w.players@.last();
                &&& r == Ok::<u64, GameError>(v.entry_fee)
                &&& w.players@.len() == v.players@.len() + 1
                &&& w.players@.drop_last() == v.players@
                &&& rec.player == old(accounts).signer
                &&& rec.player_score == 0
                &&& rec.player_position == 0
                &&& rec.incorrect_guesses@.len() == 0
                &&& rec.correct_letters@.len() == secret_length(v.password@)
                &&& forall|k: int|
                    0 <= k < rec.correct_letters@.len() ==> #[trigger] rec.correct_letters@[k]@
                        == seq!['_']
                &&& !rec.is_winner
                &&& w.max_attempts_left == v.max_attempts_left - 1
                &&& w.creator == v.creator
                &&& w.chest_reward == v.chest_reward
                &&& w.password == v.password
                &&& w.entry_fee == v.entry_fee
                &&& final(accounts).game_data_account == old(accounts).game_data_account
                &&& final(accounts).signer == old(accounts).signer
            },
        },
{
    if accounts.chest_vault_account.max_attempts_left == 0 {
        return Err(GameError::NoAttemptsLeft);
    }
    let signer = accounts.signer;
    let n = accounts.chest_vault_account.players.len();
    let mut i: usize = 0;
    #[verifier::loop_isolation(false)]
    while i < n
        invariant
            n == accounts.chest_vault_account.players@.len(),
            i <= n,
            scored_from(accounts.chest_vault_account.players@, signer@, 0) == scored_from(
                accounts.chest_vault_account.players@,
                signer@,
                i as int,
            ),
        decreases n - i,
    {
        let rec = &accounts.chest_vault_account.players[i];
        if rec.player == signer && rec.player_score > 0 {
            assert(scored_from(accounts.chest_vault_account.players@, signer@, i as int) == Some(
                rec.player_score,
            ));
            return Err(GameError::AlreadyPlayed(rec.player_score));
        }
        i = i + 1;
    }
    let fee = accounts.chest_vault_account.entry_fee;
    let pieces = secret_pieces(&accounts.chest_vault_account.password);
    let blanks = pieces.len();
    let mut letters: Vec<String> = Vec::new();
    let mut k: usize = 0;
    while k < blanks
        invariant
            k <= blanks,
            letters@.len() == k,
            forall|j: int| 0 <= j < k ==> #[trigger] letters@[j]@ == seq!['_'],
        decreases blanks - k,
    {
        proof {
            reveal_strlit("_");
        }
        letters.push("_".to_owned());
        k = k + 1;
    }
    let item = GameRecord {
        player: signer,
        player_score: 0,
        player_position: 0,
        incorrect_guesses: Vec::new(),
        correct_letters: letters,
        is_winner: false,
    };
    let ghost before = accounts.chest_vault_account.players@;
    accounts.chest_vault_account.players.push(item);
    assert(accounts.chest_vault_account.players@.drop_last() =~= before);
    accounts.chest_vault_account.max_attempts_left = accounts.chest_vault_account.max_attempts_left
        - 1;
    Ok(fee)
}

/// Finds the first record of the player.
fn find_player(players: &Vec<GameRecord>, key: &Pubkey) -> (r: Option<usize>)
    ensures
        match r {
            Some(i) => i as int == first_record(players@, key@) && i < players@.len(),
            None => first_record(players@, key@) == -1,
        },
{
    let n = players.len();
    let mut i: usize = 0;
    while i < n
        invariant
            n == players@.len(),
            i <= n,
            first_record(players@, key@) == first_record_from(players@, key@, i as int),
        decreases n - i,
    {
        if players[i].player == *key {
            return Some(i);
        }
        i = i + 1;
    }
    None
}

/// Checks a refusal of a letter and finds the player's first record.
fn check_letter(players: &Vec<GameRecord>, key: &Pubkey, letter: &String) -> (r: Result<
    usize,
    GameError,
>)
    ensures
        match r {
            Ok(i) => i as int == first_record(players@, key@) && i < players@.len()
                && !has_text(players@[i as int].incorrect_guesses@, letter@) && !has_text(
                players@[i as int].correct_letters@,
                letter@,
            ),
            Err(e) => {
                let first = first_record(players@, key@);
                if first < 0 {
                    e == GameError::NotAPlayer
                } else if has_text(players@[first].incorrect_guesses@, letter@) {
                    e == GameError::AlreadyGuessedIncorrectly
                } else {
                    e == GameError::AlreadyGuessedCorrectly && has_text(
                        players@[first].correct_letters@,
                        letter@,
                    )
                }
            },
        },
{
    match find_player(players, key) {
        None => Err(GameError::NotAPlayer),
        Some(i) => {
            if contains_text(&players[i].incorrect_guesses, letter) {
                return Err(GameError::AlreadyGuessedIncorrectly);
            }
            if contains_text(&players[i].correct_letters, letter) {
                return Err(GameError::AlreadyGuessedCorrectly);
            }
            Ok(i)
        },
    }
}

/// Takes a record out of the list, leaving an empty record in its place.
fn take_record(players: &mut Vec<GameRecord>, i: usize) -> (rec: GameRecord)
    requires
        i < old(players)@.len(),
    ensures
        rec == old(players)@[i as int],
        final(players)@.len() == old(players)@.len(),
        forall|k: int|
            0 <= k < old(players)@.len() && k != i ==> #[trigger] final(players)@[k] == old(
                players,
            )@[k],
{
    let mut rec = GameRecord {
        player: Pubkey::zero(),
        player_score: 0,
        player_position: 0,
        incorrect_guesses: Vec::new(),
        correct_letters: Vec::new(),
        is_winner: false,
    };
    players.set_and_swap(i, &mut rec);
    rec
}

/// A player who has uncovered the word collects the chest: when the first
/// record's position equals the number of pieces (taken as a byte) the
/// chest reward is paid out and no attempts are left; otherwise nothing
/// happens. Refused for a player without a record and for one whose first
/// record has not won.
pub fn get_chest_reward(accounts: &mut GetChestReward) -> (r: Result<Option<u64>, GameError>)
    ensures
        ({
            let v = old(accounts).chest_vault_account;
            let first = first_record(v.players@, old(accounts).player@);
            if first < 0 {
                r == Err::<Option<u64>, GameError>(GameError::NotAPlayer) && *final(accounts)
                    == *old(accounts)
            } else if !v.players@[first].is_winner {
                r == Err::<Option<u64>, GameError>(GameError::NotSolved) && *final(accounts)
                    == *old(accounts)
            } else if v.players@[first].player_position == secret_length(v.password@) % 256 {
                &&& r == Ok::<Option<u64>, GameError>(Some(v.chest_reward))
                &&& final(accounts).chest_vault_account.max_attempts_left == 0
                &&& final(accounts).chest_vault_account.players == v.players
                &&& final(accounts).chest_vault_account.creator == v.creator
                &&& final(accounts).chest_vault_account.chest_reward == v.chest_reward
                &&& final(accounts).chest_vault_account.password == v.password
                &&& final(accounts).chest_vault_account.entry_fee == v.entry_fee
                &&& final(accounts).game_data_account == old(accounts).game_data_account
                &&& final(accounts).player == old(accounts).player
            } else {
                r == Ok::<Option<u64>, GameError>(None) && *final(accounts) == *old(accounts)
            }
        }),
{
    let idx = match find_player(&accounts.chest_vault_account.players, &accounts.player) {
        None => {
            return Err(GameError::NotAPlayer);
        },
        Some(i) => i,
    };
    if !accounts.chest_vault_account.players[idx].is_winner {
        return Err(GameError::NotSolved);
    }
    let reward = accounts.chest_vault_account.chest_reward;
    let pieces = secret_pieces(&accounts.chest_vault_account.password);
    let width: u8 = (pieces.len() % 256) as u8;
    if accounts.chest_vault_account.players[idx].player_position == width {
        accounts.chest_vault_account.max_attempts_left = 0;
        return Ok(Some(reward));
    }
    Ok(None)
}

/// Records a right letter for the player: the letter is written at each of
/// the slots in `indexes`, and the player's first record advances as
/// `record_with_letter` says. Refused as `letter_refusal` says.
pub fn add_correct_letter(accounts: &mut AddCorrectLetter, letter: String, indexes: Vec<u8>) -> (r:
    Result<(), GameError>)
    requires
        letter_refusal(old(accounts).chest_vault_account, old(accounts).player@, letter@) is None
            ==> correct_letter_fits(old(accounts).chest_vault_account, old(accounts).player@, indexes@),
    ensures
        match letter_refusal(old(accounts).chest_vault_account, old(accounts).player@, letter@) {
            Some(e) => r == Err::<(), GameError>(e) && *final(accounts) == *old(accounts),
            None => {
                &&& r == Ok::<(), GameError>(())
                &&& right_letter_added(
                    old(accounts).chest_vault_account,
                    old(accounts).player@,
                    letter,
                    indexes@,
                    final(accounts).chest_vault_account,
                )
                &&& final(accounts).game_data_account == old(accounts).game_data_account
                &&& final(accounts).player == old(accounts).player
            },
        },
{
    let idx = match check_letter(&accounts.chest_vault_account.players, &accounts.player, &letter) {
        Err(e) => {
            return Err(e);
        },
        Ok(i) => i,
    };
    write_letter(accounts, letter, indexes, idx);
    Ok(())
}

/// `add_correct_letter`, for any input: `None`, with nothing changed,
/// exactly when writing the letter would overflow the position, divide by
/// zero, or write past the uncovered letters.
pub fn try_add_correct_letter(
    accounts: &mut AddCorrectLetter,
    letter: String,
    indexes: Vec<u8>,
) -> (r: Option<Result<(), GameError>>)
    ensures
        r is None <==> (letter_refusal(
            old(accounts).chest_vault_account,
            old(accounts).player@,
            letter@,
        ) is None && !correct_letter_fits(
            old(accounts).chest_vault_account,
            old(accounts).player@,
            indexes@,
        )),
        r is None ==> *final(accounts) == *old(accounts),
        r matches Some(res) ==> match letter_refusal(
            old(accounts).chest_vault_account,
            old(accounts).player@,
            letter@,
        ) {
            Some(e) => res == Err::<(), GameError>(e) && *final(accounts) == *old(accounts),
            None => {
                &&& res == Ok::<(), GameError>(())
                &&& right_letter_added(
                    old(accounts).chest_vault_account,
                    old(accounts).player@,
                    letter,
                    indexes@,
                    final(accounts).chest_vault_account,
                )
                &&& final(accounts).game_data_account == old(accounts).game_data_account
                &&& final(accounts).player == old(accounts).player
            },
        },
{
    let idx = match check_letter(&accounts.chest_vault_account.players, &accounts.player, &letter) {
        Err(e) => {
            return Some(Err(e));
        },
        Ok(i) => i,
    };
    if indexes.len() > 0 {
        let pieces = secret_pieces(&accounts.chest_vault_account.password);
        if pieces.len() % 256 == 0 {
            return None;
        }
        let rec = &accounts.chest_vault_account.players[idx];
        if indexes.len() > 255 || rec.player_position as usize + indexes.len() > 255 {
            return None;
        }
        let slots = rec.correct_letters.len();
        let mut k: usize = 0;
        #[verifier::loop_isolation(false)]
        while k < indexes.len()
            invariant
                k <= indexes@.len(),
                forall|j: int| 0 <= j < k ==> #[trigger] indexes@[j] < slots,
            decreases indexes@.len() - k,
        {
            if indexes[k] as usize >= slots {
                return None;
            }
            k = k + 1;
        }
    }
    write_letter(accounts, letter, indexes, idx);
    Some(Ok(()))
}

/// Writes an accepted right letter into the player's first record.
fn write_letter(accounts: &mut AddCorrectLetter, letter: String, indexes: Vec<u8>, idx: usize)
    requires
        letter_refusal(old(accounts).chest_vault_account, old(accounts).player@, letter@) is None,
        correct_letter_fits(old(accounts).chest_vault_account, old(accounts).player@, indexes@),
        idx as int == first_record(old(accounts).chest_vault_account.players@, old(accounts).player@),
        idx < old(accounts).chest_vault_account.players@.len(),
    ensures
        ({
            let v = old(accounts).chest_vault_account;
            let w = final(accounts).chest_vault_account;
            &&& w.players@.len() == v.players@.len()
            &&& forall|k: int|
                0 <= k < v.players@.len() && k != idx ==> #[trigger] w.players@[k] == v.players@[k]
            &&& record_with_letter(
                v.players@[idx as int],
                w.players@[idx as int],
                secret_length(v.password@),
                indexes@,
                letter,
            )
            &&& same_but_players(v, w)
            &&& final(accounts).game_data_account == old(accounts).game_data_account
            &&& final(accounts).player == old(accounts).player
        }),
{
    let pieces = secret_pieces(&accounts.chest_vault_account.password);
    let n = pieces.len();
    let width: u8 = (n % 256) as u8;
    let ghost before = accounts.chest_vault_account.players@[idx as int];
    let mut rec = take_record(&mut accounts.chest_vault_account.players, idx);
    let start = rec.player_position;
    let ghost cor = rec.correct_letters@;
    let mut i: usize = 0;
    while i < indexes.len()
        invariant
            i <= indexes@.len(),
            indexes@.len() > 0 ==> width != 0 && start + indexes@.len() <= 255,
            width == (n % 256) as u8,
            forall|k: int| 0 <= k < indexes@.len() ==> #[trigger] indexes@[k] < cor.len(),
            rec.player == before.player,
            rec.incorrect_guesses == before.incorrect_guesses,
            start == before.player_position,
            rec.player_position == start + i,
            rec.player_score == if i == 0 {
                before.player_score as int
            } else {
                (start + i) % (width as int)
            },
            rec.is_winner == (before.is_winner || (start < width && width <= start + i)),
            rec.correct_letters@ == letters_placed(cor, indexes@.take(i as int), letter),
            cor == before.correct_letters@,
        decreases indexes@.len() - i,
    {
        let index_to_add = indexes[i] as usize;
        rec.player_position = rec.player_position + 1;
        rec.player_score = rec.player_position % width;
        let ghost placed = rec.correct_letters@;
        rec.correct_letters.set(index_to_add, letter.clone());
        if rec.player_position == width {
            rec.is_winner = true;
        }
        proof {
            let taken = indexes@.take(i + 1);
            assert(taken.drop_last() =~= indexes@.take(i as int));
            assert(rec.correct_letters@ =~= letters_placed(cor, taken, letter)) by {
                assert forall|j: int| 0 <= j < cor.len() implies rec.correct_letters@[j]
                    == letters_placed(cor, taken, letter)[j] by {
                    if j == index_to_add {
                        assert(taken[i as int] == j);
                    } else {
                        if exists|k: int| 0 <= k < taken.len() && taken[k] == j {
                            let k = choose|k: int| 0 <= k < taken.len() && taken[k] == j;
                            assert(indexes@.take(i as int)[k] == j);
                        }
                        if exists|k: int|
                            0 <= k < indexes@.take(i as int).len() && indexes@.take(i as int)[k]
                                == j {
                            let k = choose|k: int|
                                0 <= k < indexes@.take(i as int).len() && indexes@.take(
                                    i as int,
                                )[k] == j;
                            assert(taken[k] == j);
                        }
                    }
                }
            }
        }
        i = i + 1;
    }
    assert(indexes@.take(indexes@.len() as int) =~= indexes@);
    accounts.chest_vault_account.players.set(idx, rec);
}

/// Records a wrong letter: it is added to the wrong guesses of the
/// player's first record. Refused as `letter_refusal` says.
pub fn add_incorrect_letter(accounts: &mut AddIncorrectLetter, letter: String) -> (r: Result<
    (),
    GameError,
>)
    ensures
        match letter_refusal(old(accounts).chest_vault_account, old(accounts).player@, letter@) {
            Some(e) => r == Err::<(), GameError>(e) && *final(accounts) == *old(accounts),
            None => {
                &&& r == Ok::<(), GameError>(())
                &&& wrong_letter_added(
                    old(accounts).chest_vault_account,
                    old(accounts).player@,
                    letter,
                    final(accounts).chest_vault_account,
                )
                &&& final(accounts).game_data_account == old(accounts).game_data_account
                &&& final(accounts).player == old(accounts).player
            },
        },
{
    let idx = match check_letter(&accounts.chest_vault_account.players, &accounts.player, &letter) {
        Err(e) => {
            return Err(e);
        },
        Ok(i) => i,
    };
    let mut rec = take_record(&mut accounts.chest_vault_account.players, idx);
    rec.incorrect_guesses.push(letter);
    accounts.chest_vault_account.players.set(idx, rec);
    Ok(())
}

/// The creator ends the game: the players are cleared and the creator
/// leaves the list of creators; the vault is then closed to the signer.
/// Refused for anyone but the creator.
pub fn withdraw(accounts: &mut Withdraw) -> (r: Result<(), GameError>)
    ensures
        old(accounts).signer@ != old(accounts).chest_vault_account.creator@ ==> r == Err::<
            (),
            GameError,
        >(GameError::NotCreator) && *final(accounts) == *old(accounts),
        old(accounts).signer@ == old(accounts).chest_vault_account.creator@ ==> {
            let v = old(accounts).chest_vault_account;
            let w = final(accounts).chest_vault_account;
            &&& r == Ok::<(), GameError>(())
            &&& w.players@.len() == 0
            &&& final(accounts).game_data_account.all_creators@ == without_key(
                old(accounts).game_data_account.all_creators@,
                old(accounts).signer@,
            )
            &&& same_but_players(v, w)
            &&& final(accounts).signer == old(accounts).signer
        },
{
    let signer = accounts.signer;
    if !(signer == accounts.chest_vault_account.creator) {
        return Err(GameError::NotCreator);
    }
    accounts.chest_vault_account.players = Vec::new();
    accounts.game_data_account.all_creators = remove_key(
        &accounts.game_data_account.all_creators,
        &signer,
    );
    Ok(())
}

/// A scoring record of `key` from position `i` on, if there is one.
proof fn lemma_scored_from(players: Seq<GameRecord>, key: Seq<u8>, i: int)
    requires
        0 <= i,
    ensures
        scored_from(players, key, i) matches Some(s) ==> s > 0 && exists|j: int|
            i <= j < players.len() && (#[trigger] players[j]).player@ == key
                && players[j].player_score == s,
        (forall|j: int|
            i <= j < players.len() && (#[trigger] players[j]).player@ == key
                ==> players[j].player_score == 0) ==> scored_from(players, key, i) is None,
        (exists|j: int|
            i <= j < players.len() && (#[trigger] players[j]).player@ == key
                && players[j].player_score > 0) ==> scored_from(players, key, i) is Some,
    decreases players.len() - i,
{
    if i < players.len() {
        lemma_scored_from(players, key, i + 1);
        if exists|j: int|
            i <= j < players.len() && (#[trigger] players[j]).player@ == key
                && players[j].player_score > 0 {
            let j = choose|j: int|
                i <= j < players.len() && (#[trigger] players[j]).player@ == key
                    && players[j].player_score > 0;
            if j != i {
                assert(i + 1 <= j);
            }
        }
    }
}

/// Entering is refused for having played only when a record of the signer
/// has scored: when attempts remain and every record of the signer has
/// a score of 0 (or there is none), the signer may enter; the score that
/// a refusal reports is above 0 and is the score of a record of the
/// signer.
pub proof fn lemma_start_refusal(v: ChestVaultAccount, signer: Pubkey)
    ensures
        v.max_attempts_left != 0 && (forall|j: int|
            0 <= j < v.players@.len() && (#[trigger] v.players@[j]).player@ == signer@
                ==> v.players@[j].player_score == 0) ==> start_refusal(v, signer) is None,
        v.max_attempts_left != 0 && (exists|j: int|
            0 <= j < v.players@.len() && (#[trigger] v.players@[j]).player@ == signer@
                && v.players@[j].player_score > 0) ==> start_refusal(v, signer) matches Some(
            GameError::AlreadyPlayed(_),
        ),
        start_refusal(v, signer) matches Some(GameError::AlreadyPlayed(s)) ==> s > 0
            && exists|j: int|
            0 <= j < v.players@.len() && (#[trigger] v.players@[j]).player@ == signer@
                && v.players@[j].player_score == s,
{
    lemma_scored_from(v.players@, signer@, 0);
}

/// The first record of a key from position `i` on lies in the list and is
/// that key's, or there is none.
proof fn lemma_first_record_bounds(players: Seq<GameRecord>, key: Seq<u8>, i: int)
    ensures
        first_record_from(players, key, i) == -1 || (i <= first_record_from(players, key, i)
            < players.len() && players[first_record_from(players, key, i)].player@ == key),
    decreases players.len() - i,
{
    if 0 <= i < players.len() {
        lemma_first_record_bounds(players, key, i + 1);
    }
}

/// Recording a right letter at the slots `indexes` for a player with a
/// record: the position grows by one per slot; the letter is written at
/// every named slot and the other slots keep their letters; the score is
/// the new position modulo the number of pieces of the secret (taken as a
/// byte); and the record is a winner afterwards exactly when it was one
/// before or its position reached the number of pieces during this call.
pub proof fn lemma_right_letter_record(
    v: ChestVaultAccount,
    key: Seq<u8>,
    letter: String,
    indexes: Seq<u8>,
    w: ChestVaultAccount,
)
    requires
        letter_refusal(v, key, letter@) is None,
        correct_letter_fits(v, key, indexes),
        right_letter_added(v, key, letter, indexes, w),
    ensures
        ({
            let first = first_record(v.players@, key);
            let before = v.players@[first];
            let after = w.players@[first];
            let width = (secret_length(v.password@) % 256) as int;
            let pos = before.player_position + indexes.len();
            &&& 0 <= first < v.players@.len()
            &&& after.player == before.player
            &&& after.player_position == pos
            &&& after.is_winner ==> before.is_winner || pos >= width
            &&& !before.is_winner && before.player_position < width && width <= pos
                ==> after.is_winner
            &&& before.is_winner ==> after.is_winner
            &&& indexes.len() > 0 ==> after.player_score == pos % width
            &&& indexes.len() == 0 ==> after.player_score == before.player_score
            &&& after.correct_letters@.len() == before.correct_letters@.len()
            &&& forall|k: int|
                0 <= k < indexes.len() ==> after.correct_letters@[#[trigger] indexes[k] as int]
                    == letter
            &&& forall|j: int|
                0 <= j < before.correct_letters@.len() && !(exists|k: int|
                    0 <= k < indexes.len() && indexes[k] == j) ==> #[trigger] after.correct_letters@[j]
                    == before.correct_letters@[j]
            &&& after.incorrect_guesses == before.incorrect_guesses
        }),
{
    lemma_first_record_bounds(v.players@, key, 0);
    let first = first_record(v.players@, key);
    let before = v.players@[first];
    let after = w.players@[first];
    assert forall|k: int| 0 <= k < indexes.len() implies after.correct_letters@[
        #[trigger] indexes[k] as int] == letter by {
        assert(indexes[k] < before.correct_letters@.len());
    }
}

} // verus!

//! The first hangman: the secret is stored as its pieces separated by
//! `(*)(*)`, each player's uncovered letters are one comma-separated string
//! that starts as one `*` per piece, and the client says whether a guess
//! is right and at which slots it belongs.
use vstd::prelude::*;
use vstd::utf8::encode_utf8;
use crate::key::{Pubkey, sweep, sweep_keys};
use crate::text::{
    chars_of, copy_chars, join, join_chars, parse_index, parse_usize, split, split_chars,
    string_from_chars,
};

verus! {

/// An error raised by password hashing.
#[derive(Debug, Clone, Copy, PartialEq, Eq, Structural)]
pub enum BcryptError {
    Error,
}

/// An error raised for a wrong password.
#[derive(Debug, Clone, Copy, PartialEq, Eq, Structural)]
pub enum MyError {
    WrongPassword,
}

/// The list of the accounts that run games.
pub struct GameDataAccount {
    pub all_authorities: Vec<Pubkey>,
}

/// One player's progress.
pub struct GameRecord {
    pub player: Pubkey,
    pub player_score: u8,
    pub correct_letters: String,
    pub incorrect_letters: String,
}

/// The account that holds the chest, the secret and the players.
pub struct ChestVaultAccount {
    pub authority: Pubkey,
    pub chest_reward: u64,
    pub password: String,
    pub max_attempts_left: u8,
    pub entry_fee: u64,
    pub player_list: Vec<GameRecord>,
    pub solved: bool,
}

/// The accounts of a call that sets up a game.
pub struct InitializeLevelOne {
    pub new_game_data_account: GameDataAccount,
    pub chest_vault_account: ChestVaultAccount,
    pub signer: Pubkey,
}

/// The accounts of a call by which a player enters.
pub struct PlayerStartsGame {
    pub game_data_account: GameDataAccount,
    pub chest_vault_account: ChestVaultAccount,
    pub signer: Pubkey,
}

/// The accounts of a call that reports a guess.
pub struct GuessLetter {
    pub game_data_account: GameDataAccount,
    pub chest_vault_account: ChestVaultAccount,
    pub player: Pubkey,
}

/// The accounts of a call by which the authority takes back the chest.
pub struct Withdraw {
    pub game_data_account: GameDataAccount,
    pub chest_vault_account: ChestVaultAccount,
    pub signer: Pubkey,
}

/// Why a call is refused.
#[derive(Debug, Clone, Copy, PartialEq, Eq, Structural)]
pub enum GameError {
    /// The secret has been found already.
    AlreadySolved,
    /// No attempts are left.
    NoAttemptsLeft,
    /// The player has no record.
    PlayerNotFound,
    /// The signer is not the authority of the chest.
    NotAuthority,
}

/// The separator between the pieces of the secret.
pub open spec fn separator() -> Seq<char> {
    "(*)(*)"@
}

/// The separator between slots and between indexes.
pub open spec fn comma() -> Seq<char> {
    ","@
}

/// The number of pieces of the secret.
pub open spec fn secret_length(password: Seq<char>) -> nat {
    split(password, separator()).len()
}

/// The position of the first record of `key`, from `i` on, or -1.
pub open spec fn first_record_from(players: Seq<GameRecord>, key: Seq<u8>, i: int) -> int
    decreases players.len() - i,
{
    if i < 0 || i >= players.len() {
        -1
    } else if players[i].player@ == key {
        i
    } else {
        first_record_from(players, key, i + 1)
    }
}

/// The position of the first record of `key`, or -1.
pub open spec fn first_record(players: Seq<GameRecord>, key: Seq<u8>) -> int {
    first_record_from(players, key, 0)
}

/// Whether every index reads as a slot number below `bound`.
pub open spec fn indexes_in(pieces: Seq<Seq<char>>, bound: nat) -> bool {
    forall|k: int|
        0 <= k < pieces.len() ==> (#[trigger] parse_usize(pieces[k])) is Some && parse_usize(
            pieces[k],
        )->0 < bound
}

/// The slots with `letter` in each slot that an index names.
pub open spec fn slots_filled(slots: Seq<Seq<char>>, pieces: Seq<Seq<char>>, letter: Seq<char>) -> Seq<
    Seq<char>,
> {
    Seq::new(
        slots.len(),
        |i: int|
            if exists|k: int| 0 <= k < pieces.len() && parse_usize(pieces[k]) == Some(i as usize) {
                letter
            } else {
                slots[i]
            },
    )
}

/// Whether a reported right guess can be written: every index reads as a
/// slot of the first record's slots, and the score can grow by the number
/// of indexes (taken as a byte).
pub open spec fn guess_fits(v: ChestVaultAccount, key: Seq<u8>, valid: bool, valid_indexes: Seq<char>) -> bool {
    let first = first_record(v.player_list@, key);
    let pieces = split(valid_indexes, comma());
    let slots = split(v.player_list@[0].correct_letters@, comma());
    first >= 0 && valid ==> {
        &&& indexes_in(pieces, slots.len())
        &&& v.player_list@[first].player_score + pieces.len() % 256 <= 255
    }
}

/// The player's record after a guess: a right guess writes the letter into
/// the named slots of the first record's slots, joins them with commas, and
/// adds the number of indexes (taken as a byte) to the score; a wrong guess
/// changes nothing.
pub open spec fn record_after_guess(
    v: ChestVaultAccount,
    before: GameRecord,
    after: GameRecord,
    letter: Seq<char>,
    valid: bool,
    valid_indexes: Seq<char>,
) -> bool {
    let pieces = split(valid_indexes, comma());
    let slots = split(v.player_list@[0].correct_letters@, comma());
    if valid {
        &&& after.player == before.player
        &&& after.incorrect_letters == before.incorrect_letters
        &&& after.correct_letters@ == join(slots_filled(slots, pieces, letter), comma())
        &&& after.player_score == before.player_score + pieces.len() % 256
    } else {
        after == before
    }
}

/// The pieces of a secret.
fn secret_pieces(password: &String) -> (pieces: Vec<Vec<char>>)
    ensures
        pieces@.len() == split(password@, separator()).len(),
{
    let text = chars_of(password.as_str());
    let sep = chars_of("(*)(*)");
    proof {
        reveal_strlit("(*)(*)");
    }
    split_chars(&text, &sep)
}

/// The comma-separated pieces of a text.
fn comma_pieces(s: &String) -> (pieces: Vec<Vec<char>>)
    ensures
        pieces@.len() == split(s@, comma()).len(),
        forall|k: int| 0 <= k < pieces@.len() ==> #[trigger] pieces@[k]@ == split(s@, comma())[k],
{
    let text = chars_of(s.as_str());
    let sep = chars_of(",");
    proof {
        reveal_strlit(",");
    }
    split_chars(&text, &sep)
}

/// Sets up a game: the chest reward, the number of attempts, the entry fee
/// and the secret are recorded and the players are cleared. Returns the
/// chest reward that the signer pays into the vault.
pub fn initialize_level_one(
    accounts: &mut InitializeLevelOne,
    chest_reward: u64,
    password: String,
    max_attempts: u8,
    entry_fee: u64,
) -> (deposit: u64)
    ensures
        deposit == chest_reward,
        final(accounts).chest_vault_account.chest_reward == chest_reward,
        final(accounts).chest_vault_account.max_attempts_left == max_attempts,
        final(accounts).chest_vault_account.entry_fee == entry_fee,
        !final(accounts).chest_vault_account.solved,
        final(accounts).chest_vault_account.player_list@.len() == 0,
        final(accounts).chest_vault_account.password == password,
        final(accounts).chest_vault_account.authority
            == old(accounts).chest_vault_account.authority,
        final(accounts).new_game_data_account == old(accounts).new_game_data_account,
        final(accounts).signer == old(accounts).signer,
{
    accounts.chest_vault_account.chest_reward = chest_reward;
    accounts.chest_vault_account.max_attempts_left = max_attempts;
    accounts.chest_vault_account.entry_fee = entry_fee;
    accounts.chest_vault_account.solved = false;
    accounts.chest_vault_account.player_list = Vec::new();
    accounts.chest_vault_account.password = password;
    chest_reward
}

/// A player enters: a record whose uncovered letters are one `*` per piece
/// of the secret is added and one attempt is used up. Returns the entry
/// fee that the signer pays into the vault. Refused once the secret is
/// found and when no attempts are left.
pub fn player_starts_game(accounts: &mut PlayerStartsGame) -> (r: Result<u64, GameError>)
    ensures
        old(accounts).chest_vault_account.solved ==> r == Err::<u64, GameError>(
            GameError::AlreadySolved,
        ) && *final(accounts) == *old(accounts),
        !old(accounts).chest_vault_account.solved && old(accounts).chest_vault_account.max_attempts_left
            == 0 ==> r == Err::<u64, GameError>(GameError::NoAttemptsLeft) && *final(accounts)
            == *old(accounts),
        !old(accounts).chest_vault_account.solved && old(accounts).chest_vault_account.max_attempts_left
            != 0 ==> {
            let v = old(accounts).chest_vault_account;
            let w = final(accounts).chest_vault_account;
            let rec = w.player_list@.last();
            &&& r == Ok::<u64, GameError>(v.entry_fee)
            &&& w.player_list@.len() == v.player_list@.len() + 1
            &&& w.player_list@.drop_last() == v.player_list@
            &&& rec.player == old(accounts).signer
            &&& rec.player_score == 0
            &&& rec.correct_letters@ == Seq::new(secret_length(v.password@), |i: int| '*')
            &&& rec.incorrect_letters@.len() == 0
            &&& w.max_attempts_left == v.max_attempts_left - 1
            &&& w.authority == v.authority
            &&& w.chest_reward == v.chest_reward
            &&& w.password == v.password
            &&& w.entry_fee == v.entry_fee
            &&& w.solved == v.solved
            &&& final(accounts).game_data_account == old(accounts).game_data_account
            &&& final(accounts).signer == old(accounts).signer
        },
{
    let pieces = secret_pieces(&accounts.chest_vault_account.password);
    if accounts.chest_vault_account.solved {
        return Err(GameError::AlreadySolved);
    }
    if accounts.chest_vault_account.max_attempts_left == 0 {
        return Err(GameError::NoAttemptsLeft);
    }
    let fee = accounts.chest_vault_account.entry_fee;
    let n = pieces.len();
    let mut blanks = String::new();
    let mut i: usize = 0;
    while i < n
        invariant
            i <= n,
            blanks@ == Seq::new(i as nat, |j: int| '*'),
        decreases n - i,
    {
        proof {
            reveal_strlit("*");
        }
        blanks.append("*");
        i = i + 1;
        assert(blanks@ =~= Seq::new(i as nat, |j: int| '*'));
    }
    let item = GameRecord {
        player: accounts.signer,
        player_score: 0,
        correct_letters: blanks,
        incorrect_letters: String::new(),
    };
    let ghost before = accounts.chest_vault_account.player_list@;
    accounts.chest_vault_account.player_list.push(item);
    assert(accounts.chest_vault_account.player_list@.drop_last() =~= before);
    accounts.chest_vault_account.max_attempts_left = accounts.chest_vault_account.max_attempts_left
        - 1;
    Ok(fee)
}

/// What a guess makes of the vault and what it returns: the player's first
/// record changes as `record_after_guess` says, and when that record's
/// uncovered letters then take as many bytes as the secret has pieces, the
/// game is solved and the chest reward is paid out.
pub open spec fn guess_done(
    v: ChestVaultAccount,
    key: Seq<u8>,
    letter: Seq<char>,
    valid: bool,
    valid_indexes: Seq<char>,
    w: ChestVaultAccount,
    r: Result<Option<u64>, GameError>,
) -> bool {
    let first = first_record(v.player_list@, key);
    let after = w.player_list@[first];
    let done = encode_utf8(after.correct_letters@).len() as usize == secret_length(v.password@);
    &&& w.player_list@.len() == v.player_list@.len()
    &&& forall|k: int|
        0 <= k < v.player_list@.len() && k != first ==> #[trigger] w.player_list@[k]
            == v.player_list@[k]
    &&& record_after_guess(v, v.player_list@[first], after, letter, valid, valid_indexes)
    &&& if done {
        r == Ok::<Option<u64>, GameError>(Some(v.chest_reward)) && w.solved
    } else {
        r == Ok::<Option<u64>, GameError>(None) && w.solved == v.solved
    }
    &&& w.authority == v.authority
    &&& w.chest_reward == v.chest_reward
    &&& w.password == v.password
    &&& w.max_attempts_left == v.max_attempts_left
    &&& w.entry_fee == v.entry_fee
}

/// Finds the first record of the player.
fn find_player(players: &Vec<GameRecord>, key: &Pubkey) -> (r: Option<usize>)
    ensures
        match r {
            Some(i) => i as int == first_record(players@, key@) && i < players@.len(),
            None => first_record(players@, key@) == -1,
        },
{
    let n = players.len();
    let mut i: usize = 0;
    while i < n
        invariant
            n == players@.len(),
            i <= n,
            first_record(players@, key@) == first_record_from(players@, key@, i as int),
        decreases n - i,
    {
        if players[i].player == *key {
            return Some(i);
        }
        i = i + 1;
    }
    None
}

/// Reports a guess for the player. A right guess (`valid`) writes the
/// letter into the slots named by the comma-separated `valid_indexes` and
/// raises the score; when the player's uncovered letters then take as many
/// bytes as the secret has pieces, the game is solved and the chest reward
/// is returned for payment to the player. Refused for a player without a
/// record.
pub fn guess_letter(
    accounts: &mut GuessLetter,
    letter: String,
    valid: bool,
    valid_indexes: String,
) -> (r: Result<Option<u64>, GameError>)
    requires
        old(accounts).chest_vault_account.player_list@.len() > 0,
        guess_fits(old(accounts).chest_vault_account, old(accounts).player@, valid, valid_indexes@),
    ensures
        first_record(old(accounts).chest_vault_account.player_list@, old(accounts).player@) < 0
            ==> r == Err::<Option<u64>, GameError>(GameError::PlayerNotFound) && *final(accounts)
            == *old(accounts),
        first_record(old(accounts).chest_vault_account.player_list@, old(accounts).player@) >= 0
            ==> guess_done(
            old(accounts).chest_vault_account,
            old(accounts).player@,
            letter@,
            valid,
            valid_indexes@,
            final(accounts).chest_vault_account,
            r,
        ) && final(accounts).game_data_account == old(accounts).game_data_account
            && final(accounts).player == old(accounts).player,
{
    let idx = match find_player(&accounts.chest_vault_account.player_list, &accounts.player) {
        None => {
            return Err(GameError::PlayerNotFound);
        },
        Some(i) => i,
    };
    let ghost v = accounts.chest_vault_account;
    if valid {
        let pieces = comma_pieces(&valid_indexes);
        let mut slots = comma_pieces(&accounts.chest_vault_account.player_list[0].correct_letters);
        let ghost spieces = split(valid_indexes@, comma());
        let ghost sslots = split(v.player_list@[0].correct_letters@, comma());
        let letter_chars = chars_of(letter.as_str());
        let np = pieces.len();
        let ns = slots.len();
        let mut k: usize = 0;
        while k < np
            invariant
                np == pieces@.len(),
                np == spieces.len(),
                forall|j: int| 0 <= j < np ==> #[trigger] pieces@[j]@ == spieces[j],
                indexes_in(spieces, sslots.len()),
                ns == sslots.len(),
                slots@.len() == ns,
                letter_chars@ == letter@,
                k <= np,
                forall|i: int|
                    0 <= i < ns ==> #[trigger] slots@[i]@ == slots_filled(
                        sslots,
                        spieces.take(k as int),
                        letter@,
                    )[i],
            decreases np - k,
        {
            let slot = parse_index(&pieces[k]);
            proof {
                assert(parse_usize(spieces[k as int]) is Some);
            }
            let s = slot.unwrap();
            slots.set(s, copy_chars(&letter_chars));
            proof {
                let taken = spieces.take(k + 1);
                let prev = spieces.take(k as int);
                assert(taken.drop_last() =~= prev);
                assert forall|i: int| 0 <= i < ns implies #[trigger] slots@[i]@ == slots_filled(
                    sslots,
                    taken,
                    letter@,
                )[i] by {
                    if i == s {
                        assert(parse_usize(taken[k as int]) == Some(i as usize));
                    } else {
                        if exists|j: int|
                            0 <= j < taken.len() && parse_usize(taken[j]) == Some(i as usize) {
                            let j = choose|j: int|
                                0 <= j < taken.len() && parse_usize(taken[j]) == Some(i as usize);
                            assert(prev[j] == taken[j]);
                        }
                        if exists|j: int|
                            0 <= j < prev.len() && parse_usize(prev[j]) == Some(i as usize) {
                            let j = choose|j: int|
                                0 <= j < prev.len() && parse_usize(prev[j]) == Some(i as usize);
                            assert(prev[j] == taken[j]);
                        }
                    }
                }
            }
            k = k + 1;
        }
        let comma_chars = chars_of(",");
        proof {
            reveal_strlit(",");
            assert(spieces.take(np as int) =~= spieces);
            assert(slots@.map_values(|p: Vec<char>| p@) =~= slots_filled(sslots, spieces, letter@));
        }
        let joined = join_chars(&slots, &comma_chars);
        let text = string_from_chars(&joined);
        let mut rec = take_record(&mut accounts.chest_vault_account.player_list, idx);
        rec.correct_letters = text;
        rec.player_score = rec.player_score + (np % 256) as u8;
        accounts.chest_vault_account.player_list.set(idx, rec);
    }
    let n = secret_pieces(&accounts.chest_vault_account.password).len();
    if accounts.chest_vault_account.player_list[idx].correct_letters.as_str().len() == n {
        accounts.chest_vault_account.solved = true;
        return Ok(Some(accounts.chest_vault_account.chest_reward));
    }
    Ok(None)
}

/// `guess_letter`, for any input: `None`, with nothing changed, exactly
/// when the list of players is empty, or, for a right guess by a listed
/// player, when an index is not a slot number or the score would overflow.
pub fn try_guess_letter(
    accounts: &mut GuessLetter,
    letter: String,
    valid: bool,
    valid_indexes: String,
) -> (r: Option<Result<Option<u64>, GameError>>)
    ensures
        r is None <==> (old(accounts).chest_vault_account.player_list@.len() == 0 || !guess_fits(
            old(accounts).chest_vault_account,
            old(accounts).player@,
            valid,
            valid_indexes@,
        )),
        r is None ==> *final(accounts) == *old(accounts),
        r matches Some(res) ==> {
            let first = first_record(
                old(accounts).chest_vault_account.player_list@,
                old(accounts).player@,
            );
            &&& first < 0 ==> res == Err::<Option<u64>, GameError>(GameError::PlayerNotFound)
                && *final(accounts) == *old(accounts)
            &&& first >= 0 ==> guess_done(
                old(accounts).chest_vault_account,
                old(accounts).player@,
                letter@,
                valid,
                valid_indexes@,
                final(accounts).chest_vault_account,
                res,
            ) && final(accounts).game_data_account == old(accounts).game_data_account
                && final(accounts).player == old(accounts).player
        },
{
    if accounts.chest_vault_account.player_list.len() == 0 {
        return None;
    }
    match find_player(&accounts.chest_vault_account.player_list, &accounts.player) {
        None => {},
        Some(idx) => {
            if valid {
                let pieces = comma_pieces(&valid_indexes);
                let slots = comma_pieces(
                    &accounts.chest_vault_account.player_list[0].correct_letters,
                );
                let ghost spieces = split(valid_indexes@, comma());
                let ns = slots.len();
                let np = pieces.len();
                let mut k: usize = 0;
                #[verifier::loop_isolation(false)]
                while k < np
                    invariant
                        k <= np,
                        forall|j: int|
                            0 <= j < k ==> (#[trigger] parse_usize(spieces[j])) is Some
                                && parse_usize(spieces[j])->0 < ns,
                    decreases np - k,
                {
                    match parse_index(&pieces[k]) {
                        None => {
                            assert(pieces@[k as int]@ == spieces[k as int]);
                            return None;
                        },
                        Some(s) => {
                            if s >= ns {
                                assert(pieces@[k as int]@ == spieces[k as int]);
                                return None;
                            }
                        },
                    }
                    assert(pieces@[k as int]@ == spieces[k as int]);
                    k = k + 1;
                }
                if accounts.chest_vault_account.player_list[idx].player_score as usize + np % 256
                    > 255 {
                    return None;
                }
            }
        },
    }
    Some(guess_letter(accounts, letter, valid, valid_indexes))
}

/// Takes a record out of the list, leaving an empty record in its place.
fn take_record(players: &mut Vec<GameRecord>, i: usize) -> (rec: GameRecord)
    requires
        i < old(players)@.len(),
    ensures
        rec == old(players)@[i as int],
        final(players)@.len() == old(players)@.len(),
        forall|k: int|
            0 <= k < old(players)@.len() && k != i ==> #[trigger] final(players)@[k] == old(
                players,
            )@[k],
{
    let mut rec = GameRecord {
        player: Pubkey::zero(),
        player_score: 0,
        correct_letters: String::new(),
        incorrect_letters: String::new(),
    };
    players.set_and_swap(i, &mut rec);
    rec
}

/// The authority takes the chest's balance above `rent_epoch * 5000`
/// lamports, clears the players, and is swept out of the list of
/// authorities as `sweep` describes; by `lemma_sweep_whole` the sweep goes
/// through exactly when the authority is listed nowhere but last, and then
/// leaves the list without it. Refused for anyone but the authority.
pub fn withdraw(accounts: &mut Withdraw, vault_lamports: u64, rent_epoch: u64) -> (r: Result<
    u64,
    GameError,
>)
    requires
        rent_epoch * 5000 <= vault_lamports,
        old(accounts).signer@ == old(accounts).chest_vault_account.authority@ ==> sweep(
            old(accounts).game_data_account.all_authorities@,
            old(accounts).chest_vault_account.authority@,
            0,
            old(accounts).game_data_account.all_authorities@.len() as int,
        ) is Some,
    ensures
        old(accounts).signer@ != old(accounts).chest_vault_account.authority@ ==> r == Err::<
            u64,
            GameError,
        >(GameError::NotAuthority) && *final(accounts) == *old(accounts),
        old(accounts).signer@ == old(accounts).chest_vault_account.authority@ ==> {
            let v = old(accounts).chest_vault_account;
            let w = final(accounts).chest_vault_account;
            &&& r == Ok::<u64, GameError>((vault_lamports - rent_epoch * 5000) as u64)
            &&& w.player_list@.len() == 0
            &&& Some(final(accounts).game_data_account.all_authorities@) == sweep(
                old(accounts).game_data_account.all_authorities@,
                v.authority@,
                0,
                old(accounts).game_data_account.all_authorities@.len() as int,
            )
            &&& w.authority == v.authority
            &&& w.chest_reward == v.chest_reward
            &&& w.password == v.password
            &&& w.max_attempts_left == v.max_attempts_left
            &&& w.entry_fee == v.entry_fee
            &&& w.solved == v.solved
            &&& final(accounts).signer == old(accounts).signer
        },
{
    let balance = vault_lamports - rent_epoch * 5000;
    let authority = accounts.chest_vault_account.authority;
    if !(accounts.signer == authority) {
        return Err(GameError::NotAuthority);
    }
    accounts.chest_vault_account.player_list = Vec::new();
    match sweep_keys(&accounts.game_data_account.all_authorities, &authority) {
        Some(kept) => {
            accounts.game_data_account.all_authorities = kept;
        },
        None => {},
    }
    Ok(balance)
}

/// What a reported guess does for a listed player: a wrong guess leaves
/// every record as it was; a right guess changes only the player's first
/// record, keeping its player and wrong letters and raising its score by
/// the number of reported indexes (taken as a byte). Either way the chest
/// reward is paid, and the game marked solved, exactly when that record's
/// uncovered letters then take as many bytes as the secret has pieces;
/// otherwise nothing is paid and the game stays as it was.
pub proof fn lemma_guess_effect(
    v: ChestVaultAccount,
    key: Seq<u8>,
    letter: Seq<char>,
    valid: bool,
    valid_indexes: Seq<char>,
    w: ChestVaultAccount,
    r: Result<Option<u64>, GameError>,
)
    requires
        first_record(v.player_list@, key) >= 0,
        guess_done(v, key, letter, valid, valid_indexes, w, r),
    ensures
        ({
            let first = first_record(v.player_list@, key);
            let before = v.player_list@[first];
            let after = w.player_list@[first];
            let count = split(valid_indexes, comma()).len();
            let pieces = split(v.password@, separator()).len();
            let done = encode_utf8(after.correct_letters@).len() as usize == pieces;
            &&& w.player_list@.len() == v.player_list@.len()
            &&& forall|k: int|
                0 <= k < v.player_list@.len() && k != first ==> #[trigger] w.player_list@[k]
                    == v.player_list@[k]
            &&& !valid ==> after == before
            &&& valid ==> after.player == before.player && after.incorrect_letters
                == before.incorrect_letters && after.player_score == before.player_score + count
                % 256
            &&& done ==> r == Ok::<Option<u64>, GameError>(Some(v.chest_reward)) && w.solved
            &&& !done ==> r == Ok::<Option<u64>, GameError>(None) && w.solved == v.solved
            &&& w.chest_reward == v.chest_reward && w.password == v.password
                && w.max_attempts_left == v.max_attempts_left && w.authority == v.authority
        }),
{
}

} // verus!

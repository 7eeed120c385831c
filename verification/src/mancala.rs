//! Mancala between two players for a shared pot.
//!
//! The board has fourteen pits. Pits 1 to 6 hold player one's stones and
//! pit 7 is player one's store; pits 8 to 13 hold player two's stones and
//! pit 0 is player two's store. A move takes every stone out of one of the
//! mover's pits and sows them one by one into the following pits, wrapping
//! around after pit 13 and passing over the opponent's store.
use vstd::prelude::*;
use crate::key::{Pubkey, remove_first_key, without_first, zero_key};

verus! {

/// The list of every account that opened a game.
pub struct GameDataAccount {
    pub all_authorities: Vec<Pubkey>,
}

/// The score sheet of one game.
pub struct GameRecord {
    pub player_one: Pubkey,
    pub player_one_score: u8,
    pub player_two: Pubkey,
    pub player_two_score: u8,
    pub total_moves: u8,
    pub current_move: Pubkey,
    pub game_over: bool,
    pub winner: Pubkey,
}

/// The account that holds the pot, the board and the score sheet.
pub struct ChestVaultAccount {
    pub authority: Pubkey,
    pub chest_reward: u64,
    pub password: String,
    pub entry_fee: u64,
    pub score_sheet: GameRecord,
    pub game_board: [u8; 14],
}

/// The accounts of a call that opens a game.
pub struct InitializeGameData {
    pub game_data_account: GameDataAccount,
    pub chest_vault_account: ChestVaultAccount,
    pub signer: Pubkey,
}

/// The accounts of a call by which a second player joins.
pub struct PlayerJoinsGame {
    pub chest_vault_account: ChestVaultAccount,
    pub signer: Pubkey,
}

/// The accounts of a call that makes a move.
pub struct MakeMove {
    pub chest_vault_account: ChestVaultAccount,
    pub signer: Pubkey,
}

/// The accounts of a call by which the winner collects the pot.
pub struct Withdraw {
    pub game_data_account: GameDataAccount,
    pub chest_vault_account: ChestVaultAccount,
    pub signer: Pubkey,
}

/// Why a call is refused.
#[derive(Debug, Clone, Copy, PartialEq, Eq, Structural)]
pub enum MancalaError {
    /// Both seats are taken.
    GameIsFull,
    /// The pit is a store or is not on the mover's side.
    InvalidPit,
    /// The signer holds neither seat.
    NotInGame,
    /// The other player is to move.
    NotYourTurn,
    /// The chosen pit holds no stone.
    PitEmpty,
    /// The game has not ended.
    GameNotOver,
    /// The signer is not the winner.
    NotWinner,
}

/// The board that a new game starts from.
pub open spec fn initial_board() -> Seq<u8> {
    seq![0u8, 4, 4, 4, 4, 4, 4, 0, 4, 4, 4, 4, 4, 4]
}

/// The board as mathematical integers.
pub open spec fn ints(b: Seq<u8>) -> Seq<int> {
    b.map_values(|x: u8| x as int)
}

/// Wide counts as mathematical integers.
pub open spec fn wide(b: Seq<u32>) -> Seq<int> {
    b.map_values(|x: u32| x as int)
}

/// The number of stones on a board.
pub open spec fn total(b: Seq<int>) -> int
    decreases b.len(),
{
    if b.len() == 0 {
        0
    } else {
        total(b.drop_last()) + b.last()
    }
}

/// Which player moves: 1 when player one is to move, 2 otherwise.
pub open spec fn mover(rec: GameRecord) -> int {
    if rec.current_move@ == rec.player_one@ {
        1
    } else {
        2
    }
}

/// The pit the next stone drops into when sowing has reached `pit`: pit 14
/// wraps round to pit 0, and the opponent's store is passed over.
pub open spec fn landing_pit(pit: int, who: int) -> int {
    let p = if pit == 14 {
        0
    } else {
        pit
    };
    if p == 0 && who == 1 {
        1
    } else if p == 7 && who == 2 {
        8
    } else {
        p
    }
}

/// Sows `stones` stones from `pit` onwards; gives the board and the pit
/// that follows the last one sown into.
pub open spec fn sow(b: Seq<int>, pit: int, stones: nat, who: int) -> (Seq<int>, int)
    decreases stones,
{
    if stones == 0 {
        (b, pit)
    } else {
        let p = landing_pit(pit, who);
        sow(b.update(p, b[p] + 1), p + 1, (stones - 1) as nat, who)
    }
}

/// The board right after sowing the stones of `pit`, and the pit the last
/// stone landed in.
pub open spec fn sown(b: Seq<u8>, pit: int, who: int) -> (Seq<int>, int) {
    let r = sow(ints(b).update(pit, 0), pit + 1, b[pit] as nat, who);
    (r.0, r.1 - 1)
}

/// A capture: when the last stone lands in an empty pit on the mover's side
/// and the pit opposite holds stones, both pits go to the mover's store.
pub open spec fn capture(b: Seq<int>, last: int, who: int) -> Seq<int> {
    let opp = 14 - last;
    if last == 0 || last == 7 {
        b
    } else if who == 1 {
        if b[last] == 1 && b[opp] != 0 && last < 7 && last > 0 {
            b.update(7, b[7] + b[opp] + 1).update(last, 0).update(opp, 0)
        } else {
            b
        }
    } else {
        if b[last] == 1 && b[opp] != 0 && last < 14 && last > 7 {
            b.update(0, b[0] + b[opp] + 1).update(last, 0).update(opp, 0)
        } else {
            b
        }
    }
}

/// The board after the whole move: sowing, then any capture.
pub open spec fn board_after(b: Seq<u8>, pit: int, who: int) -> Seq<int> {
    let s = sown(b, pit, who);
    capture(s.0, s.1, who)
}

/// Whether the mover's six pits are all empty.
pub open spec fn side_cleared(b: Seq<int>, who: int) -> bool {
    if who == 1 {
        b[1] == 0 && b[2] == 0 && b[3] == 0 && b[4] == 0 && b[5] == 0 && b[6] == 0
    } else {
        b[8] == 0 && b[9] == 0 && b[10] == 0 && b[11] == 0 && b[12] == 0 && b[13] == 0
    }
}

/// The winner by the stores: player one when store 7 holds more, player
/// two when store 0 holds more, the zero address on a tie.
pub open spec fn leader(b: Seq<int>, rec: GameRecord) -> Seq<u8> {
    if b[7] > b[0] {
        rec.player_one@
    } else if b[7] < b[0] {
        rec.player_two@
    } else {
        zero_key()
    }
}

/// Who moves next: the mover again when the last stone fell into the
/// mover's own store, the other player otherwise.
pub open spec fn next_to_move(rec: GameRecord, last: int, who: int) -> Pubkey {
    if last == 7 && who == 1 {
        rec.player_one
    } else if last == 0 && who == 2 {
        rec.player_two
    } else if who == 1 {
        rec.player_two
    } else {
        rec.player_one
    }
}

/// Why a move is refused, checked in this order: a store was chosen, the
/// signer holds no seat, it is not the signer's turn, the pit is not on the
/// signer's side, the pit is empty.
pub open spec fn move_refusal(vault: ChestVaultAccount, signer: Pubkey, pit: int) -> Option<
    MancalaError,
> {
    let rec = vault.score_sheet;
    if pit == 0 || pit == 7 {
        Some(MancalaError::InvalidPit)
    } else if rec.player_one@ != signer@ && rec.player_two@ != signer@ {
        Some(MancalaError::NotInGame)
    } else if rec.current_move@ != signer@ {
        Some(MancalaError::NotYourTurn)
    } else if signer@ == rec.player_one@ && (pit < 1 || pit > 6) {
        Some(MancalaError::InvalidPit)
    } else if signer@ != rec.player_one@ && (pit < 8 || pit > 13) {
        Some(MancalaError::InvalidPit)
    } else if vault.game_board[pit] == 0 {
        Some(MancalaError::PitEmpty)
    } else {
        None
    }
}

/// Whether every count of the move fits in a byte: the pits while sowing,
/// the pits after a capture, and the move counter.
pub open spec fn move_fits(vault: ChestVaultAccount, pit: int) -> bool {
    let who = mover(vault.score_sheet);
    let s = sown(vault.game_board@, pit, who);
    let a = board_after(vault.game_board@, pit, who);
    &&& forall|k: int| 0 <= k < 14 ==> #[trigger] s.0[k] <= 255
    &&& forall|k: int| 0 <= k < 14 ==> #[trigger] a[k] <= 255
    &&& vault.score_sheet.total_moves < 255
}

proof fn lemma_total_update(b: Seq<int>, i: int, v: int)
    requires
        0 <= i < b.len(),
    ensures
        total(b.update(i, v)) == total(b) - b[i] + v,
    decreases b.len(),
{
    if i == b.len() - 1 {
        assert(b.update(i, v).drop_last() =~= b.drop_last());
    } else {
        lemma_total_update(b.drop_last(), i, v);
        assert(b.update(i, v).drop_last() =~= b.drop_last().update(i, v));
    }
}

proof fn lemma_total_bounds_each(b: Seq<int>, i: int)
    requires
        0 <= i < b.len(),
        forall|k: int| 0 <= k < b.len() ==> b[k] >= 0,
    ensures
        b[i] <= total(b),
        total(b) >= 0,
    decreases b.len(),
{
    if i == b.len() - 1 {
        lemma_total_nonneg(b.drop_last());
    } else {
        lemma_total_bounds_each(b.drop_last(), i);
    }
}

proof fn lemma_total_nonneg(b: Seq<int>)
    requires
        forall|k: int| 0 <= k < b.len() ==> b[k] >= 0,
    ensures
        total(b) >= 0,
    decreases b.len(),
{
    if b.len() > 0 {
        lemma_total_nonneg(b.drop_last());
    }
}

proof fn lemma_sow(b: Seq<int>, pit: int, stones: nat, who: int)
    requires
        b.len() == 14,
        1 <= pit <= 14,
        who == 1 || who == 2,
    ensures
        sow(b, pit, stones, who).0.len() == 14,
        1 <= sow(b, pit, stones, who).1 <= 14,
        total(sow(b, pit, stones, who).0) == total(b) + stones,
        forall|k: int| 0 <= k < 14 ==> #[trigger] sow(b, pit, stones, who).0[k] >= b[k],
        who == 1 ==> sow(b, pit, stones, who).0[0] == b[0],
        who == 2 ==> sow(b, pit, stones, who).0[7] == b[7],
        forall|k: int| 0 <= k < 14 ==> #[trigger] sow(b, pit, stones, who).0[k] <= b[k] + stones,
    decreases stones,
{
    if stones > 0 {
        let p = landing_pit(pit, who);
        assert(0 <= p < 14);
        lemma_total_update(b, p, b[p] + 1);
        lemma_sow(b.update(p, b[p] + 1), p + 1, (stones - 1) as nat, who);
    }
}

/// The board after the move, counted without bounds, and the pit the last
/// stone landed in.
fn play_out(board: &[u8; 14], pit: u8, who: u8) -> (r: ([u32; 14], u8))
    requires
        1 <= pit <= 13,
        pit != 7,
        who == 1 || who == 2,
    ensures
        r.1 == sown(board@, pit as int, who as int).1,
        forall|k: int| 0 <= k < 14 ==> r.0[k] == board_after(board@, pit as int, who as int)[k],
        forall|k: int| 0 <= k < 14 ==> #[trigger] sown(board@, pit as int, who as int).0[k] <= 510,
{
    let mut b: [u32; 14] = [0u32; 14];
    let mut j: usize = 0;
    while j < 14
        invariant
            j <= 14,
            forall|k: int| 0 <= k < j ==> b[k] == board@[k],
        decreases 14 - j,
    {
        b[j] = board[j] as u32;
        j = j + 1;
    }
    let ghost start = ints(board@).update(pit as int, 0);
    let mut stones: u8 = board[pit as usize];
    b[pit as usize] = 0;
    proof {
        assert(wide(b@) =~= start);
        lemma_sow(start, pit + 1, stones as nat, who as int);
    }
    let ghost target = sow(start, pit + 1, stones as nat, who as int);
    assert forall|k: int| 0 <= k < 14 implies #[trigger] target.0[k] <= 510 by {
        assert(target.0[k] <= start[k] + stones);
    }
    let mut current_pit: u8 = pit + 1;
    while stones > 0
        invariant
            1 <= current_pit <= 14,
            who == 1 || who == 2,
            wide(b@).len() == 14,
            sow(wide(b@), current_pit as int, stones as nat, who as int) == target,
            forall|k: int| 0 <= k < 14 ==> #[trigger] target.0[k] <= 510,
        decreases stones,
    {
        let ghost cp0 = current_pit as int;
        if current_pit == 14 {
            current_pit = 0;
        }
        if current_pit == 0 && who == 1 {
            current_pit = current_pit + 1;
        } else if current_pit == 7 && who == 2 {
            current_pit = current_pit + 1;
        }
        let ghost before = wide(b@);
        proof {
            let p = current_pit as int;
            assert(landing_pit(cp0, who as int) == p);
            assert(sow(before, cp0, stones as nat, who as int) == sow(
                before.update(p, before[p] + 1),
                p + 1,
                (stones - 1) as nat,
                who as int,
            ));
            lemma_sow(before.update(p, before[p] + 1), p + 1, (stones - 1) as nat, who as int);
            let after = sow(before.update(p, before[p] + 1), p + 1, (stones - 1) as nat, who as int);
            assert(after.0[p] >= before.update(p, before[p] + 1)[p]);
            assert(target.0[p] <= 510);
            assert(before[p] == b[p] as int);
        }
        b[current_pit as usize] = b[current_pit as usize] + 1;
        proof {
            assert(wide(b@) =~= before.update(current_pit as int, before[current_pit as int] + 1));
        }
        stones = stones - 1;
        current_pit = current_pit + 1;
    }
    let last: u8 = current_pit - 1;
    let ghost s = wide(b@);
    assert(s == sown(board@, pit as int, who as int).0);
    assert(s == target.0);
    assert forall|k: int| 0 <= k < 14 implies b[k] <= 510 by {
        assert(s[k] == b[k] as int);
        assert(target.0[k] <= 510);
    }
    if last != 0 && last != 7 {
        let opp: usize = 14 - last as usize;
        if who == 1 {
            if b[last as usize] == 1 && b[opp] != 0 && last < 7 && last > 0 {
                b[7] = b[7] + b[opp] + 1;
                b[last as usize] = 0;
                b[opp] = 0;
            }
        } else {
            if b[last as usize] == 1 && b[opp] != 0 && last < 14 && last > 7 {
                b[0] = b[0] + b[opp] + 1;
                b[last as usize] = 0;
                b[opp] = 0;
            }
        }
    }
    proof {
        assert(wide(b@) =~= capture(s, last as int, who as int));
    }
    (b, last)
}


/// The vault after an accepted move: the board after sowing and capture,
/// the next player to move, the end of the game when the mover's side is
/// cleared, the scores read off the stores, and one more move counted.
pub open spec fn moved(v: ChestVaultAccount, pit: int, w: ChestVaultAccount) -> bool {
    let rec = v.score_sheet;
    let who = mover(rec);
    let a = board_after(v.game_board@, pit, who);
    &&& ints(w.game_board@) == a
    &&& w.authority == v.authority
    &&& w.chest_reward == v.chest_reward
    &&& w.password == v.password
    &&& w.entry_fee == v.entry_fee
    &&& w.score_sheet.player_one == rec.player_one
    &&& w.score_sheet.player_two == rec.player_two
    &&& w.score_sheet.current_move == next_to_move(rec, sown(v.game_board@, pit, who).1, who)
    &&& if side_cleared(a, who) {
        w.score_sheet.game_over && w.score_sheet.winner@ == leader(a, rec)
    } else {
        w.score_sheet.game_over == rec.game_over && w.score_sheet.winner == rec.winner
    }
    &&& w.score_sheet.player_one_score == w.game_board[7]
    &&& w.score_sheet.player_two_score == w.game_board[0]
    &&& w.score_sheet.total_moves == rec.total_moves + 1
}

fn refusal(accounts: &MakeMove, selected_pit: u8) -> (e: Option<MancalaError>)
    ensures
        e == move_refusal(accounts.chest_vault_account, accounts.signer, selected_pit as int),
{
    let rec = &accounts.chest_vault_account.score_sheet;
    let signer = accounts.signer;
    if selected_pit == 0 || selected_pit == 7 {
        return Some(MancalaError::InvalidPit);
    }
    if !(rec.player_one == signer) && !(rec.player_two == signer) {
        return Some(MancalaError::NotInGame);
    }
    if !(rec.current_move == signer) {
        return Some(MancalaError::NotYourTurn);
    }
    if signer == rec.player_one {
        if selected_pit < 1 || selected_pit > 6 {
            return Some(MancalaError::InvalidPit);
        }
    } else {
        if selected_pit < 8 || selected_pit > 13 {
            return Some(MancalaError::InvalidPit);
        }
    }
    if accounts.chest_vault_account.game_board[selected_pit as usize] == 0 {
        return Some(MancalaError::PitEmpty);
    }
    None
}

/// Writes an accepted move into the vault.
fn apply_move(accounts: &mut MakeMove, selected_pit: u8, who: u8, wide_board: [u32; 14], last: u8)
    requires
        move_refusal(old(accounts).chest_vault_account, old(accounts).signer, selected_pit as int)
            is None,
        who == mover(old(accounts).chest_vault_account.score_sheet),
        last == sown(old(accounts).chest_vault_account.game_board@, selected_pit as int, who as int).1,
        forall|k: int|
            0 <= k < 14 ==> wide_board[k] == board_after(
                old(accounts).chest_vault_account.game_board@,
                selected_pit as int,
                who as int,
            )[k],
        forall|k: int| 0 <= k < 14 ==> #[trigger] wide_board[k] <= 255,
        old(accounts).chest_vault_account.score_sheet.total_moves < 255,
    ensures
        moved(
            old(accounts).chest_vault_account,
            selected_pit as int,
            final(accounts).chest_vault_account,
        ),
        final(accounts).signer == old(accounts).signer,
{
    let ghost a = board_after(
        accounts.chest_vault_account.game_board@,
        selected_pit as int,
        who as int,
    );
    proof {
        lemma_after_shape(accounts.chest_vault_account.game_board@, selected_pit as int, who as int);
    }
    let mut board: [u8; 14] = [0u8; 14];
    let mut k: usize = 0;
    while k < 14
        invariant
            k <= 14,
            forall|j: int| 0 <= j < 14 ==> #[trigger] wide_board[j] <= 255,
            forall|j: int| 0 <= j < k ==> board[j] == wide_board[j],
        decreases 14 - k,
    {
        board[k] = wide_board[k] as u8;
        k = k + 1;
    }
    assert(ints(board@) =~= a) by {
        assert forall|j: int| 0 <= j < 14 implies ints(board@)[j] == a[j] by {
            assert(board[j] == wide_board[j]);
        }
    }
    let rec = &mut accounts.chest_vault_account.score_sheet;
    let cleared = if who == 1 {
        board[1] == 0 && board[2] == 0 && board[3] == 0 && board[4] == 0 && board[5] == 0
            && board[6] == 0
    } else {
        board[8] == 0 && board[9] == 0 && board[10] == 0 && board[11] == 0 && board[12] == 0
            && board[13] == 0
    };
    if cleared {
        rec.game_over = true;
        if board[7] > board[0] {
            rec.winner = rec.player_one;
        } else if board[7] < board[0] {
            rec.winner = rec.player_two;
        } else {
            rec.winner = Pubkey::zero();
        }
    }
    if last == 7 && who == 1 {
        rec.current_move = rec.player_one;
    } else if last == 0 && who == 2 {
        rec.current_move = rec.player_two;
    } else if who == 1 {
        rec.current_move = rec.player_two;
    } else {
        rec.current_move = rec.player_one;
    }
    rec.player_one_score = board[7];
    rec.player_two_score = board[0];
    rec.total_moves = rec.total_moves + 1;
    accounts.chest_vault_account.game_board = board;
}

/// Opens a game: the signer takes the first seat, the board is set up,
/// and the signer is listed among the authorities. Returns the entry fee
/// that the signer pays into the vault.
pub fn initialize_game_data(accounts: &mut InitializeGameData, entry_fee: u64) -> (deposit: u64)
    ensures
        deposit == entry_fee,
        final(accounts).game_data_account.all_authorities@
            == old(accounts).game_data_account.all_authorities@.push(old(accounts).signer),
        final(accounts).signer == old(accounts).signer,
        final(accounts).chest_vault_account.entry_fee == entry_fee,
        final(accounts).chest_vault_account.game_board@ == initial_board(),
        final(accounts).chest_vault_account.score_sheet.player_one == old(accounts).signer,
        final(accounts).chest_vault_account.score_sheet.player_one_score == 0,
        final(accounts).chest_vault_account.score_sheet.player_two_score == 0,
        final(accounts).chest_vault_account.score_sheet.total_moves == 0,
        !final(accounts).chest_vault_account.score_sheet.game_over,
        final(accounts).chest_vault_account.score_sheet.player_two
            == old(accounts).chest_vault_account.score_sheet.player_two,
        final(accounts).chest_vault_account.score_sheet.current_move
            == old(accounts).chest_vault_account.score_sheet.current_move,
        final(accounts).chest_vault_account.score_sheet.winner
            == old(accounts).chest_vault_account.score_sheet.winner,
        final(accounts).chest_vault_account.authority
            == old(accounts).chest_vault_account.authority,
        final(accounts).chest_vault_account.chest_reward
            == old(accounts).chest_vault_account.chest_reward,
        final(accounts).chest_vault_account.password
            == old(accounts).chest_vault_account.password,
{
    let signer = accounts.signer;
    accounts.game_data_account.all_authorities.push(signer);
    accounts.chest_vault_account.entry_fee = entry_fee;
    accounts.chest_vault_account.game_board = [0, 4, 4, 4, 4, 4, 4, 0, 4, 4, 4, 4, 4, 4];
    assert(accounts.chest_vault_account.game_board@ =~= initial_board());
    accounts.chest_vault_account.score_sheet.player_one = signer;
    accounts.chest_vault_account.score_sheet.player_one_score =
        accounts.chest_vault_account.game_board[7];
    accounts.chest_vault_account.score_sheet.player_two_score =
        accounts.chest_vault_account.game_board[0];
    accounts.chest_vault_account.score_sheet.total_moves = 0;
    accounts.chest_vault_account.score_sheet.game_over = false;
    entry_fee
}

/// A second player takes the free seat; player one moves first. Returns
/// the entry fee that the signer pays into the vault. Refused when both
/// seats are taken.
pub fn player_joins_game(accounts: &mut PlayerJoinsGame) -> (r: Result<u64, MancalaError>)
    ensures
        old(accounts).chest_vault_account.score_sheet.player_two@ != zero_key() ==> r == Err::<
            u64,
            MancalaError,
        >(MancalaError::GameIsFull) && *final(accounts) == *old(accounts),
        old(accounts).chest_vault_account.score_sheet.player_two@ == zero_key() ==> {
            &&& r == Ok::<u64, MancalaError>(old(accounts).chest_vault_account.entry_fee)
            &&& final(accounts).chest_vault_account.score_sheet.player_two == old(
                accounts,
            ).signer
            &&& final(accounts).chest_vault_account.score_sheet.current_move == old(
                accounts,
            ).chest_vault_account.score_sheet.player_one
            &&& final(accounts).signer == old(accounts).signer
            &&& final(accounts).chest_vault_account.game_board == old(
                accounts,
            ).chest_vault_account.game_board
            &&& final(accounts).chest_vault_account.entry_fee == old(
                accounts,
            ).chest_vault_account.entry_fee
            &&& final(accounts).chest_vault_account.authority == old(
                accounts,
            ).chest_vault_account.authority
            &&& final(accounts).chest_vault_account.chest_reward == old(
                accounts,
            ).chest_vault_account.chest_reward
            &&& final(accounts).chest_vault_account.password == old(
                accounts,
            ).chest_vault_account.password
            &&& final(accounts).chest_vault_account.score_sheet.player_one == old(
                accounts,
            ).chest_vault_account.score_sheet.player_one
            &&& final(accounts).chest_vault_account.score_sheet.player_one_score == old(
                accounts,
            ).chest_vault_account.score_sheet.player_one_score
            &&& final(accounts).chest_vault_account.score_sheet.player_two_score == old(
                accounts,
            ).chest_vault_account.score_sheet.player_two_score
            &&& final(accounts).chest_vault_account.score_sheet.total_moves == old(
                accounts,
            ).chest_vault_account.score_sheet.total_moves
            &&& final(accounts).chest_vault_account.score_sheet.game_over == old(
                accounts,
            ).chest_vault_account.score_sheet.game_over
            &&& final(accounts).chest_vault_account.score_sheet.winner == old(
                accounts,
            ).chest_vault_account.score_sheet.winner
        },
{
    if !accounts.chest_vault_account.score_sheet.player_two.is_zero() {
        return Err(MancalaError::GameIsFull);
    }
    let fee = accounts.chest_vault_account.entry_fee;
    accounts.chest_vault_account.score_sheet.player_two = accounts.signer;
    accounts.chest_vault_account.score_sheet.current_move =
        accounts.chest_vault_account.score_sheet.player_one;
    Ok(fee)
}

/// Moves the stones of `selected_pit` for the signer. A refused move
/// leaves everything as it was; an accepted one leaves the vault as
/// `moved` describes.
pub fn make_move(accounts: &mut MakeMove, selected_pit: u8) -> (r: Result<(), MancalaError>)
    requires
        move_refusal(old(accounts).chest_vault_account, old(accounts).signer, selected_pit as int)
            is None ==> move_fits(old(accounts).chest_vault_account, selected_pit as int),
    ensures
        match move_refusal(
            old(accounts).chest_vault_account,
            old(accounts).signer,
            selected_pit as int,
        ) {
            Some(e) => r == Err::<(), MancalaError>(e) && *final(accounts) == *old(accounts),
            None => r == Ok::<(), MancalaError>(()) && moved(
                old(accounts).chest_vault_account,
                selected_pit as int,
                final(accounts).chest_vault_account,
            ) && final(accounts).signer == old(accounts).signer,
        },
{
    match refusal(accounts, selected_pit) {
        Some(e) => {
            return Err(e);
        },
        None => {},
    }
    let who: u8 = if accounts.chest_vault_account.score_sheet.current_move
        == accounts.chest_vault_account.score_sheet.player_one {
        1
    } else {
        2
    };
    let (wide_board, last) = play_out(&accounts.chest_vault_account.game_board, selected_pit, who);
    apply_move(accounts, selected_pit, who, wide_board, last);
    Ok(())
}

/// `make_move`, for any input: `None`, with nothing changed, exactly when
/// an accepted move would carry a count past what a byte holds.
pub fn try_make_move(accounts: &mut MakeMove, selected_pit: u8) -> (r: Option<
    Result<(), MancalaError>,
>)
    ensures
        r is None <==> (move_refusal(
            old(accounts).chest_vault_account,
            old(accounts).signer,
            selected_pit as int,
        ) is None && !move_fits(old(accounts).chest_vault_account, selected_pit as int)),
        r is None ==> *final(accounts) == *old(accounts),
        r matches Some(res) ==> match move_refusal(
            old(accounts).chest_vault_account,
            old(accounts).signer,
            selected_pit as int,
        ) {
            Some(e) => res == Err::<(), MancalaError>(e) && *final(accounts) == *old(accounts),
            None => res == Ok::<(), MancalaError>(()) && moved(
                old(accounts).chest_vault_account,
                selected_pit as int,
                final(accounts).chest_vault_account,
            ) && final(accounts).signer == old(accounts).signer,
        },
{
    match refusal(accounts, selected_pit) {
        Some(e) => {
            return Some(Err(e));
        },
        None => {},
    }
    let who: u8 = if accounts.chest_vault_account.score_sheet.current_move
        == accounts.chest_vault_account.score_sheet.player_one {
        1
    } else {
        2
    };
    let (wide_board, last) = play_out(&accounts.chest_vault_account.game_board, selected_pit, who);
    let ghost a = board_after(
        accounts.chest_vault_account.game_board@,
        selected_pit as int,
        who as int,
    );
    proof {
        lemma_after_shape(accounts.chest_vault_account.game_board@, selected_pit as int, who as int);
    }
    let mut k: usize = 0;
    #[verifier::loop_isolation(false)]
    while k < 14
        invariant
            k <= 14,
            forall|j: int| 0 <= j < 14 ==> wide_board[j] == a[j],
            forall|j: int| 0 <= j < k ==> #[trigger] wide_board[j] <= 255,
        decreases 14 - k,
    {
        if wide_board[k] > 255 {
            proof {
                assert(who as int == mover(accounts.chest_vault_account.score_sheet));
                assert(a[k as int] > 255);
                assert(!move_fits(accounts.chest_vault_account, selected_pit as int));
            }
            return None;
        }
        k = k + 1;
    }
    if accounts.chest_vault_account.score_sheet.total_moves == 255 {
        return None;
    }
    proof {
        lemma_after_bounds_sown(
            accounts.chest_vault_account.game_board@,
            selected_pit as int,
            who as int,
        );
    }
    apply_move(accounts, selected_pit, who, wide_board, last);
    Some(Ok(()))
}

/// The winner of a finished game takes the pot, twice the entry fee, and
/// leaves the list of authorities. Refused while the game goes on and for
/// anyone but the winner.
pub fn withdraw(accounts: &mut Withdraw) -> (r: Result<u64, MancalaError>)
    requires
        old(accounts).chest_vault_account.score_sheet.game_over
            && old(accounts).chest_vault_account.score_sheet.winner@ == old(accounts).signer@
            ==> old(accounts).chest_vault_account.entry_fee * 2 <= u64::MAX,
    ensures
        !old(accounts).chest_vault_account.score_sheet.game_over ==> r == Err::<
            u64,
            MancalaError,
        >(MancalaError::GameNotOver) && *final(accounts) == *old(accounts),
        old(accounts).chest_vault_account.score_sheet.game_over
            && old(accounts).chest_vault_account.score_sheet.winner@ != old(accounts).signer@
            ==> r == Err::<u64, MancalaError>(MancalaError::NotWinner) && *final(accounts) == *old(
            accounts,
        ),
        old(accounts).chest_vault_account.score_sheet.game_over
            && old(accounts).chest_vault_account.score_sheet.winner@ == old(accounts).signer@
            ==> {
            &&& r == Ok::<u64, MancalaError>(
                (old(accounts).chest_vault_account.entry_fee * 2) as u64,
            )
            &&& final(accounts).game_data_account.all_authorities@ == without_first(
                old(accounts).game_data_account.all_authorities@,
                old(accounts).signer@,
            )
            &&& final(accounts).chest_vault_account == old(accounts).chest_vault_account
            &&& final(accounts).signer == old(accounts).signer
        },
{
    if !accounts.chest_vault_account.score_sheet.game_over {
        return Err(MancalaError::GameNotOver);
    }
    if !(accounts.chest_vault_account.score_sheet.winner == accounts.signer) {
        return Err(MancalaError::NotWinner);
    }
    let reward = accounts.chest_vault_account.entry_fee * 2;
    let signer = accounts.signer;
    remove_first_key(&mut accounts.game_data_account.all_authorities, &signer);
    Ok(reward)
}

proof fn lemma_after_shape(b: Seq<u8>, pit: int, who: int)
    requires
        b.len() == 14,
        1 <= pit <= 13,
        pit != 7,
        who == 1 || who == 2,
    ensures
        sown(b, pit, who).0.len() == 14,
        board_after(b, pit, who).len() == 14,
        0 <= sown(b, pit, who).1 <= 13,
        forall|k: int| 0 <= k < 14 ==> #[trigger] sown(b, pit, who).0[k] >= 0,
        forall|k: int| 0 <= k < 14 ==> #[trigger] board_after(b, pit, who)[k] >= 0,
{
    let start = ints(b).update(pit, 0);
    lemma_sow(start, pit + 1, b[pit] as nat, who);
    assert forall|k: int| 0 <= k < 14 implies #[trigger] sown(b, pit, who).0[k] >= 0 by {
        assert(sown(b, pit, who).0[k] >= start[k]);
    }
}

proof fn lemma_after_bounds_sown(b: Seq<u8>, pit: int, who: int)
    requires
        b.len() == 14,
        1 <= pit <= 13,
        pit != 7,
        who == 1 || who == 2,
        forall|k: int| 0 <= k < 14 ==> #[trigger] board_after(b, pit, who)[k] <= 255,
    ensures
        forall|k: int| 0 <= k < 14 ==> #[trigger] sown(b, pit, who).0[k] <= 255,
{
    let start = ints(b).update(pit, 0);
    lemma_sow(start, pit + 1, b[pit] as nat, who);
    let s = sown(b, pit, who);
    let a = board_after(b, pit, who);
    let last = s.1;
    assert forall|k: int| 0 <= k < 14 implies #[trigger] s.0[k] <= 255 by {
        assert(s.0[k] >= 0);
        if last != 0 && last != 7 && k == 14 - last && a != s.0 {
            if who == 1 {
                assert(a[7] == s.0[7] + s.0[k] + 1);
                assert(a[7] <= 255);
            } else {
                assert(a[0] == s.0[0] + s.0[k] + 1);
                assert(a[0] <= 255);
            }
        } else if last != 0 && last != 7 && k == last && a != s.0 {
        } else if last != 0 && last != 7 && (k == 7 || k == 0) && a != s.0 {
            assert(a[k] >= s.0[k]);
        } else {
            assert(a[k] == s.0[k]);
        }
    }
}


/// A move neither creates nor destroys stones: the board holds as many
/// stones after sowing and any capture as before.
pub proof fn lemma_stones_conserved(b: Seq<u8>, pit: int, who: int)
    requires
        b.len() == 14,
        1 <= pit <= 13,
        pit != 7,
        who == 1 || who == 2,
    ensures
        total(board_after(b, pit, who)) == total(ints(b)),
{
    let start = ints(b).update(pit, 0);
    lemma_total_update(ints(b), pit, 0);
    lemma_sow(start, pit + 1, b[pit] as nat, who);
    let s = sown(b, pit, who);
    let last = s.1;
    let opp = 14 - last;
    let store = if who == 1 {
        7
    } else {
        0
    };
    let c = s.0;
    if board_after(b, pit, who) != c {
        let c1 = c.update(store, c[store] + c[opp] + 1);
        let c2 = c1.update(last, 0);
        lemma_total_update(c, store, c[store] + c[opp] + 1);
        lemma_total_update(c1, last, 0);
        lemma_total_update(c2, opp, 0);
    }
}

/// A move never puts a stone into the opponent's store.
pub proof fn lemma_opponent_store_kept(b: Seq<u8>, pit: int, who: int)
    requires
        b.len() == 14,
        1 <= pit <= 13,
        pit != 7,
        who == 1 || who == 2,
    ensures
        who == 1 ==> board_after(b, pit, who)[0] == b[0] as int,
        who == 2 ==> board_after(b, pit, who)[7] == b[7] as int,
{
    let start = ints(b).update(pit, 0);
    lemma_sow(start, pit + 1, b[pit] as nat, who);
}

/// A board that holds at most 255 stones can take any accepted move while
/// the move counter has room: no count leaves the range of a byte.
pub proof fn lemma_small_board_fits(v: ChestVaultAccount, signer: Pubkey, pit: int)
    requires
        move_refusal(v, signer, pit) is None,
        total(ints(v.game_board@)) <= 255,
        v.score_sheet.total_moves < 255,
    ensures
        move_fits(v, pit),
{
    let b = v.game_board@;
    let who = mover(v.score_sheet);
    lemma_after_shape(b, pit, who);
    lemma_stones_conserved(b, pit, who);
    let a = board_after(b, pit, who);
    assert forall|k: int| 0 <= k < 14 implies #[trigger] a[k] <= 255 by {
        lemma_total_bounds_each(a, k);
    }
    lemma_after_bounds_sown(b, pit, who);
}

/// A new game starts with forty-eight stones on the board.
pub proof fn lemma_initial_stones()
    ensures
        total(ints(initial_board())) == 48,
{
    let b = ints(initial_board());
    assert(b.len() == 14);
    reveal_with_fuel(total, 15);
    assert(b =~= seq![0int, 4, 4, 4, 4, 4, 4, 0, 4, 4, 4, 4, 4, 4]);
}

/// Every game keeps the forty-eight stones it starts with, so while the
/// move counter has room no accepted move ever overflows a pit.
pub proof fn lemma_game_keeps_stones(v: ChestVaultAccount, signer: Pubkey, pit: int)
    requires
        move_refusal(v, signer, pit) is None,
        total(ints(v.game_board@)) == 48,
        v.score_sheet.total_moves < 255,
    ensures
        move_fits(v, pit),
        total(board_after(v.game_board@, pit, mover(v.score_sheet))) == 48,
{
    lemma_small_board_fits(v, signer, pit);
    lemma_stones_conserved(v.game_board@, pit, mover(v.score_sheet));
}

/// When a move ends, the player to move next is the mover exactly when the
/// last stone sown fell into the mover's own store (pit 7 for player one,
/// pit 0 for player two), and the other player otherwise.
pub proof fn lemma_extra_turn(v: ChestVaultAccount, pit: int, w: ChestVaultAccount)
    requires
        moved(v, pit, w),
    ensures
        ({
            let rec = v.score_sheet;
            let one_moves = rec.current_move@ == rec.player_one@;
            let last = sown(v.game_board@, pit, if one_moves { 1int } else { 2int }).1;
            &&& one_moves && last == 7 ==> w.score_sheet.current_move == rec.player_one
            &&& one_moves && last != 7 ==> w.score_sheet.current_move == rec.player_two
            &&& !one_moves && last == 0 ==> w.score_sheet.current_move == rec.player_two
            &&& !one_moves && last != 0 ==> w.score_sheet.current_move == rec.player_one
        }),
{
}

/// Sowing that stays on the mover's own run of pits drops one stone into
/// each pit in turn; for player two the run may end by wrapping round into
/// store 0.
proof fn lemma_sow_straight(b: Seq<int>, q: int, s: nat, who: int)
    requires
        b.len() == 14,
        q <= 14,
        who == 1 ==> 1 <= q && q + s <= 8,
        who == 2 ==> 8 <= q && q + s <= 15,
        who == 1 || who == 2,
    ensures
        sow(b, q, s, who).1 == if q + s == 15 {
            1
        } else {
            q + s
        },
        q + s <= 14 ==> forall|k: int|
            0 <= k < 14 ==> #[trigger] sow(b, q, s, who).0[k] == b[k] + if q <= k < q + s {
                1int
            } else {
                0int
            },
    decreases s,
{
    if s > 0 {
        let p = landing_pit(q, who);
        if q == 14 {
            assert(p == 0);
            assert(sow(b.update(p, b[p] + 1), p + 1, (s - 1) as nat, who).1 == 1);
        } else {
            assert(p == q);
            lemma_sow_straight(b.update(p, b[p] + 1), q + 1, (s - 1) as nat, who);
        }
    }
}

/// A move whose stones all stay on the mover's side (from pit `pit` its
/// `n` stones fill pits `pit + 1` to `pit + n`, the last one `t` still on
/// that side) captures exactly when `t` was empty and the pit across from
/// it, `14 - t`, holds stones: then both pits are emptied and their stones
/// (the one just sown and all across) go to the mover's store. Otherwise
/// each pit from `pit + 1` to `t` gains one stone, `pit` is emptied, and
/// every other pit, the stores included, keeps its stones.
pub proof fn lemma_short_move(v: ChestVaultAccount, pit: int, w: ChestVaultAccount)
    requires
        moved(v, pit, w),
    ensures
        ({
            let b = v.game_board;
            let g = w.game_board;
            let one = v.score_sheet.current_move@ == v.score_sheet.player_one@;
            let n = b[pit] as int;
            let t = pit + n;
            let store = if one { 7int } else { 0int };
            let on_side = if one { 1 <= pit && t <= 6 } else { 8 <= pit && t <= 13 };
            let captures = b[t] == 0 && b[14 - t] != 0;
            &&& on_side && n > 0 && captures ==> g[t] == 0 && g[14 - t] == 0 && g[store] == b[store]
                + b[14 - t] + 1
            &&& on_side && n > 0 && !captures ==> g[t] == b[t] + 1 && g[14 - t] == b[14 - t]
                && g[store] == b[store]
            &&& on_side && n > 0 ==> g[pit] == 0 && forall|k: int|
                pit < k < t ==> #[trigger] g[k] == b[k] + 1
        }),
{
    let b = v.game_board;
    let g = w.game_board;
    let one = v.score_sheet.current_move@ == v.score_sheet.player_one@;
    let who = mover(v.score_sheet);
    let n = b[pit] as int;
    let t = pit + n;
    let on_side = if one { 1 <= pit && t <= 6 } else { 8 <= pit && t <= 13 };
    if on_side && n > 0 {
        let start = ints(b@).update(pit, 0);
        lemma_sow_straight(start, pit + 1, n as nat, who);
        lemma_sow(start, pit + 1, n as nat, who);
        let sw = sown(b@, pit, who);
        assert(sw.1 == t);
        assert forall|k: int| 0 <= k < 14 implies sw.0[k] == start[k] + if pit + 1 <= k < t + 1 {
            1int
        } else {
            0int
        } by {}
        let a = board_after(b@, pit, who);
        assert forall|k: int| 0 <= k < 14 implies a[k] == g[k] as int by {
            assert(ints(g@)[k] == g@[k] as int);
        }
        assert(start[t] == b[t] as int);
        assert(start[14 - t] == b[14 - t] as int);
        assert(sw.0[t] == b[t] + 1);
        assert(sw.0[14 - t] == b[14 - t]);
        let opp = 14 - t;
        let store = if one { 7int } else { 0int };
        assert(sw.0.len() == 14);
        if b[t] == 0 && b[opp] != 0 {
            let c = sw.0;
            assert(a == c.update(store, c[store] + c[opp] + 1).update(t, 0).update(opp, 0));
        } else {
            assert(a == sw.0);
        }
        assert forall|k: int| pit < k < t implies #[trigger] g[k] == b[k] + 1 by {
            assert(start[k] == b[k] as int);
            assert(sw.0[k] == b[k] + 1);
            assert(a[k] == sw.0[k]);
            assert(a[k] == g[k] as int);
        }
        assert(sw.0[store] == b[store]);
        assert(sw.0[pit] == 0);
        assert(a[pit] == g[pit] as int);
        assert(a[t] == g[t] as int);
        assert(a[14 - t] == g[14 - t] as int);
        assert(a[7] == g[7] as int);
        assert(a[0] == g[0] as int);
    }
}

/// A pit holding exactly as many stones as there are pits up to the
/// mover's store (7 - pit for player one, 14 - pit for player two) drops
/// its last stone into that store, so the mover moves again.
pub proof fn lemma_exact_count_moves_again(v: ChestVaultAccount, pit: int, w: ChestVaultAccount)
    requires
        moved(v, pit, w),
    ensures
        v.score_sheet.current_move@ == v.score_sheet.player_one@ && 1 <= pit <= 6
            && v.game_board[pit] + pit == 7 ==> w.score_sheet.current_move
            == v.score_sheet.player_one,
        v.score_sheet.current_move@ != v.score_sheet.player_one@ && 8 <= pit <= 13
            && v.game_board[pit] + pit == 14 ==> w.score_sheet.current_move
            == v.score_sheet.player_two,
{
    let b = v.game_board@;
    let who = mover(v.score_sheet);
    let start = ints(b).update(pit, 0);
    if who == 1 && 1 <= pit <= 6 && v.game_board[pit] + pit == 7 {
        lemma_sow_straight(start, pit + 1, b[pit] as nat, who);
        assert(sown(b, pit, who).1 == 7);
    }
    if who == 2 && 8 <= pit <= 13 && v.game_board[pit] + pit == 14 {
        lemma_sow_straight(start, pit + 1, b[pit] as nat, who);
        assert(sown(b, pit, who).1 == 0);
    }
}

/// A move that empties the mover's six pits ends the game, and the winner
/// is the player whose store then holds more stones: player one for store
/// 7, player two for store 0, and nobody (the zero address) on a tie. A
/// move that leaves a stone on the mover's side neither ends the game nor
/// names a winner.
pub proof fn lemma_game_end_winner(v: ChestVaultAccount, pit: int, w: ChestVaultAccount)
    requires
        moved(v, pit, w),
    ensures
        ({
            let rec = v.score_sheet;
            let g = w.game_board;
            let cleared = if rec.current_move@ == rec.player_one@ {
                g[1] == 0 && g[2] == 0 && g[3] == 0 && g[4] == 0 && g[5] == 0 && g[6] == 0
            } else {
                g[8] == 0 && g[9] == 0 && g[10] == 0 && g[11] == 0 && g[12] == 0 && g[13] == 0
            };
            &&& cleared ==> w.score_sheet.game_over
            &&& cleared && g[7] > g[0] ==> w.score_sheet.winner@ == rec.player_one@
            &&& cleared && g[0] > g[7] ==> w.score_sheet.winner@ == rec.player_two@
            &&& cleared && g[0] == g[7] ==> w.score_sheet.winner@ == zero_key()
            &&& !cleared ==> w.score_sheet.game_over == rec.game_over && w.score_sheet.winner
                == rec.winner
        }),
{
    let a = board_after(v.game_board@, pit, mover(v.score_sheet));
    assert forall|k: int| 0 <= k < 14 implies a[k] == w.game_board[k] as int by {
        assert(ints(w.game_board@)[k] == w.game_board@[k] as int);
    }
}

} // verus!

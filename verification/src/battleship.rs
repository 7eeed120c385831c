//! Battleship between two players for a shared pot.
//!
//! The board has ten rows of ten squares. Player one places ships in rows
//! 0 to 4 and player two in rows 5 to 9; a square holding 0 is water. A
//! shot marks its square: 9 when player one hits, 8 when player two hits,
//! 7 for a miss. A player wins by hitting fourteen ship squares.
use vstd::prelude::*;
use crate::key::{Pubkey, remove_key, without_key, zero_key};

verus! {

/// The list of every account that opened a game.
pub struct GameDataAccount {
    pub all_creators: Vec<Pubkey>,
}

/// The score sheet of one game.
pub struct GameRecord {
    pub player_one: Pubkey,
    pub player_one_score: u8,
    pub player_two: Pubkey,
    pub player_two_score: u8,
    pub current_move: Pubkey,
    pub game_over: bool,
    pub winner: Option<Pubkey>,
}

/// The account that holds the pot, the board and the score sheet.
pub struct ChestVaultAccount {
    pub authority: Pubkey,
    pub chest_reward: u64,
    pub password: String,
    pub entry_fee: u64,
    pub score_sheet: GameRecord,
    pub game_board: [[u8; 10]; 10],
}

/// The accounts of a call that opens a game.
pub struct InitializeGameData {
    pub game_data_account: GameDataAccount,
    pub chest_vault_account: ChestVaultAccount,
    pub signer: Pubkey,
}

/// The accounts of a call by which a second player joins.
pub struct PlayerJoinsGame {
    pub chest_vault_account: ChestVaultAccount,
    pub signer: Pubkey,
}

/// The accounts of a call that places a player's ships.
pub struct ChoosePlacement {
    pub chest_vault_account: ChestVaultAccount,
    pub signer: Pubkey,
}

/// The accounts of a call that fires a shot.
pub struct MakeMove {
    pub chest_vault_account: ChestVaultAccount,
    pub signer: Pubkey,
}

/// The accounts of a call by which the winner collects the pot.
pub struct WithdrawLoot {
    pub chest_vault_account: ChestVaultAccount,
    pub signer: Pubkey,
}

/// The accounts of a call that ends a game and closes its vault.
pub struct CloseAccount {
    pub game_data_account: GameDataAccount,
    pub chest_vault_account: ChestVaultAccount,
    pub signer: Pubkey,
}

/// Why a call is refused.
#[derive(Debug, Clone, Copy, PartialEq, Eq, Structural)]
pub enum ErrorCode {
    /// The player already takes part in the game.
    PlayerAlreadyInGame,
    /// Both seats are taken.
    GameIsFull,
    /// The other player is to move.
    WrongTurn,
    /// The signer did not open the game.
    NotCreator,
    /// The square has been fired at already.
    InvalidMove,
    /// The signer is not the winner.
    NotWinner,
    /// The game has not ended.
    GameIsNotOver,
    /// The game has ended.
    GameIsOver,
}

/// How many squares of a row hold `v`.
pub open spec fn row_count(row: Seq<u8>, v: u8) -> nat
    decreases row.len(),
{
    if row.len() == 0 {
        0
    } else {
        row_count(row.drop_last(), v) + if row.last() == v {
            1nat
        } else {
            0nat
        }
    }
}

/// How many squares of the rows hold `v`.
pub open spec fn board_count(rows: Seq<[u8; 10]>, v: u8) -> nat
    decreases rows.len(),
{
    if rows.len() == 0 {
        0
    } else {
        board_count(rows.drop_last(), v) + row_count(rows.last()@, v)
    }
}

/// The mark a shot leaves on a square that held `square`.
pub open spec fn shot_mark(square: u8, signer: Pubkey, rec: GameRecord) -> u8 {
    if square != 0 && signer@ == rec.player_one@ {
        9
    } else if square != 0 && signer@ == rec.player_two@ {
        8
    } else {
        7
    }
}

/// Whether the square has been fired at.
pub open spec fn is_marked(square: u8) -> bool {
    square == 7 || square == 8 || square == 9
}

/// The board with the square at `row`, `col` set to `v`.
pub open spec fn board_with(b: [[u8; 10]; 10], row: int, col: int, v: u8, nb: [[u8; 10]; 10]) -> bool {
    forall|i: int, j: int|
        0 <= i < 10 && 0 <= j < 10 ==> #[trigger] nb[i][j] == if i == row && j == col {
            v
        } else {
            b[i][j]
        }
}

/// The rows from `first` to `first + 4` replaced by the chosen rows.
pub open spec fn board_placed(b: [[u8; 10]; 10], squares: [[u8; 10]; 5], first: int, nb: [[u8; 10]; 10]) -> bool {
    forall|i: int|
        0 <= i < 10 ==> #[trigger] nb[i] == if first <= i < first + 5 {
            squares[i - first]
        } else {
            b[i]
        }
}

/// Opens a game: the signer takes the first seat and becomes the authority
/// of the vault, the board is cleared, and the signer is listed among the
/// creators. Returns the entry fee that the signer pays into the vault.
pub fn initialize_game_data(accounts: &mut InitializeGameData, entry_fee: u64) -> (deposit: u64)
    ensures
        deposit == entry_fee,
        final(accounts).game_data_account.all_creators@
            == old(accounts).game_data_account.all_creators@.push(old(accounts).signer),
        final(accounts).signer == old(accounts).signer,
        final(accounts).chest_vault_account.entry_fee == entry_fee,
        forall|i: int, j: int|
            #![trigger final(accounts).chest_vault_account.game_board[i][j]]
            0 <= i < 10 && 0 <= j < 10 ==> final(accounts).chest_vault_account.game_board[i][j]
                == 0,
        final(accounts).chest_vault_account.score_sheet.player_one == old(accounts).signer,
        final(accounts).chest_vault_account.score_sheet.player_one_score == 0,
        final(accounts).chest_vault_account.score_sheet.player_two_score == 0,
        !final(accounts).chest_vault_account.score_sheet.game_over,
        final(accounts).chest_vault_account.score_sheet.winner is None,
        final(accounts).chest_vault_account.authority == old(accounts).signer,
        final(accounts).chest_vault_account.score_sheet.player_two
            == old(accounts).chest_vault_account.score_sheet.player_two,
        final(accounts).chest_vault_account.score_sheet.current_move
            == old(accounts).chest_vault_account.score_sheet.current_move,
        final(accounts).chest_vault_account.chest_reward
            == old(accounts).chest_vault_account.chest_reward,
        final(accounts).chest_vault_account.password
            == old(accounts).chest_vault_account.password,
{
    let signer = accounts.signer;
    accounts.game_data_account.all_creators.push(signer);
    accounts.chest_vault_account.entry_fee = entry_fee;
    accounts.chest_vault_account.game_board = [[0u8; 10]; 10];
    accounts.chest_vault_account.score_sheet.player_one = signer;
    accounts.chest_vault_account.score_sheet.player_one_score = 0;
    accounts.chest_vault_account.score_sheet.player_two_score = 0;
    accounts.chest_vault_account.score_sheet.game_over = false;
    accounts.chest_vault_account.score_sheet.winner = None;
    accounts.chest_vault_account.authority = signer;
    entry_fee
}

/// A second player takes the free seat; player one moves first. Returns
/// the entry fee that the signer pays into the vault. Refused when the
/// second seat is taken.
pub fn player_joins_game(accounts: &mut PlayerJoinsGame) -> (r: Result<u64, ErrorCode>)
    ensures
        old(accounts).chest_vault_account.score_sheet.player_two@ != zero_key() ==> r == Err::<
            u64,
            ErrorCode,
        >(ErrorCode::GameIsFull) && *final(accounts) == *old(accounts),
        old(accounts).chest_vault_account.score_sheet.player_two@ == zero_key() ==> {
            &&& r == Ok::<u64, ErrorCode>(old(accounts).chest_vault_account.entry_fee)
            &&& final(accounts).chest_vault_account.score_sheet.player_two == old(
                accounts,
            ).signer
            &&& final(accounts).chest_vault_account.score_sheet.current_move == old(
                accounts,
            ).chest_vault_account.score_sheet.player_one
            &&& final(accounts).signer == old(accounts).signer
            &&& final(accounts).chest_vault_account.game_board == old(
                accounts,
            ).chest_vault_account.game_board
            &&& final(accounts).chest_vault_account.entry_fee == old(
                accounts,
            ).chest_vault_account.entry_fee
            &&& final(accounts).chest_vault_account.authority == old(
                accounts,
            ).chest_vault_account.authority
            &&& final(accounts).chest_vault_account.chest_reward == old(
                accounts,
            ).chest_vault_account.chest_reward
            &&& final(accounts).chest_vault_account.password == old(
                accounts,
            ).chest_vault_account.password
            &&& final(accounts).chest_vault_account.score_sheet.player_one == old(
                accounts,
            ).chest_vault_account.score_sheet.player_one
            &&& final(accounts).chest_vault_account.score_sheet.player_one_score == old(
                accounts,
            ).chest_vault_account.score_sheet.player_one_score
            &&& final(accounts).chest_vault_account.score_sheet.player_two_score == old(
                accounts,
            ).chest_vault_account.score_sheet.player_two_score
            &&& final(accounts).chest_vault_account.score_sheet.game_over == old(
                accounts,
            ).chest_vault_account.score_sheet.game_over
            &&& final(accounts).chest_vault_account.score_sheet.winner == old(
                accounts,
            ).chest_vault_account.score_sheet.winner
        },
{
    if !accounts.chest_vault_account.score_sheet.player_two.is_zero() {
        return Err(ErrorCode::GameIsFull);
    }
    let fee = accounts.chest_vault_account.entry_fee;
    accounts.chest_vault_account.score_sheet.player_two = accounts.signer;
    accounts.chest_vault_account.score_sheet.current_move =
        accounts.chest_vault_account.score_sheet.player_one;
    Ok(fee)
}

/// Places the signer's ships: player one's five rows go to rows 0 to 4,
/// player two's to rows 5 to 9; a signer in neither seat changes nothing.
/// Refused once the game has ended.
pub fn choose_placement(accounts: &mut ChoosePlacement, selected_squares: [[u8; 10]; 5]) -> (r:
    Result<(), ErrorCode>)
    ensures
        old(accounts).chest_vault_account.score_sheet.game_over ==> r == Err::<(), ErrorCode>(
            ErrorCode::GameIsOver,
        ) && *final(accounts) == *old(accounts),
        !old(accounts).chest_vault_account.score_sheet.game_over ==> {
            let v = old(accounts).chest_vault_account;
            let w = final(accounts).chest_vault_account;
            let signer = old(accounts).signer;
            &&& r == Ok::<(), ErrorCode>(())
            &&& final(accounts).signer == signer
            &&& w.score_sheet == v.score_sheet
            &&& w.authority == v.authority
            &&& w.chest_reward == v.chest_reward
            &&& w.password == v.password
            &&& w.entry_fee == v.entry_fee
            &&& if signer@ == v.score_sheet.player_one@ {
                board_placed(v.game_board, selected_squares, 0, w.game_board)
            } else if signer@ == v.score_sheet.player_two@ {
                board_placed(v.game_board, selected_squares, 5, w.game_board)
            } else {
                w.game_board == v.game_board
            }
        },
{
    if accounts.chest_vault_account.score_sheet.game_over {
        return Err(ErrorCode::GameIsOver);
    }
    let first: usize = if accounts.signer == accounts.chest_vault_account.score_sheet.player_one {
        0
    } else if accounts.signer == accounts.chest_vault_account.score_sheet.player_two {
        5
    } else {
        return Ok(());
    };
    let mut board = accounts.chest_vault_account.game_board;
    let ghost old_board = board;
    let mut index: usize = 0;
    while index < 5
        invariant
            first == 0 || first == 5,
            index <= 5,
            forall|i: int|
                0 <= i < 10 ==> #[trigger] board[i] == if first <= i < first + index {
                    selected_squares[i - first]
                } else {
                    old_board[i]
                },
        decreases 5 - index,
    {
        board[first + index] = selected_squares[index];
        index = index + 1;
    }
    accounts.chest_vault_account.game_board = board;
    Ok(())
}

/// Why a shot is refused, checked in this order: the game has ended, the
/// signer is not to move, the square has been fired at.
pub open spec fn shot_refusal(v: ChestVaultAccount, signer: Pubkey, row: int, col: int) -> Option<
    ErrorCode,
> {
    if v.score_sheet.game_over {
        Some(ErrorCode::GameIsOver)
    } else if v.score_sheet.current_move@ != signer@ {
        Some(ErrorCode::WrongTurn)
    } else if is_marked(v.game_board[row][col]) {
        Some(ErrorCode::InvalidMove)
    } else {
        None
    }
}

/// The vault after an accepted shot: the square marked, the turn passed on,
/// and the game ended when a player has fourteen hits.
pub open spec fn fired(v: ChestVaultAccount, signer: Pubkey, row: int, col: int, w: ChestVaultAccount) -> bool {
    let rec = v.score_sheet;
    let mark = shot_mark(v.game_board[row][col], signer, rec);
    let hits_one = board_count(w.game_board@, 9);
    let hits_two = board_count(w.game_board@, 8);
    &&& board_with(v.game_board, row, col, mark, w.game_board)
    &&& w.score_sheet.current_move == if rec.current_move@ == rec.player_one@ {
        rec.player_two
    } else {
        rec.player_one
    }
    &&& w.score_sheet.player_one == rec.player_one
    &&& w.score_sheet.player_two == rec.player_two
    &&& w.score_sheet.player_one_score == rec.player_one_score
    &&& w.score_sheet.player_two_score == rec.player_two_score
    &&& if hits_one == 14 {
        w.score_sheet.game_over && w.score_sheet.winner == Some(rec.player_one)
    } else if hits_two == 14 {
        w.score_sheet.game_over && w.score_sheet.winner == Some(rec.player_two)
    } else {
        w.score_sheet.game_over == rec.game_over && w.score_sheet.winner == rec.winner
    }
    &&& w.authority == v.authority
    &&& w.chest_reward == v.chest_reward
    &&& w.password == v.password
    &&& w.entry_fee == v.entry_fee
}

fn count_marks(board: &[[u8; 10]; 10], v: u8) -> (n: u32)
    ensures
        n == board_count(board@, v),
        n <= 100,
{
    let mut n: u32 = 0;
    let mut i: usize = 0;
    while i < 10
        invariant
            i <= 10,
            n == board_count(board@.take(i as int), v),
            n <= 10 * i,
        decreases 10 - i,
    {
        let row = board[i];
        let mut j: usize = 0;
        let mut m: u32 = 0;
        while j < 10
            invariant
                j <= 10,
                m == row_count(row@.take(j as int), v),
                m <= j,
            decreases 10 - j,
        {
            if row[j] == v {
                m = m + 1;
            }
            proof {
                assert(row@.take(j + 1).drop_last() =~= row@.take(j as int));
            }
            j = j + 1;
        }
        proof {
            assert(row@.take(10) =~= row@);
            assert(board@.take(i + 1).drop_last() =~= board@.take(i as int));
        }
        n = n + m;
        i = i + 1;
    }
    assert(board@.take(10) =~= board@);
    n
}

/// Fires at the square `selected_square` = [row, column]. A refused shot
/// leaves everything as it was; an accepted one leaves the vault as
/// `fired` describes.
pub fn make_move(accounts: &mut MakeMove, selected_square: [u8; 2]) -> (r: Result<(), ErrorCode>)
    requires
        !old(accounts).chest_vault_account.score_sheet.game_over
            && old(accounts).chest_vault_account.score_sheet.current_move@ == old(
            accounts,
        ).signer@ ==> selected_square[0] < 10 && selected_square[1] < 10,
    ensures
        match shot_refusal(
            old(accounts).chest_vault_account,
            old(accounts).signer,
            selected_square[0] as int,
            selected_square[1] as int,
        ) {
            Some(e) => r == Err::<(), ErrorCode>(e) && *final(accounts) == *old(accounts),
            None => r == Ok::<(), ErrorCode>(()) && final(accounts).signer == old(accounts).signer
                && fired(
                old(accounts).chest_vault_account,
                old(accounts).signer,
                selected_square[0] as int,
                selected_square[1] as int,
                final(accounts).chest_vault_account,
            ),
        },
{
    if accounts.chest_vault_account.score_sheet.game_over {
        return Err(ErrorCode::GameIsOver);
    }
    if !(accounts.chest_vault_account.score_sheet.current_move == accounts.signer) {
        return Err(ErrorCode::WrongTurn);
    }
    let row = selected_square[0] as usize;
    let col = selected_square[1] as usize;
    let square = accounts.chest_vault_account.game_board[row][col];
    if square == 7 || square == 8 || square == 9 {
        return Err(ErrorCode::InvalidMove);
    }
    let signer = accounts.signer;
    let mark: u8 = if square != 0 && signer == accounts.chest_vault_account.score_sheet.player_one {
        9
    } else if square != 0 && signer == accounts.chest_vault_account.score_sheet.player_two {
        8
    } else {
        7
    };
    let mut board = accounts.chest_vault_account.game_board;
    board[row][col] = mark;
    accounts.chest_vault_account.game_board = board;
    let rec = &mut accounts.chest_vault_account.score_sheet;
    if rec.current_move == rec.player_one {
        rec.current_move = rec.player_two;
    } else {
        rec.current_move = rec.player_one;
    }
    let hits_one = count_marks(&board, 9);
    let hits_two = count_marks(&board, 8);
    if hits_one == 14 {
        rec.game_over = true;
        rec.winner = Some(rec.player_one);
    } else if hits_two == 14 {
        rec.game_over = true;
        rec.winner = Some(rec.player_two);
    }
    Ok(())
}

/// The winner collects the pot, twice the entry fee, from the vault.
/// Refused for anyone but the winner. Nothing in the accounts changes.
pub fn withdraw_loot(accounts: &WithdrawLoot) -> (r: Result<u64, ErrorCode>)
    requires
        accounts.chest_vault_account.score_sheet.winner is Some,
        accounts.chest_vault_account.score_sheet.winner->0@ == accounts.signer@
            ==> accounts.chest_vault_account.entry_fee * 2 <= u64::MAX,
    ensures
        accounts.chest_vault_account.score_sheet.winner->0@ != accounts.signer@ ==> r == Err::<
            u64,
            ErrorCode,
        >(ErrorCode::NotWinner),
        accounts.chest_vault_account.score_sheet.winner->0@ == accounts.signer@ ==> r == Ok::<
            u64,
            ErrorCode,
        >((accounts.chest_vault_account.entry_fee * 2) as u64),
{
    let winner = accounts.chest_vault_account.score_sheet.winner;
    match winner {
        Some(w) => {
            if !(accounts.signer == w) {
                return Err(ErrorCode::NotWinner);
            }
        },
        None => {},
    }
    Ok(accounts.chest_vault_account.entry_fee * 2)
}

/// The authority ends a game that has a winner or still waits for a second
/// player: the score sheet is cleared and the authority leaves the list of
/// creators; the vault is then closed to the signer. Refused while a
/// started game has no winner, and for anyone but the authority.
pub fn close_account(accounts: &mut CloseAccount) -> (r: Result<(), ErrorCode>)
    ensures
        ({
            let v = old(accounts).chest_vault_account;
            if v.score_sheet.winner is None && v.score_sheet.player_two@ != zero_key() {
                r == Err::<(), ErrorCode>(ErrorCode::GameIsNotOver) && *final(accounts) == *old(
                    accounts,
                )
            } else if old(accounts).signer@ != v.authority@ {
                r == Err::<(), ErrorCode>(ErrorCode::NotCreator) && *final(accounts) == *old(
                    accounts,
                )
            } else {
                let w = final(accounts).chest_vault_account;
                &&& r == Ok::<(), ErrorCode>(())
                &&& final(accounts).game_data_account.all_creators@ == without_key(
                    old(accounts).game_data_account.all_creators@,
                    v.authority@,
                )
                &&& w.score_sheet.player_one@ == zero_key()
                &&& w.score_sheet.player_two@ == zero_key()
                &&& w.score_sheet.current_move@ == zero_key()
                &&& w.score_sheet.player_one_score == 0
                &&& w.score_sheet.player_two_score == 0
                &&& !w.score_sheet.game_over
                &&& w.score_sheet.winner is None
                &&& w.authority == v.authority
                &&& w.chest_reward == v.chest_reward
                &&& w.password == v.password
                &&& w.entry_fee == v.entry_fee
                &&& w.game_board == v.game_board
                &&& final(accounts).signer == old(accounts).signer
            }
        }),
{
    if accounts.chest_vault_account.score_sheet.winner.is_none()
        && !accounts.chest_vault_account.score_sheet.player_two.is_zero() {
        return Err(ErrorCode::GameIsNotOver);
    }
    if !(accounts.signer == accounts.chest_vault_account.authority) {
        return Err(ErrorCode::NotCreator);
    }
    let authority = accounts.chest_vault_account.authority;
    accounts.game_data_account.all_creators = remove_key(
        &accounts.game_data_account.all_creators,
        &authority,
    );
    let rec = &mut accounts.chest_vault_account.score_sheet;
    rec.player_one = Pubkey::zero();
    rec.player_one_score = 0;
    rec.player_two = Pubkey::zero();
    rec.player_two_score = 0;
    rec.current_move = Pubkey::zero();
    rec.game_over = false;
    rec.winner = None;
    Ok(())
}

/// How many squares have been fired at.
pub open spec fn mark_count(b: [[u8; 10]; 10]) -> nat {
    board_count(b@, 7) + board_count(b@, 8) + board_count(b@, 9)
}

/// Setting one square of a row changes its count of `v` by what left and
/// what came.
proof fn lemma_row_count_update(r: Seq<u8>, j: int, x: u8, v: u8)
    requires
        0 <= j < r.len(),
    ensures
        row_count(r.update(j, x), v) == row_count(r, v) - (if r[j] == v {
            1int
        } else {
            0int
        }) + (if x == v {
            1int
        } else {
            0int
        }),
    decreases r.len(),
{
    let u = r.update(j, x);
    if j == r.len() - 1 {
        assert(u.drop_last() =~= r.drop_last());
    } else {
        assert(u.drop_last() =~= r.drop_last().update(j, x));
        lemma_row_count_update(r.drop_last(), j, x, v);
    }
}

/// Rows that read the same have the same counts.
proof fn lemma_board_count_same(a: Seq<[u8; 10]>, b: Seq<[u8; 10]>, v: u8)
    requires
        a.len() == b.len(),
        forall|i: int| 0 <= i < a.len() ==> (#[trigger] b[i])@ == a[i]@,
    ensures
        board_count(b, v) == board_count(a, v),
    decreases a.len(),
{
    if a.len() > 0 {
        lemma_board_count_same(a.drop_last(), b.drop_last(), v);
    }
}

/// Setting one square of the rows changes their count of `v` by what left
/// and what came.
proof fn lemma_board_count_update(
    a: Seq<[u8; 10]>,
    b: Seq<[u8; 10]>,
    row: int,
    col: int,
    x: u8,
    v: u8,
)
    requires
        a.len() == b.len(),
        0 <= row < a.len(),
        0 <= col < 10,
        forall|i: int| 0 <= i < a.len() && i != row ==> (#[trigger] b[i])@ == a[i]@,
        b[row]@ == a[row]@.update(col, x),
    ensures
        board_count(b, v) == board_count(a, v) - (if a[row]@[col] == v {
            1int
        } else {
            0int
        }) + (if x == v {
            1int
        } else {
            0int
        }),
    decreases a.len(),
{
    if row == a.len() - 1 {
        lemma_board_count_same(a.drop_last(), b.drop_last(), v);
        lemma_row_count_update(a[row]@, col, x, v);
    } else {
        lemma_board_count_update(a.drop_last(), b.drop_last(), row, col, x, v);
    }
}

/// Each accepted shot marks exactly one more square: the square fired at
/// was unmarked and now holds a mark, and every other square is as it was.
pub proof fn lemma_shot_marks_one_square(
    v: ChestVaultAccount,
    signer: Pubkey,
    row: int,
    col: int,
    w: ChestVaultAccount,
)
    requires
        0 <= row < 10,
        0 <= col < 10,
        shot_refusal(v, signer, row, col) is None,
        fired(v, signer, row, col, w),
    ensures
        mark_count(w.game_board) == mark_count(v.game_board) + 1,
{
    let a = v.game_board;
    let b = w.game_board;
    let mark = shot_mark(a[row][col], signer, v.score_sheet);
    assert forall|i: int| 0 <= i < 10 && i != row implies (#[trigger] b@[i])@ == a@[i]@ by {
        assert forall|j: int| 0 <= j < 10 implies b@[i]@[j] == a@[i]@[j] by {
            assert(b[i][j] == a[i][j]);
        }
        assert(b@[i]@ =~= a@[i]@);
    }
    assert forall|j: int| 0 <= j < 10 implies b@[row]@[j] == a@[row]@.update(col, mark)[j] by {
        assert(b[row][j] == if j == col {
            mark
        } else {
            a[row][j]
        });
    }
    assert(b@[row]@ =~= a@[row]@.update(col, mark));
    lemma_board_count_update(a@, b@, row, col, mark, 7);
    lemma_board_count_update(a@, b@, row, col, mark, 8);
    lemma_board_count_update(a@, b@, row, col, mark, 9);
}

/// What an accepted shot writes on the square fired at: water (0) becomes
/// a miss (7) whoever fires; a ship square becomes 9 when player one fires
/// and 8 when player two fires. A 9 or an 8 is only ever written on a
/// square that held a ship. The turn passes to the other player, and no
/// other square changes.
pub proof fn lemma_shot_mark(
    v: ChestVaultAccount,
    signer: Pubkey,
    row: int,
    col: int,
    w: ChestVaultAccount,
)
    requires
        0 <= row < 10,
        0 <= col < 10,
        fired(v, signer, row, col, w),
    ensures
        ({
            let before = v.game_board[row][col];
            let after = w.game_board[row][col];
            let rec = v.score_sheet;
            &&& before == 0 ==> after == 7
            &&& before != 0 && signer@ == rec.player_one@ ==> after == 9
            &&& before != 0 && signer@ != rec.player_one@ && signer@ == rec.player_two@ ==> after
                == 8
            &&& before != 0 && signer@ != rec.player_one@ && signer@ != rec.player_two@ ==> after
                == 7
            &&& after == 9 ==> before != 0 && signer@ == rec.player_one@
            &&& after == 8 ==> before != 0 && signer@ == rec.player_two@
            &&& after == 7 || after == 8 || after == 9
            &&& rec.current_move@ == rec.player_one@ ==> w.score_sheet.current_move
                == rec.player_two
            &&& rec.current_move@ != rec.player_one@ ==> w.score_sheet.current_move
                == rec.player_one
        }),
        forall|i: int, j: int|
            0 <= i < 10 && 0 <= j < 10 && (i != row || j != col) ==> #[trigger] w.game_board[i][j]
                == v.game_board[i][j],
{
    assert(w.game_board[row][col] == shot_mark(v.game_board[row][col], signer, v.score_sheet));
}

/// The game ends with player one as the winner when the board holds
/// fourteen 9s after a shot, and with player two when it holds fourteen 8s
/// (and not fourteen 9s); otherwise the shot decides nothing.
pub proof fn lemma_shot_winner(
    v: ChestVaultAccount,
    signer: Pubkey,
    row: int,
    col: int,
    w: ChestVaultAccount,
)
    requires
        fired(v, signer, row, col, w),
    ensures
        board_count(w.game_board@, 9) == 14 ==> w.score_sheet.game_over
            && w.score_sheet.winner == Some(v.score_sheet.player_one),
        board_count(w.game_board@, 9) != 14 && board_count(w.game_board@, 8) == 14
            ==> w.score_sheet.game_over && w.score_sheet.winner == Some(v.score_sheet.player_two),
        board_count(w.game_board@, 9) != 14 && board_count(w.game_board@, 8) != 14
            ==> w.score_sheet.game_over == v.score_sheet.game_over && w.score_sheet.winner
            == v.score_sheet.winner,
{
}

} // verus!

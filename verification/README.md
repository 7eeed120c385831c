# solana_games

Verified game rules for five small Solana programs: battleship, mancala, and
three hangman games (`classic`, `hangman`, `lootbox`).

- `src/` is the library, verified with Verus. Each game module holds the
  account data as plain types, the rules of each instruction with contracts
  that say exactly what is returned and how the accounts change, and the laws
  of the game as proof functions (stones are conserved in mancala, each
  battleship shot marks one square, a guessed letter is refused the second
  time, ...). `key` holds account addresses and the list operations on them,
  `text` splitting, joining and index parsing, and `digest` the salted
  SHA3-256 digests of guessed letters (computed by `tiny-keccak` and `hex`).
- `app/` holds the on-chain side: the Anchor account types, the instruction
  handlers that call the library, and the lamport transfers.
- `tests/` runs the library on concrete games.

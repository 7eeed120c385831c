//! Verified game rules of on-chain games: battleship, mancala and three
//! generations of a hangman game.
use vstd::prelude::*;

pub mod battleship;
pub mod classic;
pub mod digest;
pub mod hangman;
pub mod key;
pub mod lootbox;
pub mod mancala;
pub mod text;

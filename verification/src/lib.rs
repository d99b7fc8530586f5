//! A chess rules engine with a fixed-depth alpha-beta search, a Zobrist
//! position hasher and a bucketed transposition table.
//!
//! Every executable function carries a contract over the mathematical models
//! defined next to it.
//!
//! - `piece`, `castle`, `chessboard`: the pieces, the castling rights and the
//!   board, with the moves that the rules allow; `rules` states the rules
//!   over the model of the board, and `lifting` shows that the moves listed
//!   for a side are the moves that the board makes.
//! - `zobrist`: fingerprints of positions.
//! - `table`: the transposition table.
//! - `ai`: the evaluation of a position and the search for the best move.
//! - `game`, `captures`: a game in progress and what each side has lost.
//! - `text`: numbers as text.

use vstd::prelude::*;

pub mod ai;
pub mod captures;
pub mod castle;
pub mod chessboard;
pub mod game;
pub mod lifting;
pub mod piece;
pub mod piece_eq;
pub mod rules;
pub mod table;
pub mod text;
pub mod zobrist;

verus! {

/// Number of files, and of ranks, of the board.
pub const BOARD_SIZE: u8 = 8;

} // verus!

//! The core of a server for a falling-block game that two players play
//! against each other.
//!
//! - [`tetris`]: the pieces and one player's board;
//! - [`grid`]: the field of a board, line clears and penalty rows;
//! - [`board_lemmas`]: what holds of a board over a whole game;
//! - [`tetris_pair`]: two boards that play against each other;
//! - [`tetris_pair_match`]: two boards that share their ticks only;
//! - [`matches`] and [`match_finder`]: pairing players into matches;
//! - [`tetris_matches`]: the matches of the server and the requests of
//!   their players;
//! - [`lru_storage`]: a bounded store that forgets what was used least
//!   recently;
//! - [`event_regulator`]: spreading events evenly over steps;
//! - [`random`]: the source of chance.

pub mod board_lemmas;
pub mod event_regulator;
pub mod grid;
pub mod lru_storage;
pub mod match_finder;
pub mod matches;
pub mod random;
pub mod tetris;
pub mod tetris_matches;
pub mod tetris_pair;
pub mod tetris_pair_match;

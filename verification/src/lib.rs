//! A tic-tac-toe engine: the board with its rules, players that choose moves
//! on it, and the proof that the optimal player is never beaten.
//!
//! - [`board`]: tokens, positions and the board, with the rules for moves and results.
//! - [`grid`]: the mathematical model of the board in which all contracts are stated.
//! - [`player`]: what a player is; [`optimal`] and [`strategies`]: the players.
//! - [`game`]: a game between two players, played to its end.
//! - [`human`]: what a line typed at the console means.
//! - [`defence`], [`openings`] and [`unbeaten`]: why the optimal player draws
//!   against itself and never loses.

pub mod board;
pub mod defence;
pub mod game;
pub mod grid;
pub mod human;
pub mod openings;
pub mod optimal;
pub mod player;
pub mod strategies;
pub mod unbeaten;

//! A rules engine for Xiangqi (Chinese chess).
//!
//! The board is a 9 x 10 grid of intersections.  The engine keeps the pieces
//! that stand on it, decides whether a proposed move obeys the rule of the
//! piece that makes it, resolves captures, and ends a game when a king falls.
//! Every function is verified against a contract stated over the sequence of
//! pieces on the board.

pub mod piece;
pub mod board;
pub mod rules;
pub mod game;
pub mod laws;

//! The rules of chess: a board, moves that can be made and taken back, the
//! generator of the moves that the side to move may make, and the test of
//! whether a king is attacked.
//!
//! A [`board::Board`] is the one value that changes. Its mathematical model
//! is a [`position::Position`]; every contract is stated over that model.
//! An [`action::Action`] is a move as a value: it holds what is needed to
//! make it and to take it back, so that a move can be tried on the board
//! itself and the board be restored without a copy.
//!
//! Each piece carries a flag that says whether it has moved. Making a move
//! sets the flag of the piece that moves; the castling rights of the board
//! are never changed by a move. A king may castle where the right is set and
//! both king and rook still carry a clear flag.
//!
//! - [`piece`], [`action`], [`position`], [`board`]: the data, and making
//!   and taking back a move.
//! - [`moves`], [`generate`]: the pseudo-legal moves, as a sequence in a fixed
//!   order, and the generator that lists it.
//! - [`attack`]: attacked squares and check.
//! - [`legal`]: the legal moves and the state of the game.
//! - [`allowed`], [`permitted`], [`distinct`], [`reversible`], [`laws`]: what
//!   holds of these.
//! - [`setup`], [`wire`]: boards to start from, and positions as text.
//! - [`ai`]: the choice of a move.

pub mod piece;
pub mod action;
pub mod position;
pub mod board;
pub mod moves;
pub mod generate;
pub mod attack;
pub mod allowed;
pub mod reversible;
pub mod permitted;
pub mod distinct;
pub mod setup;
pub mod legal;
pub mod laws;
pub mod ai;
pub mod wire;

//! The moves of the game as values: each one holds what is needed to apply
//! it and to take it back.

use vstd::prelude::*;
use crate::piece::Piece;

verus! {

/// A square, as `(file, rank)`, each from 0 to 7. Rank 0 is Black's back
/// rank, rank 7 is White's.
pub type Square = (u8, u8);

/// A piece goes to an empty square.
#[derive(Clone, Copy, Debug, PartialEq, Eq)]
pub struct Move {
    pub from: Square,
    pub to: Square,
    /// The flag of the piece before the move.
    pub had_moved: bool,
    /// The en-passant file before the move.
    pub prev_can_en_passant: Option<u8>,
}

/// A pawn that has not moved goes two ranks forward.
#[derive(Clone, Copy, Debug, PartialEq, Eq)]
pub struct PawnDoubleMove {
    pub from: Square,
    /// The en-passant file before the move.
    pub prev_can_en_passant: Option<u8>,
}

/// A piece takes the piece on its destination.
#[derive(Clone, Copy, Debug, PartialEq, Eq)]
pub struct Capture {
    pub from: Square,
    pub to: Square,
    pub captured: Piece,
    /// The flag of the capturing piece before the move.
    pub had_moved: bool,
    /// The en-passant file before the move.
    pub prev_can_en_passant: Option<u8>,
}

/// A pawn takes the pawn that has just passed it: it goes to `to`, and the
/// pawn on `(to.0, from.1)` leaves the board.
#[derive(Clone, Copy, Debug, PartialEq, Eq)]
pub struct EnPassant {
    pub from: Square,
    pub to: Square,
}

/// The king goes to `to`, one of the four castling destinations, and the
/// rook of that side jumps over it.
#[derive(Clone, Copy, Debug, PartialEq, Eq)]
pub struct Castle {
    pub to: Square,
    /// The en-passant file before the move.
    pub prev_can_en_passant: Option<u8>,
}

/// A pawn reaches the last rank and becomes `promoted_to`.
#[derive(Clone, Copy, Debug, PartialEq, Eq)]
pub struct Promotion {
    pub from: Square,
    pub to: Square,
    pub promoted_to: Piece,
    /// The en-passant file before the move.
    pub prev_can_en_passant: Option<u8>,
}

/// A pawn takes a piece on the last rank and becomes `promoted_to`.
#[derive(Clone, Copy, Debug, PartialEq, Eq)]
pub struct PromotionCapture {
    pub from: Square,
    pub to: Square,
    pub captured: Piece,
    pub promoted_to: Piece,
    /// The en-passant file before the move.
    pub prev_can_en_passant: Option<u8>,
}

#[derive(Clone, Copy, Debug, PartialEq, Eq)]
pub enum Action {
    Move(Move),
    PawnDoubleMove(PawnDoubleMove),
    Capture(Capture),
    EnPassant(EnPassant),
    Castle(Castle),
    Promotion(Promotion),
    PromotionCapture(PromotionCapture),
}

/// The squares of one castling move.
#[derive(Clone, Copy, Debug, PartialEq, Eq)]
pub struct CastleSquares {
    pub king_from: Square,
    pub rook_from: Square,
    pub rook_to: Square,
}

pub open spec fn on_board(x: int, y: int) -> bool {
    0 <= x < 8 && 0 <= y < 8
}

pub open spec fn square_on_board(sq: Square) -> bool {
    sq.0 < 8 && sq.1 < 8
}

/// The four castling moves, by the king's destination: where the king
/// starts, where the rook starts and where the rook lands.
pub open spec fn spec_castle_squares(to: Square) -> Option<CastleSquares> {
    if to == (2u8, 0u8) {
        Some(CastleSquares { king_from: (4, 0), rook_from: (0, 0), rook_to: (3, 0) })
    } else if to == (6u8, 0u8) {
        Some(CastleSquares { king_from: (4, 0), rook_from: (7, 0), rook_to: (5, 0) })
    } else if to == (2u8, 7u8) {
        Some(CastleSquares { king_from: (4, 7), rook_from: (0, 7), rook_to: (3, 7) })
    } else if to == (6u8, 7u8) {
        Some(CastleSquares { king_from: (4, 7), rook_from: (7, 7), rook_to: (5, 7) })
    } else {
        None
    }
}

/// The squares of the castling move that brings the king to `to`, if `to` is
/// one of the four castling destinations.
#[verifier::when_used_as_spec(spec_castle_squares)]
pub fn castle_squares(to: Square) -> (r: Option<CastleSquares>)
    ensures
        r == spec_castle_squares(to),
{
    if to.1 != 0 && to.1 != 7 {
        None
    } else if to.0 == 2 {
        Some(CastleSquares { king_from: (4, to.1), rook_from: (0, to.1), rook_to: (3, to.1) })
    } else if to.0 == 6 {
        Some(CastleSquares { king_from: (4, to.1), rook_from: (7, to.1), rook_to: (5, to.1) })
    } else {
        None
    }
}

impl Action {
    /// The squares of the action lie on the board, and a castle names one of
    /// the four castling destinations.
    pub open spec fn wf(self) -> bool {
        match self {
            Action::Move(m) => square_on_board(m.from) && square_on_board(m.to),
            Action::PawnDoubleMove(m) => square_on_board(m.from),
            Action::Capture(m) => square_on_board(m.from) && square_on_board(m.to),
            Action::EnPassant(m) => square_on_board(m.from) && square_on_board(m.to),
            Action::Castle(m) => spec_castle_squares(m.to) is Some,
            Action::Promotion(m) => square_on_board(m.from) && square_on_board(m.to),
            Action::PromotionCapture(m) => square_on_board(m.from) && square_on_board(m.to),
        }
    }

    /// The en-passant file that the position had before the action: the one
    /// the action holds; for an en-passant capture, the file it lands on.
    pub open spec fn prior_en_passant(self) -> Option<u8> {
        match self {
            Action::Move(m) => m.prev_can_en_passant,
            Action::PawnDoubleMove(m) => m.prev_can_en_passant,
            Action::Capture(m) => m.prev_can_en_passant,
            Action::EnPassant(m) => Some(m.to.0),
            Action::Castle(m) => m.prev_can_en_passant,
            Action::Promotion(m) => m.prev_can_en_passant,
            Action::PromotionCapture(m) => m.prev_can_en_passant,
        }
    }
}

} // verus!

//! The mathematical model of a board, and what applying and taking back an
//! action do to it.

use vstd::prelude::*;
use crate::action::{Action, Square, on_board, spec_castle_squares};
use crate::piece::{Color, Piece, Type};

verus! {

/// A board as a value of mathematics: eight rows of eight squares, the four
/// castling rights, the en-passant file and the side to move.
pub struct Position {
    /// `squares[rank][file]`.
    pub squares: Seq<Seq<Piece>>,
    pub can_castle_black_queenside: bool,
    pub can_castle_black_kingside: bool,
    pub can_castle_white_queenside: bool,
    pub can_castle_white_kingside: bool,
    pub can_en_passant: Option<u8>,
    pub turn: Color,
}

/// The rank on which the pawns of a colour start.
pub open spec fn pawn_home_rank(color: Color) -> int {
    match color {
        Color::Black => 1,
        Color::White => 6,
    }
}

/// The step of a pawn along the ranks: Black's pawns go towards rank 7,
/// White's towards rank 0.
pub open spec fn forward(color: Color) -> int {
    match color {
        Color::Black => 1,
        Color::White => -1,
    }
}

/// The rank on which a pawn of a colour lands when it makes its double step
/// from its home rank.
pub open spec fn spec_double_step_rank(color: Color) -> u8 {
    match color {
        Color::Black => 3,
        Color::White => 4,
    }
}

/// The rank on which a pawn of a colour lands when it makes its double step
/// from its home rank.
#[verifier::when_used_as_spec(spec_double_step_rank)]
pub fn double_step_rank(color: Color) -> (r: u8)
    ensures
        r == spec_double_step_rank(color),
{
    match color {
        Color::Black => 3,
        Color::White => 4,
    }
}

/// The square two ranks ahead of `from` lies on the board, for a pawn of
/// `color`.
pub open spec fn double_step_lands(from: Square, color: Color) -> bool {
    0 <= from.1 + 2 * forward(color) < 8
}

pub open spec fn spec_double_step_square(from: Square, color: Color) -> Square {
    (from.0, (from.1 + 2 * forward(color)) as u8)
}

/// The square two ranks ahead of `from`, for a pawn of `color`.
#[verifier::when_used_as_spec(spec_double_step_square)]
pub fn double_step_square(from: Square, color: Color) -> (r: Square)
    requires
        double_step_lands(from, color),
    ensures
        r == spec_double_step_square(from, color),
{
    match color {
        Color::Black => (from.0, from.1 + 2),
        Color::White => (from.0, from.1 - 2),
    }
}

impl Position {
    /// Eight rows of eight squares.
    pub open spec fn wf(self) -> bool {
        &&& self.squares.len() == 8
        &&& forall|y: int| 0 <= y < 8 ==> (#[trigger] self.squares[y]).len() == 8
    }

    /// The piece on file `x`, rank `y`.
    pub open spec fn at(self, x: int, y: int) -> Piece {
        self.squares[y][x]
    }

    /// The piece on a square.
    pub open spec fn piece_at(self, sq: Square) -> Piece {
        self.at(sq.0 as int, sq.1 as int)
    }

    /// The position with `p` on file `x`, rank `y`.
    pub open spec fn put(self, x: int, y: int, p: Piece) -> Position {
        Position { squares: self.squares.update(y, self.squares[y].update(x, p)), ..self }
    }

    /// The position with `p` on a square.
    pub open spec fn place(self, sq: Square, p: Piece) -> Position {
        self.put(sq.0 as int, sq.1 as int, p)
    }

    /// Whether the right to castle on that side is set.
    pub open spec fn castling_right(self, color: Color, kingside: bool) -> bool {
        match color {
            Color::Black => if kingside {
                self.can_castle_black_kingside
            } else {
                self.can_castle_black_queenside
            },
            Color::White => if kingside {
                self.can_castle_white_kingside
            } else {
                self.can_castle_white_queenside
            },
        }
    }

    /// The position with the right to castle on that side set to `value`.
    pub open spec fn with_castling_right(self, color: Color, kingside: bool, value: bool)
        -> Position {
        match color {
            Color::Black => if kingside {
                Position { can_castle_black_kingside: value, ..self }
            } else {
                Position { can_castle_black_queenside: value, ..self }
            },
            Color::White => if kingside {
                Position { can_castle_white_kingside: value, ..self }
            } else {
                Position { can_castle_white_queenside: value, ..self }
            },
        }
    }

    /// The piece on `from` goes to `to`, marked as moved, and leaves `from`
    /// empty.
    pub open spec fn relocate(self, from: Square, to: Square) -> Position {
        self.place(to, self.piece_at(from).spec_with_moved(true)).place(from, Piece::spec_empty())
    }

    /// The action can be made on this position: its squares lie on the
    /// board, a castle names one of the four castling destinations, and a
    /// double step lands on the board, two ranks ahead of where the pawn
    /// stands.
    pub open spec fn can_make(self, a: Action) -> bool {
        &&& a.wf()
        &&& a matches Action::PawnDoubleMove(m) ==> double_step_lands(
            m.from,
            self.piece_at(m.from).spec_color(),
        )
    }

    /// The action can be taken back on this position, which is the one
    /// after it: as `can_make`, with the double step counted for the side
    /// that is not to move now.
    pub open spec fn can_take_back(self, a: Action) -> bool {
        &&& a.wf()
        &&& a matches Action::PawnDoubleMove(m) ==> double_step_lands(
            m.from,
            self.turn.spec_opposite(),
        )
    }

    /// What the action does to the squares. A double step brings the pawn
    /// two ranks ahead of where it stands.
    pub open spec fn apply_squares(self, a: Action) -> Position {
        match a {
            Action::Move(m) => self.relocate(m.from, m.to),
            Action::PawnDoubleMove(m) => self.relocate(
                m.from,
                spec_double_step_square(m.from, self.piece_at(m.from).spec_color()),
            ),
            Action::Capture(m) => self.relocate(m.from, m.to),
            Action::EnPassant(m) => self.relocate(m.from, m.to).place(
                (m.to.0, m.from.1),
                Piece::spec_empty(),
            ),
            Action::Castle(m) => match spec_castle_squares(m.to) {
                Some(c) => self.relocate(c.king_from, m.to).relocate(c.rook_from, c.rook_to),
                None => self,
            },
            Action::Promotion(m) => self.place(m.to, m.promoted_to).place(
                m.from,
                Piece::spec_empty(),
            ),
            Action::PromotionCapture(m) => self.place(m.to, m.promoted_to).place(
                m.from,
                Piece::spec_empty(),
            ),
        }
    }

    /// The position after the action: the squares change as the action says,
    /// the other side is to move, and the en-passant file is that of a double
    /// step, or none.
    pub open spec fn apply(self, a: Action) -> Position {
        Position {
            can_en_passant: match a {
                Action::PawnDoubleMove(m) => Some(m.from.0),
                _ => None,
            },
            turn: self.turn.spec_opposite(),
            ..self.apply_squares(a)
        }
    }

    /// The piece on `to` goes back to `from` with the flag `had_moved`, and
    /// `left` stands on `to`.
    pub open spec fn put_back(self, from: Square, to: Square, had_moved: bool, left: Piece)
        -> Position {
        self.place(from, self.piece_at(to).spec_with_moved(had_moved)).place(to, left)
    }

    /// What taking the action back does to the squares. The side that made
    /// the move is the one that is not to move now.
    pub open spec fn undo_squares(self, a: Action) -> Position {
        let mover = self.turn.spec_opposite();
        match a {
            Action::Move(m) => self.put_back(m.from, m.to, m.had_moved, Piece::spec_empty()),
            Action::PawnDoubleMove(m) => self.put_back(
                m.from,
                spec_double_step_square(m.from, mover),
                false,
                Piece::spec_empty(),
            ),
            Action::Capture(m) => self.put_back(m.from, m.to, m.had_moved, m.captured),
            Action::EnPassant(m) => self.put_back(m.from, m.to, true, Piece::spec_empty()).place(
                (m.to.0, m.from.1),
                Piece::spec_encode(self.piece_at(m.to).spec_color().spec_opposite(), Type::Pawn, true),
            ),
            Action::Castle(m) => match spec_castle_squares(m.to) {
                Some(c) => self.put_back(c.king_from, m.to, false, Piece::spec_empty()).put_back(
                    c.rook_from,
                    c.rook_to,
                    false,
                    Piece::spec_empty(),
                ),
                None => self,
            },
            Action::Promotion(m) => self.place(
                m.from,
                Piece::spec_encode(m.promoted_to.spec_color(), Type::Pawn, true),
            ).place(m.to, Piece::spec_empty()),
            Action::PromotionCapture(m) => self.place(
                m.from,
                Piece::spec_encode(m.promoted_to.spec_color(), Type::Pawn, true),
            ).place(m.to, m.captured),
        }
    }

    /// The position before the action, rebuilt from the position after it and
    /// from what the action holds.
    pub open spec fn undo(self, a: Action) -> Position {
        Position {
            can_en_passant: a.prior_en_passant(),
            turn: self.turn.spec_opposite(),
            ..self.undo_squares(a)
        }
    }

    /// The rank of the pawn that an en-passant capture by the side to move
    /// takes: where the other side's double step landed.
    pub open spec fn en_passant_pawn_rank(self) -> int {
        spec_double_step_rank(self.turn.spec_opposite()) as int
    }

    /// What holds of every position that play reaches: the pieces are valid,
    /// a pawn away from its home rank is marked as moved, and an en-passant
    /// file names a pawn of the other side that stands where its double step
    /// landed, with the square it passed over empty.
    pub open spec fn consistent(self) -> bool {
        &&& self.wf()
        &&& forall|x: int, y: int| on_board(x, y) ==> (#[trigger] self.at(x, y)).valid()
        &&& forall|x: int, y: int|
            on_board(x, y) && (#[trigger] self.at(x, y)).is_kind(Type::Pawn) && y != pawn_home_rank(
                self.at(x, y).spec_color(),
            ) ==> self.at(x, y).spec_has_moved()
        &&& self.can_en_passant matches Some(f) ==> {
            &&& f < 8
            &&& self.at(f as int, self.en_passant_pawn_rank()) == Piece::spec_encode(
                self.turn.spec_opposite(),
                Type::Pawn,
                true,
            )
            &&& self.at(f as int, self.en_passant_pawn_rank() + forward(self.turn)) == Piece::spec_empty()
        }
    }
}

} // verus!

//! The board, and the two operations that change it: applying an action and
//! taking it back.

use vstd::prelude::*;
use crate::action::{Action, Square, castle_squares, square_on_board};
use crate::piece::{Color, Piece, Type};
use crate::position::{Position, double_step_square};

verus! {

/// The squares, the four castling rights, the file on which a pawn may be
/// taken en passant, and the side to move. Nothing is checked when a field
/// is written: what a board must satisfy for the legal moves to be found
/// on it is [`Position::consistent`].
#[derive(Clone, Copy, Debug, PartialEq, Eq)]
pub struct Board {
    /// `squares[rank][file]`.
    pub squares: [[Piece; 8]; 8],
    pub can_castle_black_queenside: bool,
    pub can_castle_black_kingside: bool,
    pub can_castle_white_queenside: bool,
    pub can_castle_white_kingside: bool,
    pub can_en_passant: Option<u8>,
    pub turn: Color,
}

impl View for Board {
    type V = Position;

    open spec fn view(&self) -> Position {
        Position {
            squares: Seq::new(8, |y: int| self.squares[y]@),
            can_castle_black_queenside: self.can_castle_black_queenside,
            can_castle_black_kingside: self.can_castle_black_kingside,
            can_castle_white_queenside: self.can_castle_white_queenside,
            can_castle_white_kingside: self.can_castle_white_kingside,
            can_en_passant: self.can_en_passant,
            turn: self.turn,
        }
    }
}

impl Board {
    /// A board is the position it shows, and nothing more.
    pub proof fn lemma_view_injective(a: Board, b: Board)
        requires
            a@ == b@,
        ensures
            a == b,
    {
        assert forall|y: int| 0 <= y < 8 implies a.squares[y] == b.squares[y] by {
            assert(a@.squares[y] == b@.squares[y]);
            assert(a.squares[y]@ == b.squares[y]@);
            assert(a.squares[y] =~= b.squares[y]);
        }
        assert(a.squares =~= b.squares);
    }

    /// The piece on a square.
    pub fn get(&self, sq: Square) -> (r: Piece)
        requires
            square_on_board(sq),
        ensures
            r == self@.piece_at(sq),
    {
        self.squares[sq.1 as usize][sq.0 as usize]
    }

    /// Puts a piece on a square.
    pub fn put(&mut self, sq: Square, p: Piece)
        requires
            square_on_board(sq),
        ensures
            final(self)@ == old(self)@.place(sq, p),
    {
        self.squares[sq.1 as usize][sq.0 as usize] = p;
        assert(self@.squares =~~= old(self)@.place(sq, p).squares);
    }

    /// The side to move.
    pub fn side_to_move(&self) -> (r: Color)
        ensures
            r == self@.turn,
    {
        self.turn
    }

    /// The file on which a pawn may be taken en passant, if the last move
    /// was a double step.
    pub fn en_passant_file(&self) -> (r: Option<u8>)
        ensures
            r == self@.can_en_passant,
    {
        self.can_en_passant
    }

    /// Sets the en-passant file, and nothing else.
    pub fn set_en_passant_file(&mut self, file: Option<u8>)
        ensures
            final(self)@ == (Position { can_en_passant: file, ..old(self)@ }),
    {
        self.can_en_passant = file;
    }

    /// Whether the right to castle on that side is set.
    pub fn castling_right(&self, color: Color, kingside: bool) -> (r: bool)
        ensures
            r == self@.castling_right(color, kingside),
    {
        match color {
            Color::Black => if kingside {
                self.can_castle_black_kingside
            } else {
                self.can_castle_black_queenside
            },
            Color::White => if kingside {
                self.can_castle_white_kingside
            } else {
                self.can_castle_white_queenside
            },
        }
    }

    /// Sets the right to castle on that side, and nothing else.
    pub fn set_castling_right(&mut self, color: Color, kingside: bool, value: bool)
        ensures
            final(self)@ == old(self)@.with_castling_right(color, kingside, value),
    {
        match color {
            Color::Black => if kingside {
                self.can_castle_black_kingside = value;
            } else {
                self.can_castle_black_queenside = value;
            },
            Color::White => if kingside {
                self.can_castle_white_kingside = value;
            } else {
                self.can_castle_white_queenside = value;
            },
        }
    }

    /// Hands the move to the other side.
    pub fn toggle_side_to_move(&mut self)
        ensures
            final(self)@ == (Position { turn: old(self)@.turn.spec_opposite(), ..old(self)@ }),
    {
        self.turn = self.turn.opposite();
    }

    fn relocate(&mut self, from: Square, to: Square)
        requires
            square_on_board(from),
            square_on_board(to),
        ensures
            final(self)@ == old(self)@.relocate(from, to),
    {
        let piece = self.get(from);
        self.put(to, piece.with_moved(true));
        self.put(from, Piece::empty());
    }

    fn put_back(&mut self, from: Square, to: Square, had_moved: bool, left: Piece)
        requires
            square_on_board(from),
            square_on_board(to),
        ensures
            final(self)@ == old(self)@.put_back(from, to, had_moved, left),
    {
        let piece = self.get(to);
        self.put(from, piece.with_moved(had_moved));
        self.put(to, left);
    }

    /// Makes the move: the squares change as the action says, the other side
    /// is to move, and the en-passant file is that of a double step, or none.
    pub fn apply_action(&mut self, action: &Action)
        requires
            old(self)@.can_make(*action),
        ensures
            final(self)@ == old(self)@.apply(*action),
    {
        match action {
            Action::Move(m) => {
                self.relocate(m.from, m.to);
                self.can_en_passant = None;
            },
            Action::PawnDoubleMove(m) => {
                let target = double_step_square(m.from, self.get(m.from).color());
                self.relocate(m.from, target);
                self.can_en_passant = Some(m.from.0);
            },
            Action::Capture(m) => {
                self.relocate(m.from, m.to);
                self.can_en_passant = None;
            },
            Action::EnPassant(m) => {
                self.relocate(m.from, m.to);
                self.put((m.to.0, m.from.1), Piece::empty());
                self.can_en_passant = None;
            },
            Action::Castle(m) => {
                match castle_squares(m.to) {
                    Some(c) => {
                        self.relocate(c.king_from, m.to);
                        self.relocate(c.rook_from, c.rook_to);
                    },
                    None => {},
                }
                self.can_en_passant = None;
            },
            Action::Promotion(m) => {
                self.put(m.to, m.promoted_to);
                self.put(m.from, Piece::empty());
                self.can_en_passant = None;
            },
            Action::PromotionCapture(m) => {
                self.put(m.to, m.promoted_to);
                self.put(m.from, Piece::empty());
                self.can_en_passant = None;
            },
        }
        self.toggle_side_to_move();
    }

    /// Takes the move back: the squares, the side to move and the en-passant
    /// file become what the action says they were before it.
    pub fn undo_action(&mut self, action: &Action)
        requires
            old(self)@.can_take_back(*action),
        ensures
            final(self)@ == old(self)@.undo(*action),
    {
        let mover = self.turn.opposite();
        match action {
            Action::Move(m) => {
                self.put_back(m.from, m.to, m.had_moved, Piece::empty());
                self.can_en_passant = m.prev_can_en_passant;
            },
            Action::PawnDoubleMove(m) => {
                let target = double_step_square(m.from, mover);
                self.put_back(m.from, target, false, Piece::empty());
                self.can_en_passant = m.prev_can_en_passant;
            },
            Action::Capture(m) => {
                self.put_back(m.from, m.to, m.had_moved, m.captured);
                self.can_en_passant = m.prev_can_en_passant;
            },
            Action::EnPassant(m) => {
                let captured_color = self.get(m.to).color().opposite();
                self.put_back(m.from, m.to, true, Piece::empty());
                self.put((m.to.0, m.from.1), Piece::encode(captured_color, Type::Pawn, true));
                self.can_en_passant = Some(m.to.0);
            },
            Action::Castle(m) => {
                match castle_squares(m.to) {
                    Some(c) => {
                        self.put_back(c.king_from, m.to, false, Piece::empty());
                        self.put_back(c.rook_from, c.rook_to, false, Piece::empty());
                    },
                    None => {},
                }
                self.can_en_passant = m.prev_can_en_passant;
            },
            Action::Promotion(m) => {
                self.put(m.from, Piece::encode(m.promoted_to.color(), Type::Pawn, true));
                self.put(m.to, Piece::empty());
                self.can_en_passant = m.prev_can_en_passant;
            },
            Action::PromotionCapture(m) => {
                self.put(m.from, Piece::encode(m.promoted_to.color(), Type::Pawn, true));
                self.put(m.to, m.captured);
                self.can_en_passant = m.prev_can_en_passant;
            },
        }
        self.toggle_side_to_move();
    }
}

} // verus!

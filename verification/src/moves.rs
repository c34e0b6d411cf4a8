//! Which actions the side to move may make when the safety of its king is
//! left aside, and in which order the generator lists them.

use vstd::prelude::*;
use crate::action::{
    Action,
    Capture,
    Castle,
    EnPassant,
    Move,
    PawnDoubleMove,
    Promotion,
    PromotionCapture,
    on_board,
};
use crate::piece::{Color, Occupant, Piece, Type};
use crate::position::{Position, forward, spec_double_step_rank};

verus! {

/// The rank on which the king and the rooks of a colour start.
pub open spec fn spec_back_rank(color: Color) -> u8 {
    match color {
        Color::Black => 0,
        Color::White => 7,
    }
}

/// The rank on which the king and the rooks of a colour start.
#[verifier::when_used_as_spec(spec_back_rank)]
pub fn back_rank(color: Color) -> (r: u8)
    ensures
        r == spec_back_rank(color),
{
    match color {
        Color::Black => 0,
        Color::White => 7,
    }
}

/// The rank on which a pawn may take en passant: the one on which the other
/// side's double step lands.
pub open spec fn en_passant_rank(color: Color) -> int {
    spec_double_step_rank(color.spec_opposite()) as int
}

/// The four kinds a pawn may become, in the order in which the generator
/// lists them.
pub open spec fn promotion_kinds() -> Seq<Type> {
    seq![Type::Queen, Type::Rook, Type::Bishop, Type::Knight]
}

impl Position {
    /// The square is on the board and empty.
    pub open spec fn is_free(self, x: int, y: int) -> bool {
        on_board(x, y) && self.at(x, y)@ is None
    }

    /// The square is on the board and holds a piece that is not of `color`.
    pub open spec fn holds_enemy_of(self, x: int, y: int, color: Color) -> bool {
        on_board(x, y) && (self.at(x, y)@ matches Some(o) && o.color != color)
    }

    /// The piece on `(x, y)` goes to the empty square `(tx, ty)`.
    pub open spec fn move_to(self, x: int, y: int, tx: int, ty: int) -> Action {
        Action::Move(
            Move {
                from: (x as u8, y as u8),
                to: (tx as u8, ty as u8),
                had_moved: self.at(x, y).spec_has_moved(),
                prev_can_en_passant: self.can_en_passant,
            },
        )
    }

    /// The piece on `(x, y)` takes the piece on `(tx, ty)`.
    pub open spec fn capture_on(self, x: int, y: int, tx: int, ty: int) -> Action {
        Action::Capture(
            Capture {
                from: (x as u8, y as u8),
                to: (tx as u8, ty as u8),
                captured: self.at(tx, ty),
                had_moved: self.at(x, y).spec_has_moved(),
                prev_can_en_passant: self.can_en_passant,
            },
        )
    }

    /// One step of the piece on `(x, y)` to `(tx, ty)`: a move if the square
    /// is empty, a capture if it holds a piece of the other colour, nothing
    /// if it holds one of its own or lies off the board.
    pub open spec fn step_actions(self, x: int, y: int, tx: int, ty: int) -> Seq<Action> {
        if self.is_free(tx, ty) {
            seq![self.move_to(x, y, tx, ty)]
        } else if self.holds_enemy_of(tx, ty, self.at(x, y).spec_color()) {
            seq![self.capture_on(x, y, tx, ty)]
        } else {
            Seq::empty()
        }
    }

    /// The ray of the piece on `(x, y)` that has reached `(cx, cy)` and goes
    /// on by `(dx, dy)`, for at most `n` more squares: moves over empty
    /// squares, then a capture if the first piece met is of the other colour.
    pub open spec fn ray_actions(
        self,
        x: int,
        y: int,
        cx: int,
        cy: int,
        dx: int,
        dy: int,
        n: nat,
    ) -> Seq<Action>
        decreases n,
    {
        if n == 0 {
            Seq::empty()
        } else if self.is_free(cx + dx, cy + dy) {
            seq![self.move_to(x, y, cx + dx, cy + dy)] + self.ray_actions(
                x,
                y,
                cx + dx,
                cy + dy,
                dx,
                dy,
                (n - 1) as nat,
            )
        } else {
            self.step_actions(x, y, cx + dx, cy + dy)
        }
    }

    /// The whole ray from `(x, y)` in the direction `(dx, dy)`.
    pub open spec fn ray(self, x: int, y: int, dx: int, dy: int) -> Seq<Action> {
        self.ray_actions(x, y, x, y, dx, dy, 7)
    }

    /// The four diagonal rays.
    pub open spec fn bishop_actions(self, x: int, y: int) -> Seq<Action> {
        self.ray(x, y, 1, 1) + self.ray(x, y, 1, -1) + self.ray(x, y, -1, 1) + self.ray(
            x,
            y,
            -1,
            -1,
        )
    }

    /// The four rays along a rank or a file.
    pub open spec fn rook_actions(self, x: int, y: int) -> Seq<Action> {
        self.ray(x, y, 1, 0) + self.ray(x, y, -1, 0) + self.ray(x, y, 0, 1) + self.ray(
            x,
            y,
            0,
            -1,
        )
    }

    /// The diagonal rays, then those along a rank or a file.
    pub open spec fn queen_actions(self, x: int, y: int) -> Seq<Action> {
        self.bishop_actions(x, y) + self.rook_actions(x, y)
    }

    /// The eight jumps of a knight.
    pub open spec fn knight_actions(self, x: int, y: int) -> Seq<Action> {
        self.step_actions(x, y, x + 1, y + 2) + self.step_actions(x, y, x + 2, y + 1)
            + self.step_actions(x, y, x + 2, y - 1) + self.step_actions(x, y, x + 1, y - 2)
            + self.step_actions(x, y, x - 1, y - 2) + self.step_actions(x, y, x - 2, y - 1)
            + self.step_actions(x, y, x - 2, y + 1) + self.step_actions(x, y, x - 1, y + 2)
    }

    /// The eight squares next to the king.
    pub open spec fn king_steps(self, x: int, y: int) -> Seq<Action> {
        self.step_actions(x, y, x + 1, y + 1) + self.step_actions(x, y, x + 1, y)
            + self.step_actions(x, y, x + 1, y - 1) + self.step_actions(x, y, x, y + 1)
            + self.step_actions(x, y, x, y - 1) + self.step_actions(x, y, x - 1, y + 1)
            + self.step_actions(x, y, x - 1, y) + self.step_actions(x, y, x - 1, y - 1)
    }

    /// The squares between the king and the rook of that side are empty.
    pub open spec fn castle_path_free(self, rank: int, kingside: bool) -> bool {
        if kingside {
            self.is_free(5, rank) && self.is_free(6, rank)
        } else {
            self.is_free(1, rank) && self.is_free(2, rank) && self.is_free(3, rank)
        }
    }

    /// The king on `(x, y)` may castle on that side, as far as the squares
    /// tell: the right is there, king and rook stand on their first squares
    /// and have not moved, and nothing stands between them.
    pub open spec fn may_castle(self, x: int, y: int, kingside: bool) -> bool {
        let color = self.at(x, y).spec_color();
        let rank = spec_back_rank(color) as int;
        let rook_x: int = if kingside {
            7
        } else {
            0
        };
        &&& x == 4
        &&& y == rank
        &&& self.castling_right(color, kingside)
        &&& !self.at(x, y).spec_has_moved()
        &&& self.at(rook_x, rank)@ == Some(Occupant { color, kind: Type::Rook, has_moved: false })
        &&& self.castle_path_free(rank, kingside)
    }

    /// The castling move of the king on `(x, y)` on that side, if it may
    /// castle there.
    pub open spec fn castle_actions(self, x: int, y: int, kingside: bool) -> Seq<Action> {
        if self.may_castle(x, y, kingside) {
            seq![
                Action::Castle(
                    Castle {
                        to: (
                            if kingside {
                                6u8
                            } else {
                                2u8
                            },
                            y as u8,
                        ),
                        prev_can_en_passant: self.can_en_passant,
                    },
                ),
            ]
        } else {
            Seq::empty()
        }
    }

    /// The steps of the king, then castling on the queen's side, then on the
    /// king's side.
    pub open spec fn king_actions(self, x: int, y: int) -> Seq<Action> {
        self.king_steps(x, y) + self.castle_actions(x, y, false) + self.castle_actions(
            x,
            y,
            true,
        )
    }

    /// The pawn on `(x, y)` reaches the last rank on the empty square
    /// `(tx, ty)` and becomes a piece of `kind`.
    pub open spec fn promotion_to(self, x: int, y: int, tx: int, ty: int, kind: Type) -> Action {
        Action::Promotion(
            Promotion {
                from: (x as u8, y as u8),
                to: (tx as u8, ty as u8),
                promoted_to: Piece::spec_encode(self.at(x, y).spec_color(), kind, true),
                prev_can_en_passant: self.can_en_passant,
            },
        )
    }

    /// The pawn on `(x, y)` takes the piece on `(tx, ty)` on the last rank
    /// and becomes a piece of `kind`.
    pub open spec fn promotion_capture_on(self, x: int, y: int, tx: int, ty: int, kind: Type)
        -> Action {
        Action::PromotionCapture(
            PromotionCapture {
                from: (x as u8, y as u8),
                to: (tx as u8, ty as u8),
                captured: self.at(tx, ty),
                promoted_to: Piece::spec_encode(self.at(x, y).spec_color(), kind, true),
                prev_can_en_passant: self.can_en_passant,
            },
        )
    }

    /// The pawn on `(x, y)`, one rank forward: onto an empty square, as four
    /// promotions where that square lies on rank 0 or 7, else as a move.
    pub open spec fn pawn_single(self, x: int, y: int) -> Seq<Action> {
        let ty = y + forward(self.at(x, y).spec_color());
        if !self.is_free(x, ty) {
            Seq::empty()
        } else if ty == 0 || ty == 7 {
            Seq::new(4, |i: int| self.promotion_to(x, y, x, ty, promotion_kinds()[i]))
        } else {
            seq![self.move_to(x, y, x, ty)]
        }
    }

    /// The pawn on `(x, y)`, two ranks forward: if it has not moved and both
    /// squares are empty.
    pub open spec fn pawn_double(self, x: int, y: int) -> Seq<Action> {
        let step = forward(self.at(x, y).spec_color());
        if !self.at(x, y).spec_has_moved() && self.is_free(x, y + step) && self.is_free(
            x,
            y + 2 * step,
        ) {
            seq![
                Action::PawnDoubleMove(
                    PawnDoubleMove {
                        from: (x as u8, y as u8),
                        prev_can_en_passant: self.can_en_passant,
                    },
                ),
            ]
        } else {
            Seq::empty()
        }
    }

    /// The pawn on `(x, y)` takes on file `tx`, one rank forward: a piece of
    /// the other colour, as four promotions where that square lies on rank 0
    /// or 7, else as a capture.
    pub open spec fn pawn_capture(self, x: int, y: int, tx: int) -> Seq<Action> {
        let ty = y + forward(self.at(x, y).spec_color());
        if !self.holds_enemy_of(tx, ty, self.at(x, y).spec_color()) {
            Seq::empty()
        } else if ty == 0 || ty == 7 {
            Seq::new(4, |i: int| self.promotion_capture_on(x, y, tx, ty, promotion_kinds()[i]))
        } else {
            seq![self.capture_on(x, y, tx, ty)]
        }
    }

    /// The pawn on `(x, y)` takes en passant: if it stands on the rank where
    /// the other side's double step lands, and the en-passant file is the
    /// file next to its own.
    pub open spec fn pawn_en_passant(self, x: int, y: int) -> Seq<Action> {
        let color = self.at(x, y).spec_color();
        if y == en_passant_rank(color) && (self.can_en_passant matches Some(f) && f < 8 && (f == x
            - 1 || f == x + 1)) {
            seq![
                Action::EnPassant(
                    EnPassant {
                        from: (x as u8, y as u8),
                        to: (self.can_en_passant->0, (y + forward(color)) as u8),
                    },
                ),
            ]
        } else {
            Seq::empty()
        }
    }

    /// The single step, the double step, the capture towards file 0, the
    /// capture towards file 7, and the en-passant capture.
    pub open spec fn pawn_actions(self, x: int, y: int) -> Seq<Action> {
        self.pawn_single(x, y) + self.pawn_double(x, y) + self.pawn_capture(x, y, x - 1)
            + self.pawn_capture(x, y, x + 1) + self.pawn_en_passant(x, y)
    }

    /// What the piece on `(x, y)` may do: nothing if the square is empty or
    /// the piece is not of the side to move.
    pub open spec fn square_actions(self, x: int, y: int) -> Seq<Action> {
        match self.at(x, y)@ {
            None => Seq::empty(),
            Some(o) => if o.color != self.turn {
                Seq::empty()
            } else {
                match o.kind {
                    Type::Pawn => self.pawn_actions(x, y),
                    Type::Knight => self.knight_actions(x, y),
                    Type::Bishop => self.bishop_actions(x, y),
                    Type::Rook => self.rook_actions(x, y),
                    Type::Queen => self.queen_actions(x, y),
                    Type::King => self.king_actions(x, y),
                }
            },
        }
    }

    /// The actions of the first `n` squares, rank by rank from rank 0, and
    /// within a rank file by file from file 0.
    pub open spec fn pseudo_legal_upto(self, n: nat) -> Seq<Action>
        decreases n,
    {
        if n == 0 {
            Seq::empty()
        } else {
            self.pseudo_legal_upto((n - 1) as nat) + self.square_actions(
                (n - 1) % 8,
                (n - 1) / 8,
            )
        }
    }

    /// Every action of the side to move that obeys how the pieces move,
    /// whether or not it leaves the mover's king attacked.
    pub open spec fn pseudo_legal(self) -> Seq<Action> {
        self.pseudo_legal_upto(64)
    }
}

} // verus!

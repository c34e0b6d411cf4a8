//! Boards to start from, and the test of whether a board is consistent.

use vstd::prelude::*;
use crate::action::on_board;
use crate::board::Board;
use crate::piece::{Color, Piece, Type, group_piece_model};
use crate::position::{Position, double_step_rank, pawn_home_rank};

verus! {

/// The kind of piece that starts on a file of the back rank.
pub open spec fn spec_back_rank_kind(x: int) -> Type {
    if x == 0 || x == 7 {
        Type::Rook
    } else if x == 1 || x == 6 {
        Type::Knight
    } else if x == 2 || x == 5 {
        Type::Bishop
    } else if x == 3 {
        Type::Queen
    } else {
        Type::King
    }
}

/// What stands on `(x, y)` when the game starts.
pub open spec fn initial_piece(x: int, y: int) -> Piece {
    if y == 0 {
        Piece::spec_encode(Color::Black, spec_back_rank_kind(x), false)
    } else if y == 1 {
        Piece::spec_encode(Color::Black, Type::Pawn, false)
    } else if y == 6 {
        Piece::spec_encode(Color::White, Type::Pawn, false)
    } else if y == 7 {
        Piece::spec_encode(Color::White, spec_back_rank_kind(x), false)
    } else {
        Piece::spec_empty()
    }
}

/// The position in which the game starts: thirty-two pieces that have not
/// moved, every castling right, no en-passant file, White to move.
pub open spec fn initial_position() -> Position {
    Position {
        squares: Seq::new(8, |y: int| Seq::new(8, |x: int| initial_piece(x, y))),
        can_castle_black_queenside: true,
        can_castle_black_kingside: true,
        can_castle_white_queenside: true,
        can_castle_white_kingside: true,
        can_en_passant: None,
        turn: Color::White,
    }
}

/// A position without pieces, without castling rights and without an
/// en-passant file.
pub open spec fn empty_position(turn: Color) -> Position {
    Position {
        squares: Seq::new(8, |y: int| Seq::new(8, |x: int| Piece::spec_empty())),
        can_castle_black_queenside: false,
        can_castle_black_kingside: false,
        can_castle_white_queenside: false,
        can_castle_white_kingside: false,
        can_en_passant: None,
        turn,
    }
}

fn back_rank_kind(x: u8) -> (r: Type)
    ensures
        r == spec_back_rank_kind(x as int),
{
    if x == 0 || x == 7 {
        Type::Rook
    } else if x == 1 || x == 6 {
        Type::Knight
    } else if x == 2 || x == 5 {
        Type::Bishop
    } else if x == 3 {
        Type::Queen
    } else {
        Type::King
    }
}

/// The starting position is consistent.
pub proof fn lemma_initial_consistent()
    ensures
        initial_position().consistent(),
{
    broadcast use group_piece_model;

    let p = initial_position();
    assert forall|x: int, y: int| on_board(x, y) implies (#[trigger] p.at(x, y)).valid() && (p.at(
        x,
        y,
    ).is_kind(Type::Pawn) ==> y == pawn_home_rank(p.at(x, y).spec_color())) by {
        assert(p.at(x, y) == initial_piece(x, y));
    }
}

impl Board {
    /// A board without pieces, without castling rights and without an
    /// en-passant file.
    pub fn empty(turn: Color) -> (r: Board)
        ensures
            r@ == empty_position(turn),
            r@.consistent(),
    {
        let r = Board {
            squares: [[Piece::empty();8];8],
            can_castle_black_queenside: false,
            can_castle_black_kingside: false,
            can_castle_white_queenside: false,
            can_castle_white_kingside: false,
            can_en_passant: None,
            turn,
        };
        proof {
            Piece::lemma_empty(Piece::spec_empty());
            assert forall|x: int, y: int| on_board(x, y) implies #[trigger] r@.at(x, y)
                == Piece::spec_empty() by {
                assert(r.squares[y][x] == Piece::spec_empty());
            }
            r@.lemma_ext_equal(empty_position(turn));
        }
        r
    }

    /// The board on which the game starts.
    pub fn initial() -> (r: Board)
        ensures
            r@ == initial_position(),
            r@.consistent(),
    {
        let mut r = Board::empty(Color::White);
        let mut x: u8 = 0;
        while x < 8
            invariant
                x <= 8,
                r@.wf(),
                r@.turn == Color::White,
                r@.can_en_passant is None,
                !r@.can_castle_black_queenside,
                !r@.can_castle_black_kingside,
                !r@.can_castle_white_queenside,
                !r@.can_castle_white_kingside,
                forall|u: int, v: int|
                    on_board(u, v) ==> #[trigger] r@.at(u, v) == if u < x {
                        initial_piece(u, v)
                    } else {
                        Piece::spec_empty()
                    },
            decreases 8 - x,
        {
            let kind = back_rank_kind(x);
            proof {
                r@.lemma_put(x as int, 0, Piece::spec_encode(Color::Black, kind, false));
            }
            r.put((x, 0), Piece::new(Color::Black, kind));
            proof {
                r@.lemma_put(x as int, 1, Piece::spec_encode(Color::Black, Type::Pawn, false));
            }
            r.put((x, 1), Piece::new(Color::Black, Type::Pawn));
            proof {
                r@.lemma_put(x as int, 6, Piece::spec_encode(Color::White, Type::Pawn, false));
            }
            r.put((x, 6), Piece::new(Color::White, Type::Pawn));
            proof {
                r@.lemma_put(x as int, 7, Piece::spec_encode(Color::White, kind, false));
            }
            r.put((x, 7), Piece::new(Color::White, kind));
            x = x + 1;
        }
        let ghost filled = r@;
        r.can_castle_black_queenside = true;
        r.can_castle_black_kingside = true;
        r.can_castle_white_queenside = true;
        r.can_castle_white_kingside = true;
        proof {
            assert forall|u: int, v: int| on_board(u, v) implies #[trigger] r@.at(u, v)
                == initial_position().at(u, v) by {
                assert(r@.at(u, v) == filled.at(u, v));
                assert(initial_position().at(u, v) == initial_piece(u, v));
            }
            r@.lemma_ext_equal(initial_position());
            lemma_initial_consistent();
        }
        r
    }

    /// Whether the board shows a consistent position: every pawn away from
    /// its home rank is marked as moved, and the en-passant file, if one is
    /// set, names a pawn of the other side that stands where its double step
    /// landed, with the square it passed over empty.
    pub fn is_consistent(&self) -> (r: bool)
        ensures
            r == self@.consistent(),
    {
        let mut y: u8 = 0;
        while y < 8
            invariant
                y <= 8,
                forall|u: int, v: int|
                    0 <= u < 8 && 0 <= v < y ==> (#[trigger] self@.at(u, v)).valid() && (self@.at(
                        u,
                        v,
                    ).is_kind(Type::Pawn) && v != pawn_home_rank(self@.at(u, v).spec_color())
                        ==> self@.at(u, v).spec_has_moved()),
            decreases 8 - y,
        {
            let mut x: u8 = 0;
            while x < 8
                invariant
                    y < 8,
                    x <= 8,
                    forall|u: int, v: int|
                        0 <= u < 8 && (0 <= v < y || (v == y && u < x)) ==> (#[trigger] self@.at(
                            u,
                            v,
                        )).valid() && (self@.at(u, v).is_kind(Type::Pawn) && v != pawn_home_rank(
                            self@.at(u, v).spec_color(),
                        ) ==> self@.at(u, v).spec_has_moved()),
                decreases 8 - x,
            {
                let piece = self.get((x, y));
                proof {
                    use_type_invariant(piece);
                }
                if !piece.is_empty() && piece.type_() == Type::Pawn && !piece.has_moved() {
                    let home: u8 = match piece.color() {
                        Color::Black => 1,
                        Color::White => 6,
                    };
                    if y != home {
                        assert(self@.at(x as int, y as int).is_kind(Type::Pawn));
                        return false;
                    }
                }
                x = x + 1;
            }
            y = y + 1;
        }
        match self.can_en_passant {
            None => true,
            Some(f) => {
                if f >= 8 {
                    return false;
                }
                let mover = self.turn.opposite();
                let pawn_rank = double_step_rank(mover);
                let passed_rank: u8 = match mover {
                    Color::Black => 2,
                    Color::White => 5,
                };
                proof {
                    Piece::lemma_empty(self@.at(f as int, passed_rank as int));
                }
                self.get((f, pawn_rank)) == Piece::encode(mover, Type::Pawn, true) && self.get(
                    (f, passed_rank),
                ).is_empty()
            },
        }
    }
}

} // verus!

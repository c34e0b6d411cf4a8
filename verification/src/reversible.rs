//! Taking back an allowed action gives the position back, and making one
//! keeps the position consistent.

use vstd::prelude::*;
use crate::action::{Action, on_board, spec_castle_squares};
use crate::moves::promotion_kinds;
use crate::piece::{Piece, Type};
use crate::position::{Position, forward, pawn_home_rank, spec_double_step_square};

verus! {

impl Position {
    /// Two positions with the same squares, rights, en-passant file and side
    /// to move are the same position.
    pub proof fn lemma_ext_equal(self, other: Position)
        requires
            self.wf(),
            other.wf(),
            forall|x: int, y: int| on_board(x, y) ==> #[trigger] self.at(x, y) == other.at(x, y),
            self.can_castle_black_queenside == other.can_castle_black_queenside,
            self.can_castle_black_kingside == other.can_castle_black_kingside,
            self.can_castle_white_queenside == other.can_castle_white_queenside,
            self.can_castle_white_kingside == other.can_castle_white_kingside,
            self.can_en_passant == other.can_en_passant,
            self.turn == other.turn,
        ensures
            self == other,
    {
        assert forall|y: int| 0 <= y < 8 implies self.squares[y] == other.squares[y] by {
            assert forall|x: int| 0 <= x < 8 implies self.squares[y][x] == other.squares[y][x] by {
                assert(self.at(x, y) == other.at(x, y));
            }
            assert(self.squares[y] =~= other.squares[y]);
        }
        assert(self.squares =~= other.squares);
    }

    /// Putting a piece on a square changes that square and no other.
    pub proof fn lemma_put(self, x: int, y: int, p: Piece)
        requires
            self.wf(),
            on_board(x, y),
        ensures
            self.put(x, y, p).wf(),
            self.put(x, y, p).at(x, y) == p,
            forall|u: int, v: int|
                on_board(u, v) && (u != x || v != y) ==> #[trigger] self.put(x, y, p).at(u, v)
                    == self.at(u, v),
            self.put(x, y, p).can_castle_black_queenside == self.can_castle_black_queenside,
            self.put(x, y, p).can_castle_black_kingside == self.can_castle_black_kingside,
            self.put(x, y, p).can_castle_white_queenside == self.can_castle_white_queenside,
            self.put(x, y, p).can_castle_white_kingside == self.can_castle_white_kingside,
            self.put(x, y, p).can_en_passant == self.can_en_passant,
            self.put(x, y, p).turn == self.turn,
    {
    }

    /// Taking back an allowed action gives the position back.
    pub proof fn lemma_undo_apply(self, a: Action)
        requires
            self.consistent(),
            self.allows(a),
        ensures
            self.apply(a).undo(a) == self,
    {
        let after = self.apply(a);
        let back = after.undo(a);
        match a {
            Action::Move(m) => {
                Piece::lemma_with_moved_restores(self.piece_at(m.from));
                Piece::lemma_empty(self.piece_at(m.to));
                self.lemma_ext_equal(back);
            },
            Action::PawnDoubleMove(m) => {
                let pawn = self.piece_at(m.from);
                let target = spec_double_step_square(m.from, self.turn);
                assert(m.from.1 == pawn_home_rank(self.turn));
                Piece::lemma_with_moved_restores(pawn);
                Piece::lemma_empty(self.piece_at(target));
                self.lemma_ext_equal(back);
            },
            Action::Capture(m) => {
                Piece::lemma_with_moved_restores(self.piece_at(m.from));
                self.lemma_ext_equal(back);
            },
            Action::EnPassant(m) => {
                let pawn = self.piece_at(m.from);
                assert(m.from.1 != pawn_home_rank(self.turn));
                assert(pawn.spec_has_moved());
                Piece::lemma_with_moved_restores(pawn);
                Piece::lemma_with_moved(pawn, true);
                Piece::lemma_empty(self.piece_at(m.to));
                self.lemma_ext_equal(back);
            },
            Action::Castle(m) => {
                let c = spec_castle_squares(m.to)->0;
                Piece::lemma_with_moved_restores(self.piece_at(c.king_from));
                Piece::lemma_with_moved_restores(self.piece_at(c.rook_from));
                Piece::lemma_empty(self.piece_at(m.to));
                Piece::lemma_empty(self.piece_at(c.rook_to));
                self.lemma_ext_equal(back);
            },
            Action::Promotion(m) => {
                self.lemma_promoting_pawn(m.from, m.to, m.promoted_to);
                Piece::lemma_empty(self.piece_at(m.to));
                self.lemma_ext_equal(back);
            },
            Action::PromotionCapture(m) => {
                self.lemma_promoting_pawn(m.from, m.to, m.promoted_to);
                self.lemma_ext_equal(back);
            },
        }
    }

    /// A pawn that is about to reach the last rank has moved before: taking
    /// the promotion back builds the very pawn that stood there.
    proof fn lemma_promoting_pawn(self, from: (u8, u8), to: (u8, u8), promoted_to: Piece)
        requires
            self.consistent(),
            self.pawn_reaches_last_rank(from, to),
            self.promotes_to(promoted_to),
        ensures
            promoted_to.valid(),
            promoted_to.spec_color() == self.turn,
            promoted_to.spec_has_moved(),
            !promoted_to.is_kind(Type::Pawn),
            self.piece_at(from) == Piece::spec_encode(self.turn, Type::Pawn, true),
    {
        let i = choose|i: int|
            0 <= i < 4 && promoted_to == Piece::spec_encode(
                self.turn,
                #[trigger] promotion_kinds()[i],
                true,
            );
        Piece::lemma_encode(self.turn, promotion_kinds()[i], true);
        let pawn = self.piece_at(from);
        assert(self.at(from.0 as int, from.1 as int).valid());
        assert(from.1 != pawn_home_rank(self.turn));
        assert(pawn.spec_has_moved());
        Piece::lemma_encode(self.turn, Type::Pawn, true);
        Piece::lemma_view_injective(pawn, Piece::spec_encode(self.turn, Type::Pawn, true));
    }

    /// An allowed action leads from a consistent position to a consistent
    /// position.
    pub proof fn lemma_apply_consistent(self, a: Action)
        requires
            self.consistent(),
            self.allows(a),
        ensures
            self.apply(a).consistent(),
    {
        let after = self.apply(a);
        let empty = Piece::spec_empty();
        Piece::lemma_empty(empty);
        match a {
            Action::Move(m) => {
                Piece::lemma_with_moved(self.piece_at(m.from), true);
            },
            Action::PawnDoubleMove(m) => {
                let pawn = self.piece_at(m.from);
                let step = forward(self.turn);
                assert(m.from.1 == pawn_home_rank(self.turn));
                Piece::lemma_with_moved(pawn, true);
                Piece::lemma_encode(self.turn, Type::Pawn, true);
                Piece::lemma_view_injective(
                    pawn.spec_with_moved(true),
                    Piece::spec_encode(self.turn, Type::Pawn, true),
                );
                Piece::lemma_empty(self.at(m.from.0 as int, m.from.1 + step));
                assert(after.at(m.from.0 as int, after.en_passant_pawn_rank())
                    == pawn.spec_with_moved(true));
                assert(after.at(m.from.0 as int, after.en_passant_pawn_rank() + forward(after.turn))
                    == self.at(m.from.0 as int, m.from.1 + step));
            },
            Action::Capture(m) => {
                Piece::lemma_with_moved(self.piece_at(m.from), true);
            },
            Action::EnPassant(m) => {
                Piece::lemma_with_moved(self.piece_at(m.from), true);
            },
            Action::Castle(m) => {
                let c = spec_castle_squares(m.to)->0;
                Piece::lemma_with_moved(self.piece_at(c.king_from), true);
                Piece::lemma_with_moved(self.piece_at(c.rook_from), true);
            },
            Action::Promotion(m) => {
                self.lemma_promoting_pawn(m.from, m.to, m.promoted_to);
            },
            Action::PromotionCapture(m) => {
                self.lemma_promoting_pawn(m.from, m.to, m.promoted_to);
            },
        }
        assert(after.wf());
        assert forall|x: int, y: int| on_board(x, y) implies (#[trigger] after.at(x, y)).valid() by {
            assert(self.at(x, y).valid());
        }
        assert forall|x: int, y: int|
            on_board(x, y) && (#[trigger] after.at(x, y)).is_kind(Type::Pawn) && y
                != pawn_home_rank(after.at(x, y).spec_color()) implies after.at(x, y).spec_has_moved() by {
            assert(self.at(x, y).valid());
        }
    }
}

} // verus!

//! What holds of every action that the generator lists, stated without the
//! order of the list.

use vstd::prelude::*;
use crate::action::{Action, on_board, square_on_board};
use crate::moves::{en_passant_rank, promotion_kinds, spec_back_rank};
use crate::piece::{Piece, Type};
use crate::position::{Position, forward};

verus! {

impl Position {
    /// A piece of the side to move stands on `from`.
    pub open spec fn own_piece_on(self, from: (u8, u8)) -> bool {
        square_on_board(from) && self.piece_at(from).is_color(self.turn)
    }

    /// `promoted_to` is a queen, rook, bishop or knight of the side to move,
    /// marked as moved.
    pub open spec fn promotes_to(self, promoted_to: Piece) -> bool {
        exists|i: int|
            0 <= i < 4 && promoted_to == Piece::spec_encode(
                self.turn,
                #[trigger] promotion_kinds()[i],
                true,
            )
    }

    /// A pawn of the side to move stands on `from`, one rank before `to`,
    /// and `to` lies on rank 0 or 7.
    pub open spec fn pawn_reaches_last_rank(self, from: (u8, u8), to: (u8, u8)) -> bool {
        &&& self.own_piece_on(from)
        &&& self.piece_at(from).is_kind(Type::Pawn)
        &&& square_on_board(to)
        &&& to.1 == from.1 + forward(self.turn)
        &&& (to.1 == 0 || to.1 == 7)
    }

    /// The action moves a piece of the side to move as the squares permit,
    /// and holds what the position was before it: the flag of the piece
    /// that moves, the piece that is taken, the en-passant file.
    pub open spec fn allows(self, a: Action) -> bool {
        match a {
            Action::Move(m) => {
                &&& self.own_piece_on(m.from)
                &&& square_on_board(m.to)
                &&& m.from != m.to
                &&& self.piece_at(m.to)@ is None
                &&& m.had_moved == self.piece_at(m.from).spec_has_moved()
                &&& m.prev_can_en_passant == self.can_en_passant
            },
            Action::PawnDoubleMove(m) => {
                &&& self.own_piece_on(m.from)
                &&& self.piece_at(m.from).is_kind(Type::Pawn)
                &&& !self.piece_at(m.from).spec_has_moved()
                &&& self.is_free(m.from.0 as int, m.from.1 + forward(self.turn))
                &&& self.is_free(m.from.0 as int, m.from.1 + 2 * forward(self.turn))
                &&& m.prev_can_en_passant == self.can_en_passant
            },
            Action::Capture(m) => {
                &&& self.own_piece_on(m.from)
                &&& square_on_board(m.to)
                &&& self.piece_at(m.to).is_color(self.turn.spec_opposite())
                &&& m.captured == self.piece_at(m.to)
                &&& m.had_moved == self.piece_at(m.from).spec_has_moved()
                &&& m.prev_can_en_passant == self.can_en_passant
            },
            Action::EnPassant(m) => {
                &&& self.own_piece_on(m.from)
                &&& self.piece_at(m.from).is_kind(Type::Pawn)
                &&& m.from.1 == en_passant_rank(self.turn)
                &&& self.can_en_passant == Some(m.to.0)
                &&& m.to.0 < 8
                &&& (m.to.0 == m.from.0 - 1 || m.to.0 == m.from.0 + 1)
                &&& m.to.1 == m.from.1 + forward(self.turn)
            },
            Action::Castle(m) => {
                &&& self.own_piece_on((4u8, spec_back_rank(self.turn)))
                &&& self.piece_at((4u8, spec_back_rank(self.turn))).is_kind(Type::King)
                &&& m.to.1 == spec_back_rank(self.turn)
                &&& (m.to.0 == 2 || m.to.0 == 6)
                &&& self.may_castle(4, m.to.1 as int, m.to.0 == 6)
                &&& m.prev_can_en_passant == self.can_en_passant
            },
            Action::Promotion(m) => {
                &&& self.pawn_reaches_last_rank(m.from, m.to)
                &&& m.to.0 == m.from.0
                &&& self.piece_at(m.to)@ is None
                &&& self.promotes_to(m.promoted_to)
                &&& m.prev_can_en_passant == self.can_en_passant
            },
            Action::PromotionCapture(m) => {
                &&& self.pawn_reaches_last_rank(m.from, m.to)
                &&& (m.to.0 == m.from.0 - 1 || m.to.0 == m.from.0 + 1)
                &&& self.piece_at(m.to).is_color(self.turn.spec_opposite())
                &&& m.captured == self.piece_at(m.to)
                &&& self.promotes_to(m.promoted_to)
                &&& m.prev_can_en_passant == self.can_en_passant
            },
        }
    }

    /// Every action of the sequence is allowed.
    pub open spec fn allows_all(self, s: Seq<Action>) -> bool {
        forall|i: int| 0 <= i < s.len() ==> self.allows(#[trigger] s[i])
    }

    proof fn lemma_allows_concat(self, s: Seq<Action>, t: Seq<Action>)
        requires
            self.allows_all(s),
            self.allows_all(t),
        ensures
            self.allows_all(s + t),
    {
    }

    proof fn lemma_step_allowed(self, x: int, y: int, tx: int, ty: int)
        requires
            self.wf(),
            on_board(x, y),
            self.at(x, y).is_color(self.turn),
            tx != x || ty != y,
        ensures
            self.allows_all(self.step_actions(x, y, tx, ty)),
    {
    }

    proof fn lemma_ray_allowed(self, x: int, y: int, cx: int, cy: int, dx: int, dy: int, n: nat)
        requires
            self.wf(),
            on_board(x, y),
            self.at(x, y).is_color(self.turn),
            -1 <= dx <= 1,
            -1 <= dy <= 1,
            dx != 0 || dy != 0,
            dx > 0 ==> cx >= x,
            dx < 0 ==> cx <= x,
            dx == 0 ==> cx == x,
            dy > 0 ==> cy >= y,
            dy < 0 ==> cy <= y,
            dy == 0 ==> cy == y,
        ensures
            self.allows_all(self.ray_actions(x, y, cx, cy, dx, dy, n)),
        decreases n,
    {
        if n > 0 {
            self.lemma_step_allowed(x, y, cx + dx, cy + dy);
            if self.is_free(cx + dx, cy + dy) {
                self.lemma_ray_allowed(x, y, cx + dx, cy + dy, dx, dy, (n - 1) as nat);
                self.lemma_allows_concat(
                    seq![self.move_to(x, y, cx + dx, cy + dy)],
                    self.ray_actions(x, y, cx + dx, cy + dy, dx, dy, (n - 1) as nat),
                );
            }
        }
    }

    proof fn lemma_bishop_allowed(self, x: int, y: int)
        requires
            self.wf(),
            on_board(x, y),
            self.at(x, y).is_color(self.turn),
        ensures
            self.allows_all(self.bishop_actions(x, y)),
    {
        self.lemma_ray_allowed(x, y, x, y, 1, 1, 7);
        self.lemma_ray_allowed(x, y, x, y, 1, -1, 7);
        self.lemma_ray_allowed(x, y, x, y, -1, 1, 7);
        self.lemma_ray_allowed(x, y, x, y, -1, -1, 7);
        let a = self.ray(x, y, 1, 1);
        let b = self.ray(x, y, 1, -1);
        let c = self.ray(x, y, -1, 1);
        let d = self.ray(x, y, -1, -1);
        self.lemma_allows_concat(a, b);
        self.lemma_allows_concat(a + b, c);
        self.lemma_allows_concat(a + b + c, d);
    }

    proof fn lemma_rook_allowed(self, x: int, y: int)
        requires
            self.wf(),
            on_board(x, y),
            self.at(x, y).is_color(self.turn),
        ensures
            self.allows_all(self.rook_actions(x, y)),
    {
        self.lemma_ray_allowed(x, y, x, y, 1, 0, 7);
        self.lemma_ray_allowed(x, y, x, y, -1, 0, 7);
        self.lemma_ray_allowed(x, y, x, y, 0, 1, 7);
        self.lemma_ray_allowed(x, y, x, y, 0, -1, 7);
        let a = self.ray(x, y, 1, 0);
        let b = self.ray(x, y, -1, 0);
        let c = self.ray(x, y, 0, 1);
        let d = self.ray(x, y, 0, -1);
        self.lemma_allows_concat(a, b);
        self.lemma_allows_concat(a + b, c);
        self.lemma_allows_concat(a + b + c, d);
    }

    proof fn lemma_knight_allowed(self, x: int, y: int)
        requires
            self.wf(),
            on_board(x, y),
            self.at(x, y).is_color(self.turn),
        ensures
            self.allows_all(self.knight_actions(x, y)),
    {
        let s0 = self.step_actions(x, y, x + 1, y + 2);
        let s1 = self.step_actions(x, y, x + 2, y + 1);
        let s2 = self.step_actions(x, y, x + 2, y - 1);
        let s3 = self.step_actions(x, y, x + 1, y - 2);
        let s4 = self.step_actions(x, y, x - 1, y - 2);
        let s5 = self.step_actions(x, y, x - 2, y - 1);
        let s6 = self.step_actions(x, y, x - 2, y + 1);
        let s7 = self.step_actions(x, y, x - 1, y + 2);
        self.lemma_step_allowed(x, y, x + 1, y + 2);
        self.lemma_step_allowed(x, y, x + 2, y + 1);
        self.lemma_step_allowed(x, y, x + 2, y - 1);
        self.lemma_step_allowed(x, y, x + 1, y - 2);
        self.lemma_step_allowed(x, y, x - 1, y - 2);
        self.lemma_step_allowed(x, y, x - 2, y - 1);
        self.lemma_step_allowed(x, y, x - 2, y + 1);
        self.lemma_step_allowed(x, y, x - 1, y + 2);
        self.lemma_allows_concat(s0, s1);
        self.lemma_allows_concat(s0 + s1, s2);
        self.lemma_allows_concat(s0 + s1 + s2, s3);
        self.lemma_allows_concat(s0 + s1 + s2 + s3, s4);
        self.lemma_allows_concat(s0 + s1 + s2 + s3 + s4, s5);
        self.lemma_allows_concat(s0 + s1 + s2 + s3 + s4 + s5, s6);
        self.lemma_allows_concat(s0 + s1 + s2 + s3 + s4 + s5 + s6, s7);
    }

    proof fn lemma_king_steps_allowed(self, x: int, y: int)
        requires
            self.wf(),
            on_board(x, y),
            self.at(x, y).is_color(self.turn),
        ensures
            self.allows_all(self.king_steps(x, y)),
    {
        let s0 = self.step_actions(x, y, x + 1, y + 1);
        let s1 = self.step_actions(x, y, x + 1, y);
        let s2 = self.step_actions(x, y, x + 1, y - 1);
        let s3 = self.step_actions(x, y, x, y + 1);
        let s4 = self.step_actions(x, y, x, y - 1);
        let s5 = self.step_actions(x, y, x - 1, y + 1);
        let s6 = self.step_actions(x, y, x - 1, y);
        let s7 = self.step_actions(x, y, x - 1, y - 1);
        self.lemma_step_allowed(x, y, x + 1, y + 1);
        self.lemma_step_allowed(x, y, x + 1, y);
        self.lemma_step_allowed(x, y, x + 1, y - 1);
        self.lemma_step_allowed(x, y, x, y + 1);
        self.lemma_step_allowed(x, y, x, y - 1);
        self.lemma_step_allowed(x, y, x - 1, y + 1);
        self.lemma_step_allowed(x, y, x - 1, y);
        self.lemma_step_allowed(x, y, x - 1, y - 1);
        self.lemma_allows_concat(s0, s1);
        self.lemma_allows_concat(s0 + s1, s2);
        self.lemma_allows_concat(s0 + s1 + s2, s3);
        self.lemma_allows_concat(s0 + s1 + s2 + s3, s4);
        self.lemma_allows_concat(s0 + s1 + s2 + s3 + s4, s5);
        self.lemma_allows_concat(s0 + s1 + s2 + s3 + s4 + s5, s6);
        self.lemma_allows_concat(s0 + s1 + s2 + s3 + s4 + s5 + s6, s7);
    }

    proof fn lemma_castle_allowed(self, x: int, y: int, kingside: bool)
        requires
            self.wf(),
            on_board(x, y),
            self.at(x, y).is_color(self.turn),
            self.at(x, y).is_kind(Type::King),
        ensures
            self.allows_all(self.castle_actions(x, y, kingside)),
    {
    }

    proof fn lemma_king_allowed(self, x: int, y: int)
        requires
            self.wf(),
            on_board(x, y),
            self.at(x, y).is_color(self.turn),
            self.at(x, y).is_kind(Type::King),
        ensures
            self.allows_all(self.king_actions(x, y)),
    {
        self.lemma_king_steps_allowed(x, y);
        self.lemma_castle_allowed(x, y, false);
        self.lemma_castle_allowed(x, y, true);
        self.lemma_allows_concat(self.king_steps(x, y), self.castle_actions(x, y, false));
        self.lemma_allows_concat(
            self.king_steps(x, y) + self.castle_actions(x, y, false),
            self.castle_actions(x, y, true),
        );
    }

    proof fn lemma_promotion_kinds(self, i: int)
        requires
            0 <= i < 4,
        ensures
            self.promotes_to(Piece::spec_encode(self.turn, promotion_kinds()[i], true)),
    {
    }

    proof fn lemma_pawn_allowed(self, x: int, y: int)
        requires
            self.wf(),
            on_board(x, y),
            self.at(x, y).is_color(self.turn),
            self.at(x, y).is_kind(Type::Pawn),
        ensures
            self.allows_all(self.pawn_actions(x, y)),
    {
        let single = self.pawn_single(x, y);
        let double = self.pawn_double(x, y);
        let left = self.pawn_capture(x, y, x - 1);
        let right = self.pawn_capture(x, y, x + 1);
        let passing = self.pawn_en_passant(x, y);
        assert forall|i: int| 0 <= i < 4 implies self.promotes_to(
            Piece::spec_encode(self.turn, #[trigger] promotion_kinds()[i], true),
        ) by {
            self.lemma_promotion_kinds(i);
        }
        assert(self.allows_all(single));
        assert(self.allows_all(double));
        assert(self.allows_all(left));
        assert(self.allows_all(right));
        assert(self.allows_all(passing));
        self.lemma_allows_concat(single, double);
        self.lemma_allows_concat(single + double, left);
        self.lemma_allows_concat(single + double + left, right);
        self.lemma_allows_concat(single + double + left + right, passing);
    }

    proof fn lemma_square_allowed(self, x: int, y: int)
        requires
            self.wf(),
            on_board(x, y),
        ensures
            self.allows_all(self.square_actions(x, y)),
    {
        if self.at(x, y).is_color(self.turn) {
            if self.at(x, y).is_kind(Type::Pawn) {
                self.lemma_pawn_allowed(x, y);
            } else if self.at(x, y).is_kind(Type::Knight) {
                self.lemma_knight_allowed(x, y);
            } else if self.at(x, y).is_kind(Type::Bishop) {
                self.lemma_bishop_allowed(x, y);
            } else if self.at(x, y).is_kind(Type::Rook) {
                self.lemma_rook_allowed(x, y);
            } else if self.at(x, y).is_kind(Type::Queen) {
                self.lemma_bishop_allowed(x, y);
                self.lemma_rook_allowed(x, y);
                self.lemma_allows_concat(self.bishop_actions(x, y), self.rook_actions(x, y));
            } else {
                self.lemma_king_allowed(x, y);
            }
        }
    }

    proof fn lemma_upto_allowed(self, n: nat)
        requires
            self.wf(),
            n <= 64,
        ensures
            self.allows_all(self.pseudo_legal_upto(n)),
        decreases n,
    {
        if n > 0 {
            self.lemma_upto_allowed((n - 1) as nat);
            self.lemma_square_allowed((n - 1) % 8, (n - 1) / 8);
            self.lemma_allows_concat(
                self.pseudo_legal_upto((n - 1) as nat),
                self.square_actions((n - 1) % 8, (n - 1) / 8),
            );
        }
    }

    /// Every action that the generator lists is allowed.
    pub proof fn lemma_pseudo_legal_allowed(self)
        requires
            self.wf(),
        ensures
            self.allows_all(self.pseudo_legal()),
    {
        self.lemma_upto_allowed(64);
    }

    /// An allowed action can be made, and taken back after it was made.
    pub proof fn lemma_allowed_can_be_made(self, a: Action)
        requires
            self.allows(a),
        ensures
            a.wf(),
            self.can_make(a),
            self.apply(a).can_take_back(a),
    {
    }
}

} // verus!

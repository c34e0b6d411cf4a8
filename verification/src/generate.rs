//! The generator: walks the board square by square and lists what each piece
//! of the side to move may do.

use vstd::prelude::*;
use crate::action::{
    Action,
    Capture,
    Castle,
    EnPassant,
    Move,
    PawnDoubleMove,
    Promotion,
    PromotionCapture,
    Square,
    square_on_board,
};
use crate::board::Board;
use crate::moves::back_rank;
use crate::piece::{Color, Piece, Type};
use crate::position::{forward, double_step_rank};

verus! {

/// The step of a pawn along the ranks.
fn forward_step(color: Color) -> (r: i8)
    ensures
        r == forward(color),
{
    match color {
        Color::Black => 1,
        Color::White => -1,
    }
}

/// Appending is associative.
proof fn lemma_append_assoc<A>(a: Seq<A>, b: Seq<A>, c: Seq<A>)
    ensures
        (a + b) + c == a + (b + c),
{
    assert((a + b) + c =~= a + (b + c));
}

impl Board {
    /// Whether `(tx, ty)` is on the board and empty.
    fn free_at(&self, tx: i8, ty: i8) -> (r: bool)
        ensures
            r == self@.is_free(tx as int, ty as int),
    {
        if 0 <= tx && tx < 8 && 0 <= ty && ty < 8 {
            self.get((tx as u8, ty as u8)).is_empty()
        } else {
            false
        }
    }

    /// Whether `(tx, ty)` is on the board and holds a piece that is not of
    /// `color`.
    fn enemy_at(&self, tx: i8, ty: i8, color: Color) -> (r: bool)
        ensures
            r == self@.holds_enemy_of(tx as int, ty as int, color),
    {
        if 0 <= tx && tx < 8 && 0 <= ty && ty < 8 {
            let target = self.get((tx as u8, ty as u8));
            !target.is_empty() && target.color() != color
        } else {
            false
        }
    }

    fn make_move(&self, from: Square, to: Square) -> (r: Action)
        requires
            square_on_board(from),
            square_on_board(to),
        ensures
            r == self@.move_to(from.0 as int, from.1 as int, to.0 as int, to.1 as int),
    {
        Action::Move(
            Move {
                from,
                to,
                had_moved: self.get(from).has_moved(),
                prev_can_en_passant: self.can_en_passant,
            },
        )
    }

    fn make_capture(&self, from: Square, to: Square) -> (r: Action)
        requires
            square_on_board(from),
            square_on_board(to),
        ensures
            r == self@.capture_on(from.0 as int, from.1 as int, to.0 as int, to.1 as int),
    {
        Action::Capture(
            Capture {
                from,
                to,
                captured: self.get(to),
                had_moved: self.get(from).has_moved(),
                prev_can_en_passant: self.can_en_passant,
            },
        )
    }

    fn push_step(&self, from: Square, tx: i8, ty: i8, out: &mut Vec<Action>)
        requires
            square_on_board(from),
        ensures
            final(out)@ == old(out)@ + self@.step_actions(
                from.0 as int,
                from.1 as int,
                tx as int,
                ty as int,
            ),
    {
        if self.free_at(tx, ty) {
            out.push(self.make_move(from, (tx as u8, ty as u8)));
        } else if self.enemy_at(tx, ty, self.get(from).color()) {
            out.push(self.make_capture(from, (tx as u8, ty as u8)));
        }
        assert(out@ =~= old(out)@ + self@.step_actions(
            from.0 as int,
            from.1 as int,
            tx as int,
            ty as int,
        ));
    }

    fn push_ray(&self, from: Square, dx: i8, dy: i8, out: &mut Vec<Action>)
        requires
            square_on_board(from),
            -1 <= dx <= 1,
            -1 <= dy <= 1,
        ensures
            final(out)@ == old(out)@ + self@.ray(
                from.0 as int,
                from.1 as int,
                dx as int,
                dy as int,
            ),
    {
        let ghost x = from.0 as int;
        let ghost y = from.1 as int;
        let ghost goal = old(out)@ + self@.ray(x, y, dx as int, dy as int);
        let mut cx: i8 = from.0 as i8;
        let mut cy: i8 = from.1 as i8;
        let mut n: u8 = 7;
        while n > 0
            invariant
                square_on_board(from),
                x == from.0,
                y == from.1,
                -1 <= dx <= 1,
                -1 <= dy <= 1,
                0 <= cx < 8,
                0 <= cy < 8,
                n <= 7,
                goal == old(out)@ + self@.ray(x, y, dx as int, dy as int),
                out@ + self@.ray_actions(x, y, cx as int, cy as int, dx as int, dy as int, n as nat)
                    == goal,
            decreases n,
        {
            let tx: i8 = cx + dx;
            let ty: i8 = cy + dy;
            let ghost before = out@;
            let ghost rest = self@.ray_actions(
                x,
                y,
                tx as int,
                ty as int,
                dx as int,
                dy as int,
                (n - 1) as nat,
            );
            if self.free_at(tx, ty) {
                out.push(self.make_move(from, (tx as u8, ty as u8)));
                assert(out@ + rest =~= before + (seq![self@.move_to(x, y, tx as int, ty as int)]
                    + rest));
                cx = tx;
                cy = ty;
                n = n - 1;
            } else {
                self.push_step(from, tx, ty, out);
                assert(self@.ray_actions(x, y, cx as int, cy as int, dx as int, dy as int, n as nat)
                    == self@.step_actions(x, y, tx as int, ty as int));
                return ;
            }
        }
        assert(out@ + Seq::<Action>::empty() =~= out@);
    }

    fn push_bishop(&self, from: Square, out: &mut Vec<Action>)
        requires
            square_on_board(from),
        ensures
            final(out)@ == old(out)@ + self@.bishop_actions(from.0 as int, from.1 as int),
    {
        self.push_ray(from, 1, 1, out);
        self.push_ray(from, 1, -1, out);
        self.push_ray(from, -1, 1, out);
        self.push_ray(from, -1, -1, out);
        assert(out@ =~= old(out)@ + self@.bishop_actions(from.0 as int, from.1 as int));
    }

    fn push_rook(&self, from: Square, out: &mut Vec<Action>)
        requires
            square_on_board(from),
        ensures
            final(out)@ == old(out)@ + self@.rook_actions(from.0 as int, from.1 as int),
    {
        self.push_ray(from, 1, 0, out);
        self.push_ray(from, -1, 0, out);
        self.push_ray(from, 0, 1, out);
        self.push_ray(from, 0, -1, out);
        assert(out@ =~= old(out)@ + self@.rook_actions(from.0 as int, from.1 as int));
    }

    fn push_queen(&self, from: Square, out: &mut Vec<Action>)
        requires
            square_on_board(from),
        ensures
            final(out)@ == old(out)@ + self@.queen_actions(from.0 as int, from.1 as int),
    {
        self.push_bishop(from, out);
        self.push_rook(from, out);
        assert(out@ =~= old(out)@ + self@.queen_actions(from.0 as int, from.1 as int));
    }

    fn push_knight(&self, from: Square, out: &mut Vec<Action>)
        requires
            square_on_board(from),
        ensures
            final(out)@ == old(out)@ + self@.knight_actions(from.0 as int, from.1 as int),
    {
        let x: i8 = from.0 as i8;
        let y: i8 = from.1 as i8;
        let ghost p = self@;
        let ghost fx = from.0 as int;
        let ghost fy = from.1 as int;
        let ghost o = out@;
        self.push_step(from, x + 1, y + 2, out);
        let ghost s0 = p.step_actions(fx, fy, fx + 1, fy + 2);
        let ghost a0 = s0;
        self.push_step(from, x + 2, y + 1, out);
        let ghost s1 = p.step_actions(fx, fy, fx + 2, fy + 1);
        let ghost a1 = a0 + s1;
        proof {
            lemma_append_assoc(o, a0, s1);
        }
        self.push_step(from, x + 2, y - 1, out);
        let ghost s2 = p.step_actions(fx, fy, fx + 2, fy - 1);
        let ghost a2 = a1 + s2;
        proof {
            lemma_append_assoc(o, a1, s2);
        }
        self.push_step(from, x + 1, y - 2, out);
        let ghost s3 = p.step_actions(fx, fy, fx + 1, fy - 2);
        let ghost a3 = a2 + s3;
        proof {
            lemma_append_assoc(o, a2, s3);
        }
        self.push_step(from, x - 1, y - 2, out);
        let ghost s4 = p.step_actions(fx, fy, fx - 1, fy - 2);
        let ghost a4 = a3 + s4;
        proof {
            lemma_append_assoc(o, a3, s4);
        }
        self.push_step(from, x - 2, y - 1, out);
        let ghost s5 = p.step_actions(fx, fy, fx - 2, fy - 1);
        let ghost a5 = a4 + s5;
        proof {
            lemma_append_assoc(o, a4, s5);
        }
        self.push_step(from, x - 2, y + 1, out);
        let ghost s6 = p.step_actions(fx, fy, fx - 2, fy + 1);
        let ghost a6 = a5 + s6;
        proof {
            lemma_append_assoc(o, a5, s6);
        }
        self.push_step(from, x - 1, y + 2, out);
        let ghost s7 = p.step_actions(fx, fy, fx - 1, fy + 2);
        let ghost a7 = a6 + s7;
        proof {
            lemma_append_assoc(o, a6, s7);
        }
    }

    fn push_king_steps(&self, from: Square, out: &mut Vec<Action>)
        requires
            square_on_board(from),
        ensures
            final(out)@ == old(out)@ + self@.king_steps(from.0 as int, from.1 as int),
    {
        let x: i8 = from.0 as i8;
        let y: i8 = from.1 as i8;
        let ghost p = self@;
        let ghost fx = from.0 as int;
        let ghost fy = from.1 as int;
        let ghost o = out@;
        self.push_step(from, x + 1, y + 1, out);
        let ghost s0 = p.step_actions(fx, fy, fx + 1, fy + 1);
        let ghost a0 = s0;
        self.push_step(from, x + 1, y, out);
        let ghost s1 = p.step_actions(fx, fy, fx + 1, fy);
        let ghost a1 = a0 + s1;
        proof {
            lemma_append_assoc(o, a0, s1);
        }
        self.push_step(from, x + 1, y - 1, out);
        let ghost s2 = p.step_actions(fx, fy, fx + 1, fy - 1);
        let ghost a2 = a1 + s2;
        proof {
            lemma_append_assoc(o, a1, s2);
        }
        self.push_step(from, x, y + 1, out);
        let ghost s3 = p.step_actions(fx, fy, fx, fy + 1);
        let ghost a3 = a2 + s3;
        proof {
            lemma_append_assoc(o, a2, s3);
        }
        self.push_step(from, x, y - 1, out);
        let ghost s4 = p.step_actions(fx, fy, fx, fy - 1);
        let ghost a4 = a3 + s4;
        proof {
            lemma_append_assoc(o, a3, s4);
        }
        self.push_step(from, x - 1, y + 1, out);
        let ghost s5 = p.step_actions(fx, fy, fx - 1, fy + 1);
        let ghost a5 = a4 + s5;
        proof {
            lemma_append_assoc(o, a4, s5);
        }
        self.push_step(from, x - 1, y, out);
        let ghost s6 = p.step_actions(fx, fy, fx - 1, fy);
        let ghost a6 = a5 + s6;
        proof {
            lemma_append_assoc(o, a5, s6);
        }
        self.push_step(from, x - 1, y - 1, out);
        let ghost s7 = p.step_actions(fx, fy, fx - 1, fy - 1);
        let ghost a7 = a6 + s7;
        proof {
            lemma_append_assoc(o, a6, s7);
        }
    }

    fn castle_path_free(&self, rank: u8, kingside: bool) -> (r: bool)
        requires
            rank < 8,
        ensures
            r == self@.castle_path_free(rank as int, kingside),
    {
        let y: i8 = rank as i8;
        if kingside {
            self.free_at(5, y) && self.free_at(6, y)
        } else {
            self.free_at(1, y) && self.free_at(2, y) && self.free_at(3, y)
        }
    }

    fn may_castle(&self, from: Square, kingside: bool) -> (r: bool)
        requires
            square_on_board(from),
        ensures
            r == self@.may_castle(from.0 as int, from.1 as int, kingside),
    {
        let king = self.get(from);
        let color = king.color();
        let rank = back_rank(color);
        let rook_x: u8 = if kingside {
            7
        } else {
            0
        };
        if from.0 != 4 || from.1 != rank || !self.castling_right(color, kingside)
            || king.has_moved() {
            return false;
        }
        let rook = self.get((rook_x, rank));
        if rook.is_empty() {
            return false;
        }
        rook.color() == color && rook.type_() == Type::Rook && !rook.has_moved()
            && self.castle_path_free(rank, kingside)
    }

    fn push_castle(&self, from: Square, kingside: bool, out: &mut Vec<Action>)
        requires
            square_on_board(from),
        ensures
            final(out)@ == old(out)@ + self@.castle_actions(
                from.0 as int,
                from.1 as int,
                kingside,
            ),
    {
        if self.may_castle(from, kingside) {
            let to_x: u8 = if kingside {
                6
            } else {
                2
            };
            out.push(
                Action::Castle(
                    Castle { to: (to_x, from.1), prev_can_en_passant: self.can_en_passant },
                ),
            );
        }
        assert(out@ =~= old(out)@ + self@.castle_actions(
            from.0 as int,
            from.1 as int,
            kingside,
        ));
    }

    fn push_king(&self, from: Square, out: &mut Vec<Action>)
        requires
            square_on_board(from),
        ensures
            final(out)@ == old(out)@ + self@.king_actions(from.0 as int, from.1 as int),
    {
        self.push_king_steps(from, out);
        self.push_castle(from, false, out);
        self.push_castle(from, true, out);
        assert(out@ =~= old(out)@ + self@.king_actions(from.0 as int, from.1 as int));
    }

    fn make_promotion(&self, from: Square, to: Square, kind: Type) -> (r: Action)
        requires
            square_on_board(from),
            square_on_board(to),
        ensures
            r == self@.promotion_to(from.0 as int, from.1 as int, to.0 as int, to.1 as int, kind),
    {
        Action::Promotion(
            Promotion {
                from,
                to,
                promoted_to: Piece::encode(self.get(from).color(), kind, true),
                prev_can_en_passant: self.can_en_passant,
            },
        )
    }

    fn make_promotion_capture(&self, from: Square, to: Square, kind: Type) -> (r: Action)
        requires
            square_on_board(from),
            square_on_board(to),
        ensures
            r == self@.promotion_capture_on(
                from.0 as int,
                from.1 as int,
                to.0 as int,
                to.1 as int,
                kind,
            ),
    {
        Action::PromotionCapture(
            PromotionCapture {
                from,
                to,
                captured: self.get(to),
                promoted_to: Piece::encode(self.get(from).color(), kind, true),
                prev_can_en_passant: self.can_en_passant,
            },
        )
    }

    fn push_pawn_single(&self, from: Square, out: &mut Vec<Action>)
        requires
            square_on_board(from),
        ensures
            final(out)@ == old(out)@ + self@.pawn_single(from.0 as int, from.1 as int),
    {
        let tx: i8 = from.0 as i8;
        let ty: i8 = from.1 as i8 + forward_step(self.get(from).color());
        if self.free_at(tx, ty) {
            let to: Square = (tx as u8, ty as u8);
            if ty == 0 || ty == 7 {
                out.push(self.make_promotion(from, to, Type::Queen));
                out.push(self.make_promotion(from, to, Type::Rook));
                out.push(self.make_promotion(from, to, Type::Bishop));
                out.push(self.make_promotion(from, to, Type::Knight));
            } else {
                out.push(self.make_move(from, to));
            }
        }
        assert(out@ =~= old(out)@ + self@.pawn_single(from.0 as int, from.1 as int));
    }

    fn push_pawn_double(&self, from: Square, out: &mut Vec<Action>)
        requires
            square_on_board(from),
        ensures
            final(out)@ == old(out)@ + self@.pawn_double(from.0 as int, from.1 as int),
    {
        let pawn = self.get(from);
        let step: i8 = forward_step(pawn.color());
        let tx: i8 = from.0 as i8;
        let ty: i8 = from.1 as i8;
        if !pawn.has_moved() && self.free_at(tx, ty + step) && self.free_at(tx, ty + 2 * step) {
            out.push(
                Action::PawnDoubleMove(
                    PawnDoubleMove { from, prev_can_en_passant: self.can_en_passant },
                ),
            );
        }
        assert(out@ =~= old(out)@ + self@.pawn_double(from.0 as int, from.1 as int));
    }

    fn push_pawn_capture(&self, from: Square, tx: i8, out: &mut Vec<Action>)
        requires
            square_on_board(from),
        ensures
            final(out)@ == old(out)@ + self@.pawn_capture(
                from.0 as int,
                from.1 as int,
                tx as int,
            ),
    {
        let color = self.get(from).color();
        let ty: i8 = from.1 as i8 + forward_step(color);
        if self.enemy_at(tx, ty, color) {
            let to: Square = (tx as u8, ty as u8);
            if ty == 0 || ty == 7 {
                out.push(self.make_promotion_capture(from, to, Type::Queen));
                out.push(self.make_promotion_capture(from, to, Type::Rook));
                out.push(self.make_promotion_capture(from, to, Type::Bishop));
                out.push(self.make_promotion_capture(from, to, Type::Knight));
            } else {
                out.push(self.make_capture(from, to));
            }
        }
        assert(out@ =~= old(out)@ + self@.pawn_capture(from.0 as int, from.1 as int, tx as int));
    }

    fn push_pawn_en_passant(&self, from: Square, out: &mut Vec<Action>)
        requires
            square_on_board(from),
        ensures
            final(out)@ == old(out)@ + self@.pawn_en_passant(from.0 as int, from.1 as int),
    {
        let color = self.get(from).color();
        if from.1 == double_step_rank(color.opposite()) {
            match self.can_en_passant {
                Some(target_x) => {
                    if target_x < 8 && ((from.0 != 0 && target_x == from.0 - 1) || target_x
                        == from.0 + 1) {
                        let ty: i8 = from.1 as i8 + forward_step(color);
                        out.push(Action::EnPassant(EnPassant { from, to: (target_x, ty as u8) }));
                    }
                },
                None => {},
            }
        }
        assert(out@ =~= old(out)@ + self@.pawn_en_passant(from.0 as int, from.1 as int));
    }

    fn push_pawn(&self, from: Square, out: &mut Vec<Action>)
        requires
            square_on_board(from),
        ensures
            final(out)@ == old(out)@ + self@.pawn_actions(from.0 as int, from.1 as int),
    {
        let x: i8 = from.0 as i8;
        self.push_pawn_single(from, out);
        self.push_pawn_double(from, out);
        self.push_pawn_capture(from, x - 1, out);
        self.push_pawn_capture(from, x + 1, out);
        self.push_pawn_en_passant(from, out);
        assert(out@ =~= old(out)@ + self@.pawn_actions(from.0 as int, from.1 as int));
    }

    fn push_square(&self, from: Square, out: &mut Vec<Action>)
        requires
            square_on_board(from),
        ensures
            final(out)@ == old(out)@ + self@.square_actions(from.0 as int, from.1 as int),
    {
        let piece = self.get(from);
        if piece.is_empty() || piece.color() != self.turn {
            assert(out@ =~= old(out)@ + self@.square_actions(from.0 as int, from.1 as int));
            return ;
        }
        match piece.type_() {
            Type::Pawn => self.push_pawn(from, out),
            Type::Knight => self.push_knight(from, out),
            Type::Bishop => self.push_bishop(from, out),
            Type::Rook => self.push_rook(from, out),
            Type::Queen => self.push_queen(from, out),
            Type::King => self.push_king(from, out),
        }
    }

    /// Lists every action of the side to move that obeys how the pieces
    /// move, whether or not it leaves the mover's king attacked. The squares
    /// are walked rank by rank from rank 0, and within a rank file by file
    /// from file 0. The board is left as it was.
    pub fn get_possible_actions(&mut self) -> (r: Vec<Action>)
        ensures
            r@ == old(self)@.pseudo_legal(),
            forall|a: Action| r@.contains(a) <==> #[trigger] old(self)@.permits(a),
            r@.no_duplicates(),
            *final(self) == *old(self),
    {
        let mut possible_actions: Vec<Action> = Vec::new();
        let mut y: u8 = 0;
        while y < 8
            invariant
                y <= 8,
                *self == *old(self),
                possible_actions@ == self@.pseudo_legal_upto((8 * y) as nat),
            decreases 8 - y,
        {
            let mut x: u8 = 0;
            while x < 8
                invariant
                    y < 8,
                    x <= 8,
                    *self == *old(self),
                    possible_actions@ == self@.pseudo_legal_upto((8 * y + x) as nat),
                decreases 8 - x,
            {
                assert((8 * y + x) % 8 == x as int && (8 * y + x) / 8 == y as int);
                self.push_square((x, y), &mut possible_actions);
                x = x + 1;
            }
            y = y + 1;
        }
        proof {
            self@.lemma_pseudo_legal_distinct();
            assert forall|a: Action|
                possible_actions@.contains(a) <==> #[trigger] self@.permits(a) by {
                if possible_actions@.contains(a) {
                    self@.lemma_generated_is_permitted(a);
                }
                if self@.permits(a) {
                    self@.lemma_permitted_is_generated(a);
                }
            }
        }
        possible_actions
    }
}

} // verus!

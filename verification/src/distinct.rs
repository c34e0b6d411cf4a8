//! The generator lists no action twice.

use vstd::prelude::*;
use vstd::seq_lib::lemma_no_dup_in_concat;
use crate::action::{Action, Square, on_board};
use crate::attack::{spec_direction, spec_distance, travel};
use crate::moves::promotion_kinds;
use crate::piece::Piece;
use crate::position::Position;

verus! {

/// Leaving elements out of a sequence without duplicates gives a sequence
/// without duplicates.
pub proof fn lemma_filter_distinct<A>(s: Seq<A>, pred: spec_fn(A) -> bool)
    requires
        s.no_duplicates(),
    ensures
        s.filter(pred).no_duplicates(),
    decreases s.len(),
{
    reveal(Seq::filter);
    if s.len() > 0 {
        let front = s.drop_last();
        let kept = front.filter(pred);
        assert forall|i: int, j: int|
            0 <= i < front.len() && 0 <= j < front.len() && i != j implies front[i] != front[j] by {
            assert(front[i] == s[i] && front[j] == s[j]);
        }
        lemma_filter_distinct(front, pred);
        if pred(s.last()) {
            assert forall|i: int| 0 <= i < kept.len() implies kept[i] != s.last() by {
                assert(kept.contains(kept[i]));
                front.lemma_filter_contains_rev(pred, kept[i]);
                let k = choose|k: int| 0 <= k < front.len() && front[k] == kept[i];
                assert(s[k] == front[k]);
            }
            assert(s.filter(pred) == kept.push(s.last()));
        }
    }
}

impl Action {
    /// The square on which the piece of the action lands: for a castling
    /// move, the king's. A double step is told by where it starts.
    pub open spec fn destination(self) -> Square {
        match self {
            Action::Move(m) => m.to,
            Action::PawnDoubleMove(m) => m.from,
            Action::Capture(m) => m.to,
            Action::EnPassant(m) => m.to,
            Action::Castle(m) => m.to,
            Action::Promotion(m) => m.to,
            Action::PromotionCapture(m) => m.to,
        }
    }

    /// The action is a move or a capture.
    pub open spec fn is_step(self) -> bool {
        self is Move || self is Capture
    }

    /// How far the action goes from `(x, y)`, counted in steps of a king.
    pub open spec fn reach(self, x: int, y: int) -> int {
        let dx = spec_distance(x, self.destination().0 as int);
        let dy = spec_distance(y, self.destination().1 as int);
        if dx >= dy {
            dx
        } else {
            dy
        }
    }

    /// The action is a move or a capture that goes from `(x, y)` in
    /// direction `(dx, dy)`.
    pub open spec fn heads(self, x: int, y: int, dx: int, dy: int) -> bool {
        &&& self.is_step()
        &&& spec_direction(x, self.destination().0 as int) == dx
        &&& spec_direction(y, self.destination().1 as int) == dy
    }
}

/// Every action of the sequence starts from `(x, y)`.
pub open spec fn all_from(s: Seq<Action>, x: int, y: int) -> bool {
    forall|i: int| 0 <= i < s.len() ==> (#[trigger] s[i]).origin() == (x as u8, y as u8)
}

/// Every action of the sequence is a move or a capture.
pub open spec fn all_steps(s: Seq<Action>) -> bool {
    forall|i: int| 0 <= i < s.len() ==> (#[trigger] s[i]).is_step()
}

/// The action lands on one of the first `k` squares of `t`, and that square
/// is on the board.
pub open spec fn lands_among(a: Action, t: Seq<(int, int)>, k: int) -> bool {
    exists|n: int|
        0 <= n < k && on_board(t[n].0, t[n].1) && a.destination() == (
            (#[trigger] t[n]).0 as u8,
            t[n].1 as u8,
        )
}

impl Position {
    proof fn lemma_step_shape(self, x: int, y: int, tx: int, ty: int)
        requires
            on_board(x, y),
        ensures
            self.step_actions(x, y, tx, ty).len() <= 1,
            self.step_actions(x, y, tx, ty).no_duplicates(),
            all_from(self.step_actions(x, y, tx, ty), x, y),
            all_steps(self.step_actions(x, y, tx, ty)),
            forall|i: int|
                0 <= i < self.step_actions(x, y, tx, ty).len() ==> (#[trigger] self.step_actions(
                    x,
                    y,
                    tx,
                    ty,
                )[i]).destination() == (tx as u8, ty as u8) && on_board(tx, ty),
    {
    }

    /// Eight steps to eight different squares give a list without
    /// duplicates, of moves and captures from `(x, y)`.
    proof fn lemma_eight_steps(self, x: int, y: int, t: Seq<(int, int)>)
        requires
            on_board(x, y),
            t.len() == 8,
            forall|i: int, j: int| 0 <= i < j < 8 ==> #[trigger] t[i] != #[trigger] t[j],
        ensures
            ({
                let s = self.step_actions(x, y, t[0].0, t[0].1) + self.step_actions(
                    x,
                    y,
                    t[1].0,
                    t[1].1,
                ) + self.step_actions(x, y, t[2].0, t[2].1) + self.step_actions(
                    x,
                    y,
                    t[3].0,
                    t[3].1,
                ) + self.step_actions(x, y, t[4].0, t[4].1) + self.step_actions(
                    x,
                    y,
                    t[5].0,
                    t[5].1,
                ) + self.step_actions(x, y, t[6].0, t[6].1) + self.step_actions(
                    x,
                    y,
                    t[7].0,
                    t[7].1,
                );
                s.no_duplicates() && all_from(s, x, y) && all_steps(s)
            }),
    {
        let s0 = self.step_actions(x, y, t[0].0, t[0].1);
        let s1 = self.step_actions(x, y, t[1].0, t[1].1);
        let s2 = self.step_actions(x, y, t[2].0, t[2].1);
        let s3 = self.step_actions(x, y, t[3].0, t[3].1);
        let s4 = self.step_actions(x, y, t[4].0, t[4].1);
        let s5 = self.step_actions(x, y, t[5].0, t[5].1);
        let s6 = self.step_actions(x, y, t[6].0, t[6].1);
        let s7 = self.step_actions(x, y, t[7].0, t[7].1);
        self.lemma_step_shape(x, y, t[0].0, t[0].1);
        self.lemma_step_shape(x, y, t[1].0, t[1].1);
        self.lemma_step_shape(x, y, t[2].0, t[2].1);
        self.lemma_step_shape(x, y, t[3].0, t[3].1);
        self.lemma_step_shape(x, y, t[4].0, t[4].1);
        self.lemma_step_shape(x, y, t[5].0, t[5].1);
        self.lemma_step_shape(x, y, t[6].0, t[6].1);
        self.lemma_step_shape(x, y, t[7].0, t[7].1);
        assert forall|i: int| 0 <= i < s0.len() implies lands_among(#[trigger] s0[i], t, 1) by {
            assert(on_board(t[0].0, t[0].1) && s0[i].destination() == (t[0].0 as u8, t[0].1 as u8));
        }
        self.lemma_add_step(s0, s1, x, y, t, 1);
        self.lemma_add_step(s0 + s1, s2, x, y, t, 2);
        self.lemma_add_step(s0 + s1 + s2, s3, x, y, t, 3);
        self.lemma_add_step(s0 + s1 + s2 + s3, s4, x, y, t, 4);
        self.lemma_add_step(s0 + s1 + s2 + s3 + s4, s5, x, y, t, 5);
        self.lemma_add_step(s0 + s1 + s2 + s3 + s4 + s5, s6, x, y, t, 6);
        self.lemma_add_step(s0 + s1 + s2 + s3 + s4 + s5 + s6, s7, x, y, t, 7);
    }

    /// The steps to the first `k` squares, and after them the step to the
    /// next.
    proof fn lemma_add_step(
        self,
        done: Seq<Action>,
        next: Seq<Action>,
        x: int,
        y: int,
        t: Seq<(int, int)>,
        k: int,
    )
        requires
            on_board(x, y),
            t.len() == 8,
            1 <= k < 8,
            forall|i: int, j: int| 0 <= i < j < 8 ==> #[trigger] t[i] != #[trigger] t[j],
            next == self.step_actions(x, y, t[k].0, t[k].1),
            done.no_duplicates(),
            all_from(done, x, y),
            all_steps(done),
            forall|i: int| 0 <= i < done.len() ==> lands_among(#[trigger] done[i], t, k),
        ensures
            (done + next).no_duplicates(),
            all_from(done + next, x, y),
            all_steps(done + next),
            forall|i: int|
                0 <= i < (done + next).len() ==> lands_among(#[trigger] (done + next)[i], t, k + 1),
    {
        self.lemma_step_shape(x, y, t[k].0, t[k].1);
        assert forall|i: int, j: int| 0 <= i < done.len() && 0 <= j < next.len() implies done[i]
            != next[j] by {
            assert(lands_among(done[i], t, k));
            let n = choose|n: int|
                0 <= n < k && on_board(t[n].0, t[n].1) && done[i].destination() == (
                    (#[trigger] t[n]).0 as u8,
                    t[n].1 as u8,
                );
            assert(t[n] != t[k]);
        }
        lemma_no_dup_in_concat(done, next);
        assert forall|i: int| 0 <= i < (done + next).len() implies lands_among(
            #[trigger] (done + next)[i],
            t,
            k + 1,
        ) by {
            if i < done.len() {
                assert(lands_among(done[i], t, k));
                let n = choose|n: int|
                    0 <= n < k && on_board(t[n].0, t[n].1) && done[i].destination() == (
                        (#[trigger] t[n]).0 as u8,
                        t[n].1 as u8,
                    );
                assert(on_board(t[n].0, t[n].1) && (done + next)[i].destination() == (
                    t[n].0 as u8,
                    t[n].1 as u8,
                ));
            } else {
                assert((done + next)[i] == next[i - done.len()]);
                assert(on_board(t[k].0, t[k].1) && (done + next)[i].destination() == (
                    t[k].0 as u8,
                    t[k].1 as u8,
                ));
            }
        }
    }

    proof fn lemma_ray_distinct(
        self,
        x: int,
        y: int,
        cx: int,
        cy: int,
        dx: int,
        dy: int,
        n: nat,
        j: int,
    )
        requires
            on_board(x, y),
            -1 <= dx <= 1,
            -1 <= dy <= 1,
            dx != 0 || dy != 0,
            0 <= j,
            cx == travel(x, dx, j),
            cy == travel(y, dy, j),
        ensures
            self.ray_actions(x, y, cx, cy, dx, dy, n).no_duplicates(),
            all_from(self.ray_actions(x, y, cx, cy, dx, dy, n), x, y),
            forall|i: int|
                0 <= i < self.ray_actions(x, y, cx, cy, dx, dy, n).len() ==> (
                #[trigger] self.ray_actions(x, y, cx, cy, dx, dy, n)[i]).heads(x, y, dx, dy)
                    && self.ray_actions(x, y, cx, cy, dx, dy, n)[i].reach(x, y) > j,
        decreases n,
    {
        if n > 0 {
            let tx = cx + dx;
            let ty = cy + dy;
            assert(tx == travel(x, dx, j + 1) && ty == travel(y, dy, j + 1));
            self.lemma_step_shape(x, y, tx, ty);
            if self.is_free(tx, ty) {
                let head = seq![self.move_to(x, y, tx, ty)];
                let rest = self.ray_actions(x, y, tx, ty, dx, dy, (n - 1) as nat);
                self.lemma_ray_distinct(x, y, tx, ty, dx, dy, (n - 1) as nat, j + 1);
                assert(head[0].reach(x, y) == j + 1);
                assert forall|a: int, b: int|
                    0 <= a < head.len() && 0 <= b < rest.len() implies head[a] != rest[b] by {
                    assert(rest[b].reach(x, y) > j + 1);
                }
                lemma_no_dup_in_concat(head, rest);
            }
        }
    }

    /// Four rays in four different directions give a list without
    /// duplicates.
    proof fn lemma_four_rays(self, x: int, y: int, d: Seq<(int, int)>)
        requires
            on_board(x, y),
            d.len() == 4,
            forall|i: int|
                0 <= i < 4 ==> -1 <= (#[trigger] d[i]).0 <= 1 && -1 <= d[i].1 <= 1 && (d[i].0 != 0
                    || d[i].1 != 0),
            forall|i: int, j: int| 0 <= i < j < 4 ==> #[trigger] d[i] != #[trigger] d[j],
        ensures
            ({
                let s = self.ray(x, y, d[0].0, d[0].1) + self.ray(x, y, d[1].0, d[1].1) + self.ray(
                    x,
                    y,
                    d[2].0,
                    d[2].1,
                ) + self.ray(x, y, d[3].0, d[3].1);
                &&& s.no_duplicates()
                &&& all_from(s, x, y)
                &&& forall|i: int|
                    0 <= i < s.len() ==> (#[trigger] s[i]).heads(x, y, d[0].0, d[0].1) || s[i].heads(
                        x,
                        y,
                        d[1].0,
                        d[1].1,
                    ) || s[i].heads(x, y, d[2].0, d[2].1) || s[i].heads(x, y, d[3].0, d[3].1)
            }),
    {
        let a = self.ray(x, y, d[0].0, d[0].1);
        let b = self.ray(x, y, d[1].0, d[1].1);
        let c = self.ray(x, y, d[2].0, d[2].1);
        let e = self.ray(x, y, d[3].0, d[3].1);
        self.lemma_ray_distinct(x, y, x, y, d[0].0, d[0].1, 7, 0);
        self.lemma_ray_distinct(x, y, x, y, d[1].0, d[1].1, 7, 0);
        self.lemma_ray_distinct(x, y, x, y, d[2].0, d[2].1, 7, 0);
        self.lemma_ray_distinct(x, y, x, y, d[3].0, d[3].1, 7, 0);
        assert(d[0] != d[1] && d[0] != d[2] && d[0] != d[3] && d[1] != d[2] && d[1] != d[3] && d[2]
            != d[3]);
        lemma_no_dup_in_concat(a, b);
        lemma_no_dup_in_concat(a + b, c);
        lemma_no_dup_in_concat(a + b + c, e);
    }

    proof fn lemma_bishop_distinct(self, x: int, y: int)
        requires
            on_board(x, y),
        ensures
            self.bishop_actions(x, y).no_duplicates(),
            all_from(self.bishop_actions(x, y), x, y),
            forall|i: int|
                0 <= i < self.bishop_actions(x, y).len() ==> {
                    let a = #[trigger] self.bishop_actions(x, y)[i];
                    a.is_step() && a.destination().0 != x && a.destination().1 != y
                },
    {
        let d = seq![(1int, 1int), (1int, -1int), (-1int, 1int), (-1int, -1int)];
        self.lemma_four_rays(x, y, d);
    }

    proof fn lemma_rook_distinct(self, x: int, y: int)
        requires
            on_board(x, y),
        ensures
            self.rook_actions(x, y).no_duplicates(),
            all_from(self.rook_actions(x, y), x, y),
            forall|i: int|
                0 <= i < self.rook_actions(x, y).len() ==> {
                    let a = #[trigger] self.rook_actions(x, y)[i];
                    a.is_step() && (a.destination().0 == x || a.destination().1 == y)
                },
    {
        let d = seq![(1int, 0int), (-1int, 0int), (0int, 1int), (0int, -1int)];
        self.lemma_four_rays(x, y, d);
    }

    proof fn lemma_queen_distinct(self, x: int, y: int)
        requires
            on_board(x, y),
        ensures
            self.queen_actions(x, y).no_duplicates(),
            all_from(self.queen_actions(x, y), x, y),
    {
        self.lemma_bishop_distinct(x, y);
        self.lemma_rook_distinct(x, y);
        lemma_no_dup_in_concat(self.bishop_actions(x, y), self.rook_actions(x, y));
    }

    proof fn lemma_knight_distinct(self, x: int, y: int)
        requires
            on_board(x, y),
        ensures
            self.knight_actions(x, y).no_duplicates(),
            all_from(self.knight_actions(x, y), x, y),
    {
        let t = seq![
            (x + 1, y + 2),
            (x + 2, y + 1),
            (x + 2, y - 1),
            (x + 1, y - 2),
            (x - 1, y - 2),
            (x - 2, y - 1),
            (x - 2, y + 1),
            (x - 1, y + 2),
        ];
        self.lemma_eight_steps(x, y, t);
    }

    proof fn lemma_king_distinct(self, x: int, y: int)
        requires
            on_board(x, y),
        ensures
            self.king_actions(x, y).no_duplicates(),
            all_from(self.king_actions(x, y), x, y),
    {
        let t = seq![
            (x + 1, y + 1),
            (x + 1, y),
            (x + 1, y - 1),
            (x, y + 1),
            (x, y - 1),
            (x - 1, y + 1),
            (x - 1, y),
            (x - 1, y - 1),
        ];
        self.lemma_eight_steps(x, y, t);
        let steps = self.king_steps(x, y);
        let queenside = self.castle_actions(x, y, false);
        let kingside = self.castle_actions(x, y, true);
        lemma_no_dup_in_concat(steps, queenside);
        lemma_no_dup_in_concat(steps + queenside, kingside);
    }

    proof fn lemma_pawn_distinct(self, x: int, y: int)
        requires
            on_board(x, y),
        ensures
            self.pawn_actions(x, y).no_duplicates(),
            all_from(self.pawn_actions(x, y), x, y),
    {
        let single = self.pawn_single(x, y);
        let double = self.pawn_double(x, y);
        let left = self.pawn_capture(x, y, x - 1);
        let right = self.pawn_capture(x, y, x + 1);
        let passing = self.pawn_en_passant(x, y);
        let color = self.at(x, y).spec_color();
        assert forall|i: int, j: int| 0 <= i < j < 4 implies Piece::spec_encode(
            color,
            #[trigger] promotion_kinds()[i],
            true,
        ) != Piece::spec_encode(color, #[trigger] promotion_kinds()[j], true) by {
            Piece::lemma_encode(color, promotion_kinds()[i], true);
            Piece::lemma_encode(color, promotion_kinds()[j], true);
        }
        assert(single.no_duplicates());
        assert(left.no_duplicates());
        assert(right.no_duplicates());
        assert forall|i: int| 0 <= i < single.len() implies (#[trigger] single[i] is Move
            || single[i] is Promotion) && single[i].origin() == (x as u8, y as u8) by {}
        assert forall|i: int| 0 <= i < double.len() implies #[trigger] double[i] is PawnDoubleMove
            && double[i].origin() == (x as u8, y as u8) by {}
        assert forall|i: int| 0 <= i < left.len() implies (#[trigger] left[i] is Capture
            || left[i] is PromotionCapture) && left[i].destination().0 == x - 1 && left[i].origin()
            == (x as u8, y as u8) by {}
        assert forall|i: int| 0 <= i < right.len() implies (#[trigger] right[i] is Capture
            || right[i] is PromotionCapture) && right[i].destination().0 == x + 1
            && right[i].origin() == (x as u8, y as u8) by {}
        assert forall|i: int| 0 <= i < passing.len() implies #[trigger] passing[i] is EnPassant
            && passing[i].origin() == (x as u8, y as u8) by {}
        lemma_no_dup_in_concat(single, double);
        lemma_no_dup_in_concat(single + double, left);
        lemma_no_dup_in_concat(single + double + left, right);
        lemma_no_dup_in_concat(single + double + left + right, passing);
    }

    proof fn lemma_square_distinct(self, x: int, y: int)
        requires
            on_board(x, y),
        ensures
            self.square_actions(x, y).no_duplicates(),
            all_from(self.square_actions(x, y), x, y),
    {
        self.lemma_pawn_distinct(x, y);
        self.lemma_knight_distinct(x, y);
        self.lemma_bishop_distinct(x, y);
        self.lemma_rook_distinct(x, y);
        self.lemma_queen_distinct(x, y);
        self.lemma_king_distinct(x, y);
    }

    proof fn lemma_upto_distinct(self, n: nat)
        requires
            n <= 64,
        ensures
            self.pseudo_legal_upto(n).no_duplicates(),
            forall|i: int|
                0 <= i < self.pseudo_legal_upto(n).len() ==> {
                    let o = (#[trigger] self.pseudo_legal_upto(n)[i]).origin();
                    o.0 < 8 && o.1 < 8 && 8 * o.1 + o.0 < n
                },
        decreases n,
    {
        if n > 0 {
            let before = self.pseudo_legal_upto((n - 1) as nat);
            let x = (n - 1) % 8;
            let y = (n - 1) / 8;
            let last = self.square_actions(x, y);
            self.lemma_upto_distinct((n - 1) as nat);
            self.lemma_square_distinct(x, y);
            assert forall|i: int, j: int|
                0 <= i < before.len() && 0 <= j < last.len() implies before[i] != last[j] by {
                let o = before[i].origin();
                assert(8 * o.1 + o.0 < n - 1);
                assert(last[j].origin() == (x as u8, y as u8));
            }
            lemma_no_dup_in_concat(before, last);
            assert forall|i: int| 0 <= i < (before + last).len() implies {
                let o = (#[trigger] (before + last)[i]).origin();
                o.0 < 8 && o.1 < 8 && 8 * o.1 + o.0 < n
            } by {
                if i < before.len() {
                    assert((before + last)[i] == before[i]);
                } else {
                    assert((before + last)[i] == last[i - before.len()]);
                }
            }
        }
    }

    /// The generator lists no action twice.
    pub proof fn lemma_pseudo_legal_distinct(self)
        ensures
            self.pseudo_legal().no_duplicates(),
    {
        self.lemma_upto_distinct(64);
    }
}

} // verus!

//! What a pseudo-legal action is, stated by the rules of the pieces and
//! not by how the generator finds it; and the proof that the generator lists
//! these actions and no others.

use vstd::prelude::*;
use crate::action::{Action, Square, on_board, square_on_board};
use crate::attack::{spec_direction, spec_distance, travel};
use crate::piece::{Piece, Type};
use crate::position::{Position, forward};

verus! {

/// What is in a sequence put after another is in one of the two.
pub proof fn lemma_contains_concat<A>(s: Seq<A>, t: Seq<A>, v: A)
    ensures
        (s + t).contains(v) <==> s.contains(v) || t.contains(v),
{
    if s.contains(v) {
        let i = choose|i: int| 0 <= i < s.len() && s[i] == v;
        assert((s + t)[i] == v);
    }
    if t.contains(v) {
        let i = choose|i: int| 0 <= i < t.len() && t[i] == v;
        assert((s + t)[s.len() + i] == v);
    }
    if (s + t).contains(v) {
        let i = choose|i: int| 0 <= i < (s + t).len() && (s + t)[i] == v;
        if i < s.len() {
            assert(s[i] == v);
        } else {
            assert(t[i - s.len()] == v);
        }
    }
}

/// What is in a sequence made of four is in one of the four.
pub proof fn lemma_contains_concat4<A>(a: Seq<A>, b: Seq<A>, c: Seq<A>, d: Seq<A>, v: A)
    ensures
        (a + b + c + d).contains(v) <==> a.contains(v) || b.contains(v) || c.contains(v)
            || d.contains(v),
{
    lemma_contains_concat(a, b, v);
    lemma_contains_concat(a + b, c, v);
    lemma_contains_concat(a + b + c, d, v);
}

/// What is in a sequence made of eight is in one of the eight.
pub proof fn lemma_contains_concat8<A>(
    a: Seq<A>,
    b: Seq<A>,
    c: Seq<A>,
    d: Seq<A>,
    e: Seq<A>,
    f: Seq<A>,
    g: Seq<A>,
    h: Seq<A>,
    v: A,
)
    ensures
        (a + b + c + d + e + f + g + h).contains(v) <==> a.contains(v) || b.contains(v)
            || c.contains(v) || d.contains(v) || e.contains(v) || f.contains(v) || g.contains(v)
            || h.contains(v),
{
    lemma_contains_concat4(a, b, c, d, v);
    lemma_contains_concat(a + b + c + d, e, v);
    lemma_contains_concat(a + b + c + d + e, f, v);
    lemma_contains_concat(a + b + c + d + e + f, g, v);
    lemma_contains_concat(a + b + c + d + e + f + g, h, v);
}

impl Action {
    /// The square from which the piece of the action starts: for a castling
    /// move, the king's.
    pub open spec fn origin(self) -> Square {
        match self {
            Action::Move(m) => m.from,
            Action::PawnDoubleMove(m) => m.from,
            Action::Capture(m) => m.from,
            Action::EnPassant(m) => m.from,
            Action::Castle(m) => (4u8, m.to.1),
            Action::Promotion(m) => m.from,
            Action::PromotionCapture(m) => m.from,
        }
    }
}

impl Position {
    /// The piece on `from` may go to the empty square `to`: a pawn one rank
    /// forward, short of the last rank; any other piece to a square that it
    /// attacks.
    pub open spec fn moves_to(self, from: Square, to: Square) -> bool {
        if self.piece_at(from).is_kind(Type::Pawn) {
            &&& to.0 == from.0
            &&& to.1 == from.1 + forward(self.piece_at(from).spec_color())
            &&& to.1 != 0
            &&& to.1 != 7
        } else {
            self.attacks(from.0 as int, from.1 as int, to.0 as int, to.1 as int)
        }
    }

    /// The piece on `from` may take on `to`: it attacks that square, and if
    /// it is a pawn, the square lies short of the last rank.
    pub open spec fn takes_on(self, from: Square, to: Square) -> bool {
        &&& self.attacks(from.0 as int, from.1 as int, to.0 as int, to.1 as int)
        &&& self.piece_at(from).is_kind(Type::Pawn) ==> to.1 != 0 && to.1 != 7
    }

    /// The piece of the action moves as pieces of its kind do.
    pub open spec fn reaches(self, a: Action) -> bool {
        match a {
            Action::Move(m) => self.moves_to(m.from, m.to),
            Action::Capture(m) => self.takes_on(m.from, m.to),
            _ => true,
        }
    }

    /// The action is pseudo-legal: a piece of the side to move makes it as
    /// pieces of its kind do, onto squares that permit it, and the action
    /// holds what the position was before it.
    pub open spec fn permits(self, a: Action) -> bool {
        self.allows(a) && self.reaches(a)
    }

    /// Every action of the sequence moves as pieces of its kind do.
    pub open spec fn reaches_all(self, s: Seq<Action>) -> bool {
        forall|i: int| 0 <= i < s.len() ==> self.reaches(#[trigger] s[i])
    }

    /// The `k`-th square from `(x, y)` in direction `(dx, dy)` is empty.
    pub open spec fn step_free(self, x: int, y: int, dx: int, dy: int, k: int) -> bool {
        self.at(travel(x, dx, k), travel(y, dy, k))@ is None
    }

    /// `(tx, ty)` lies in direction `(dx, dy)` from `(x, y)`, on a rank, a
    /// file or a diagonal, with nothing in between.
    pub open spec fn along_ray(self, x: int, y: int, dx: int, dy: int, tx: int, ty: int) -> bool {
        &&& spec_direction(x, tx) == dx
        &&& spec_direction(y, ty) == dy
        &&& dx != 0 && dy != 0 ==> spec_distance(x, tx) == spec_distance(y, ty)
        &&& self.clear_between(x, y, tx, ty)
    }

    /// The piece on `(x, y)` walks rays in direction `(dx, dy)`.
    pub open spec fn slides(self, x: int, y: int, dx: int, dy: int) -> bool {
        &&& -1 <= dx <= 1
        &&& -1 <= dy <= 1
        &&& dx != 0 || dy != 0
        &&& if dx != 0 && dy != 0 {
            self.at(x, y).is_kind(Type::Bishop) || self.at(x, y).is_kind(Type::Queen)
        } else {
            self.at(x, y).is_kind(Type::Rook) || self.at(x, y).is_kind(Type::Queen)
        }
    }

    proof fn lemma_reaches_concat(self, s: Seq<Action>, t: Seq<Action>)
        requires
            self.reaches_all(s),
            self.reaches_all(t),
        ensures
            self.reaches_all(s + t),
    {
    }

    /// A slider attacks what lies along one of its rays.
    proof fn lemma_ray_attacks(self, x: int, y: int, dx: int, dy: int, tx: int, ty: int)
        requires
            self.slides(x, y, dx, dy),
            self.along_ray(x, y, dx, dy, tx, ty),
        ensures
            self.attacks(x, y, tx, ty),
    {
    }

    proof fn lemma_step_reaches(self, x: int, y: int, tx: int, ty: int)
        requires
            self.wf(),
            on_board(x, y),
            !self.at(x, y).is_kind(Type::Pawn),
            self.attacks(x, y, tx, ty),
        ensures
            self.reaches_all(self.step_actions(x, y, tx, ty)),
    {
    }

    proof fn lemma_ray_reaches(
        self,
        x: int,
        y: int,
        cx: int,
        cy: int,
        dx: int,
        dy: int,
        n: nat,
        j: int,
    )
        requires
            self.wf(),
            on_board(x, y),
            self.slides(x, y, dx, dy),
            0 <= j,
            cx == travel(x, dx, j),
            cy == travel(y, dy, j),
            forall|k: int| 0 < k <= j ==> #[trigger] self.step_free(x, y, dx, dy, k),
        ensures
            self.reaches_all(self.ray_actions(x, y, cx, cy, dx, dy, n)),
        decreases n,
    {
        if n > 0 {
            let tx = cx + dx;
            let ty = cy + dy;
            assert(tx == travel(x, dx, j + 1) && ty == travel(y, dy, j + 1));
            if on_board(tx, ty) {
                assert forall|k: int|
                    0 < k < spec_distance(x, tx) || 0 < k < spec_distance(
                        y,
                        ty,
                    ) implies #[trigger] self.free_on_way(x, y, tx, ty, k) by {
                    assert(self.step_free(x, y, dx, dy, k));
                }
                assert(self.along_ray(x, y, dx, dy, tx, ty));
                self.lemma_ray_attacks(x, y, dx, dy, tx, ty);
                self.lemma_step_reaches(x, y, tx, ty);
            }
            if self.is_free(tx, ty) {
                assert forall|k: int| 0 < k <= j + 1 implies #[trigger] self.step_free(
                    x,
                    y,
                    dx,
                    dy,
                    k,
                ) by {
                    if k <= j {
                        assert(self.step_free(x, y, dx, dy, k));
                    }
                }
                self.lemma_ray_reaches(x, y, tx, ty, dx, dy, (n - 1) as nat, j + 1);
                self.lemma_reaches_concat(
                    seq![self.move_to(x, y, tx, ty)],
                    self.ray_actions(x, y, tx, ty, dx, dy, (n - 1) as nat),
                );
            }
        }
    }

    proof fn lemma_whole_ray_reaches(self, x: int, y: int, dx: int, dy: int)
        requires
            self.wf(),
            on_board(x, y),
            self.slides(x, y, dx, dy),
        ensures
            self.reaches_all(self.ray(x, y, dx, dy)),
    {
        self.lemma_ray_reaches(x, y, x, y, dx, dy, 7, 0);
    }

    proof fn lemma_bishop_reaches(self, x: int, y: int)
        requires
            self.wf(),
            on_board(x, y),
            self.at(x, y).is_kind(Type::Bishop) || self.at(x, y).is_kind(Type::Queen),
        ensures
            self.reaches_all(self.bishop_actions(x, y)),
    {
        self.lemma_whole_ray_reaches(x, y, 1, 1);
        self.lemma_whole_ray_reaches(x, y, 1, -1);
        self.lemma_whole_ray_reaches(x, y, -1, 1);
        self.lemma_whole_ray_reaches(x, y, -1, -1);
        let a = self.ray(x, y, 1, 1);
        let b = self.ray(x, y, 1, -1);
        let c = self.ray(x, y, -1, 1);
        let d = self.ray(x, y, -1, -1);
        self.lemma_reaches_concat(a, b);
        self.lemma_reaches_concat(a + b, c);
        self.lemma_reaches_concat(a + b + c, d);
    }

    proof fn lemma_rook_reaches(self, x: int, y: int)
        requires
            self.wf(),
            on_board(x, y),
            self.at(x, y).is_kind(Type::Rook) || self.at(x, y).is_kind(Type::Queen),
        ensures
            self.reaches_all(self.rook_actions(x, y)),
    {
        self.lemma_whole_ray_reaches(x, y, 1, 0);
        self.lemma_whole_ray_reaches(x, y, -1, 0);
        self.lemma_whole_ray_reaches(x, y, 0, 1);
        self.lemma_whole_ray_reaches(x, y, 0, -1);
        let a = self.ray(x, y, 1, 0);
        let b = self.ray(x, y, -1, 0);
        let c = self.ray(x, y, 0, 1);
        let d = self.ray(x, y, 0, -1);
        self.lemma_reaches_concat(a, b);
        self.lemma_reaches_concat(a + b, c);
        self.lemma_reaches_concat(a + b + c, d);
    }

    proof fn lemma_knight_reaches(self, x: int, y: int)
        requires
            self.wf(),
            on_board(x, y),
            self.at(x, y).is_kind(Type::Knight),
        ensures
            self.reaches_all(self.knight_actions(x, y)),
    {
        let s0 = self.step_actions(x, y, x + 1, y + 2);
        let s1 = self.step_actions(x, y, x + 2, y + 1);
        let s2 = self.step_actions(x, y, x + 2, y - 1);
        let s3 = self.step_actions(x, y, x + 1, y - 2);
        let s4 = self.step_actions(x, y, x - 1, y - 2);
        let s5 = self.step_actions(x, y, x - 2, y - 1);
        let s6 = self.step_actions(x, y, x - 2, y + 1);
        let s7 = self.step_actions(x, y, x - 1, y + 2);
        self.lemma_step_reaches(x, y, x + 1, y + 2);
        self.lemma_step_reaches(x, y, x + 2, y + 1);
        self.lemma_step_reaches(x, y, x + 2, y - 1);
        self.lemma_step_reaches(x, y, x + 1, y - 2);
        self.lemma_step_reaches(x, y, x - 1, y - 2);
        self.lemma_step_reaches(x, y, x - 2, y - 1);
        self.lemma_step_reaches(x, y, x - 2, y + 1);
        self.lemma_step_reaches(x, y, x - 1, y + 2);
        self.lemma_reaches_concat(s0, s1);
        self.lemma_reaches_concat(s0 + s1, s2);
        self.lemma_reaches_concat(s0 + s1 + s2, s3);
        self.lemma_reaches_concat(s0 + s1 + s2 + s3, s4);
        self.lemma_reaches_concat(s0 + s1 + s2 + s3 + s4, s5);
        self.lemma_reaches_concat(s0 + s1 + s2 + s3 + s4 + s5, s6);
        self.lemma_reaches_concat(s0 + s1 + s2 + s3 + s4 + s5 + s6, s7);
    }

    proof fn lemma_king_reaches(self, x: int, y: int)
        requires
            self.wf(),
            on_board(x, y),
            self.at(x, y).is_kind(Type::King),
        ensures
            self.reaches_all(self.king_actions(x, y)),
    {
        let s0 = self.step_actions(x, y, x + 1, y + 1);
        let s1 = self.step_actions(x, y, x + 1, y);
        let s2 = self.step_actions(x, y, x + 1, y - 1);
        let s3 = self.step_actions(x, y, x, y + 1);
        let s4 = self.step_actions(x, y, x, y - 1);
        let s5 = self.step_actions(x, y, x - 1, y + 1);
        let s6 = self.step_actions(x, y, x - 1, y);
        let s7 = self.step_actions(x, y, x - 1, y - 1);
        self.lemma_step_reaches(x, y, x + 1, y + 1);
        self.lemma_step_reaches(x, y, x + 1, y);
        self.lemma_step_reaches(x, y, x + 1, y - 1);
        self.lemma_step_reaches(x, y, x, y + 1);
        self.lemma_step_reaches(x, y, x, y - 1);
        self.lemma_step_reaches(x, y, x - 1, y + 1);
        self.lemma_step_reaches(x, y, x - 1, y);
        self.lemma_step_reaches(x, y, x - 1, y - 1);
        self.lemma_reaches_concat(s0, s1);
        self.lemma_reaches_concat(s0 + s1, s2);
        self.lemma_reaches_concat(s0 + s1 + s2, s3);
        self.lemma_reaches_concat(s0 + s1 + s2 + s3, s4);
        self.lemma_reaches_concat(s0 + s1 + s2 + s3 + s4, s5);
        self.lemma_reaches_concat(s0 + s1 + s2 + s3 + s4 + s5, s6);
        self.lemma_reaches_concat(s0 + s1 + s2 + s3 + s4 + s5 + s6, s7);
        self.lemma_reaches_concat(self.king_steps(x, y), self.castle_actions(x, y, false));
        self.lemma_reaches_concat(
            self.king_steps(x, y) + self.castle_actions(x, y, false),
            self.castle_actions(x, y, true),
        );
    }

    proof fn lemma_pawn_reaches(self, x: int, y: int)
        requires
            self.wf(),
            on_board(x, y),
            self.at(x, y).is_kind(Type::Pawn),
        ensures
            self.reaches_all(self.pawn_actions(x, y)),
    {
        let single = self.pawn_single(x, y);
        let double = self.pawn_double(x, y);
        let left = self.pawn_capture(x, y, x - 1);
        let right = self.pawn_capture(x, y, x + 1);
        let passing = self.pawn_en_passant(x, y);
        assert(self.reaches_all(single));
        assert(self.reaches_all(double));
        assert(self.reaches_all(left));
        assert(self.reaches_all(right));
        assert(self.reaches_all(passing));
        self.lemma_reaches_concat(single, double);
        self.lemma_reaches_concat(single + double, left);
        self.lemma_reaches_concat(single + double + left, right);
        self.lemma_reaches_concat(single + double + left + right, passing);
    }

    proof fn lemma_square_reaches(self, x: int, y: int)
        requires
            self.wf(),
            on_board(x, y),
        ensures
            self.reaches_all(self.square_actions(x, y)),
    {
        if self.at(x, y).is_color(self.turn) {
            if self.at(x, y).is_kind(Type::Pawn) {
                self.lemma_pawn_reaches(x, y);
            } else if self.at(x, y).is_kind(Type::Knight) {
                self.lemma_knight_reaches(x, y);
            } else if self.at(x, y).is_kind(Type::Bishop) {
                self.lemma_bishop_reaches(x, y);
            } else if self.at(x, y).is_kind(Type::Rook) {
                self.lemma_rook_reaches(x, y);
            } else if self.at(x, y).is_kind(Type::Queen) {
                self.lemma_bishop_reaches(x, y);
                self.lemma_rook_reaches(x, y);
                self.lemma_reaches_concat(self.bishop_actions(x, y), self.rook_actions(x, y));
            } else {
                self.lemma_king_reaches(x, y);
            }
        }
    }

    proof fn lemma_upto_reaches(self, n: nat)
        requires
            self.wf(),
            n <= 64,
        ensures
            self.reaches_all(self.pseudo_legal_upto(n)),
        decreases n,
    {
        if n > 0 {
            self.lemma_upto_reaches((n - 1) as nat);
            self.lemma_square_reaches((n - 1) % 8, (n - 1) / 8);
            self.lemma_reaches_concat(
                self.pseudo_legal_upto((n - 1) as nat),
                self.square_actions((n - 1) % 8, (n - 1) / 8),
            );
        }
    }

    /// Every action that the generator lists is pseudo-legal.
    pub proof fn lemma_generated_is_permitted(self, a: Action)
        requires
            self.wf(),
            self.pseudo_legal().contains(a),
        ensures
            self.permits(a),
    {
        self.lemma_upto_reaches(64);
        self.lemma_pseudo_legal_allowed();
    }

    /// The one action of a step is in the list of the step.
    proof fn lemma_step_complete(self, a: Action)
        requires
            self.wf(),
            self.allows(a),
            a is Move || a is Capture,
        ensures
            a matches Action::Move(m) ==> self.step_actions(
                m.from.0 as int,
                m.from.1 as int,
                m.to.0 as int,
                m.to.1 as int,
            ) == seq![a],
            a matches Action::Capture(m) ==> self.step_actions(
                m.from.0 as int,
                m.from.1 as int,
                m.to.0 as int,
                m.to.1 as int,
            ) == seq![a],
    {
    }

    proof fn lemma_ray_complete(
        self,
        x: int,
        y: int,
        cx: int,
        cy: int,
        dx: int,
        dy: int,
        n: nat,
        j: int,
        k: int,
        a: Action,
    )
        requires
            self.wf(),
            on_board(x, y),
            -1 <= dx <= 1,
            -1 <= dy <= 1,
            dx != 0 || dy != 0,
            0 <= j < k,
            k - j <= n,
            cx == travel(x, dx, j),
            cy == travel(y, dy, j),
            forall|i: int| j < i < k ==> #[trigger] self.step_free(x, y, dx, dy, i),
            on_board(travel(x, dx, k), travel(y, dy, k)),
            self.step_actions(x, y, travel(x, dx, k), travel(y, dy, k)) == seq![a],
        ensures
            self.ray_actions(x, y, cx, cy, dx, dy, n).contains(a),
        decreases n,
    {
        let nx = cx + dx;
        let ny = cy + dy;
        assert(nx == travel(x, dx, j + 1) && ny == travel(y, dy, j + 1));
        if k == j + 1 {
            assert(seq![a][0] == a);
            if self.is_free(nx, ny) {
                assert(self.ray_actions(x, y, cx, cy, dx, dy, n)[0] == a);
            }
        } else {
            assert(self.step_free(x, y, dx, dy, j + 1));
            assert(on_board(nx, ny));
            let rest = self.ray_actions(x, y, nx, ny, dx, dy, (n - 1) as nat);
            self.lemma_ray_complete(x, y, nx, ny, dx, dy, (n - 1) as nat, j + 1, k, a);
            lemma_contains_concat(seq![self.move_to(x, y, nx, ny)], rest, a);
        }
    }

    /// A move or capture along a clear line is in the ray of its direction.
    proof fn lemma_line_complete(self, a: Action, x: int, y: int, tx: int, ty: int)
        requires
            self.wf(),
            on_board(x, y),
            on_board(tx, ty),
            self.step_actions(x, y, tx, ty) == seq![a],
            self.sees_diagonally(x, y, tx, ty) || self.sees_straight(x, y, tx, ty),
        ensures
            self.ray(x, y, spec_direction(x, tx), spec_direction(y, ty)).contains(a),
    {
        let dx = spec_direction(x, tx);
        let dy = spec_direction(y, ty);
        let k = if x != tx {
            spec_distance(x, tx)
        } else {
            spec_distance(y, ty)
        };
        assert(tx == travel(x, dx, k) && ty == travel(y, dy, k));
        assert forall|i: int| 0 < i < k implies #[trigger] self.step_free(x, y, dx, dy, i) by {
            assert(self.free_on_way(x, y, tx, ty, i));
        }
        self.lemma_ray_complete(x, y, x, y, dx, dy, 7, 0, k, a);
    }

    proof fn lemma_bishop_complete(self, a: Action, x: int, y: int, tx: int, ty: int)
        requires
            self.wf(),
            on_board(x, y),
            on_board(tx, ty),
            self.step_actions(x, y, tx, ty) == seq![a],
            self.sees_diagonally(x, y, tx, ty),
        ensures
            self.bishop_actions(x, y).contains(a),
    {
        self.lemma_line_complete(a, x, y, tx, ty);
        lemma_contains_concat4(
            self.ray(x, y, 1, 1),
            self.ray(x, y, 1, -1),
            self.ray(x, y, -1, 1),
            self.ray(x, y, -1, -1),
            a,
        );
    }

    proof fn lemma_rook_complete(self, a: Action, x: int, y: int, tx: int, ty: int)
        requires
            self.wf(),
            on_board(x, y),
            on_board(tx, ty),
            self.step_actions(x, y, tx, ty) == seq![a],
            self.sees_straight(x, y, tx, ty),
        ensures
            self.rook_actions(x, y).contains(a),
    {
        self.lemma_line_complete(a, x, y, tx, ty);
        lemma_contains_concat4(
            self.ray(x, y, 1, 0),
            self.ray(x, y, -1, 0),
            self.ray(x, y, 0, 1),
            self.ray(x, y, 0, -1),
            a,
        );
    }

    proof fn lemma_knight_complete(self, a: Action, x: int, y: int, tx: int, ty: int)
        requires
            self.step_actions(x, y, tx, ty) == seq![a],
            (spec_distance(x, tx) == 1 && spec_distance(y, ty) == 2) || (spec_distance(x, tx) == 2
                && spec_distance(y, ty) == 1),
        ensures
            self.knight_actions(x, y).contains(a),
    {
        assert(seq![a][0] == a);
        lemma_contains_concat8(
            self.step_actions(x, y, x + 1, y + 2),
            self.step_actions(x, y, x + 2, y + 1),
            self.step_actions(x, y, x + 2, y - 1),
            self.step_actions(x, y, x + 1, y - 2),
            self.step_actions(x, y, x - 1, y - 2),
            self.step_actions(x, y, x - 2, y - 1),
            self.step_actions(x, y, x - 2, y + 1),
            self.step_actions(x, y, x - 1, y + 2),
            a,
        );
    }

    proof fn lemma_king_step_complete(self, a: Action, x: int, y: int, tx: int, ty: int)
        requires
            self.step_actions(x, y, tx, ty) == seq![a],
            spec_distance(x, tx) <= 1,
            spec_distance(y, ty) <= 1,
            x != tx || y != ty,
        ensures
            self.king_actions(x, y).contains(a),
    {
        assert(seq![a][0] == a);
        lemma_contains_concat8(
            self.step_actions(x, y, x + 1, y + 1),
            self.step_actions(x, y, x + 1, y),
            self.step_actions(x, y, x + 1, y - 1),
            self.step_actions(x, y, x, y + 1),
            self.step_actions(x, y, x, y - 1),
            self.step_actions(x, y, x - 1, y + 1),
            self.step_actions(x, y, x - 1, y),
            self.step_actions(x, y, x - 1, y - 1),
            a,
        );
        lemma_contains_concat(self.king_steps(x, y), self.castle_actions(x, y, false), a);
        lemma_contains_concat(
            self.king_steps(x, y) + self.castle_actions(x, y, false),
            self.castle_actions(x, y, true),
            a,
        );
    }

    /// A pseudo-legal move or capture of a piece that is no pawn is in the
    /// list of its square.
    proof fn lemma_piece_complete(self, a: Action, x: int, y: int, tx: int, ty: int)
        requires
            self.wf(),
            on_board(x, y),
            on_board(tx, ty),
            self.at(x, y)@ is Some,
            self.at(x, y).is_color(self.turn),
            !self.at(x, y).is_kind(Type::Pawn),
            self.step_actions(x, y, tx, ty) == seq![a],
            self.attacks(x, y, tx, ty),
        ensures
            self.square_actions(x, y).contains(a),
    {
        if self.at(x, y).is_kind(Type::Knight) {
            self.lemma_knight_complete(a, x, y, tx, ty);
        } else if self.at(x, y).is_kind(Type::King) {
            self.lemma_king_step_complete(a, x, y, tx, ty);
        } else if self.at(x, y).is_kind(Type::Bishop) {
            self.lemma_bishop_complete(a, x, y, tx, ty);
        } else if self.at(x, y).is_kind(Type::Rook) {
            self.lemma_rook_complete(a, x, y, tx, ty);
        } else {
            if self.sees_diagonally(x, y, tx, ty) {
                self.lemma_bishop_complete(a, x, y, tx, ty);
            } else {
                self.lemma_rook_complete(a, x, y, tx, ty);
            }
            lemma_contains_concat(self.bishop_actions(x, y), self.rook_actions(x, y), a);
        }
    }

    /// A pseudo-legal action of a pawn is in the list of its square.
    proof fn lemma_pawn_complete(self, a: Action, x: int, y: int)
        requires
            self.wf(),
            on_board(x, y),
            self.permits(a),
            a.origin() == (x as u8, y as u8),
            self.at(x, y).is_kind(Type::Pawn),
        ensures
            self.pawn_actions(x, y).contains(a),
    {
        let single = self.pawn_single(x, y);
        let double = self.pawn_double(x, y);
        let left = self.pawn_capture(x, y, x - 1);
        let right = self.pawn_capture(x, y, x + 1);
        let passing = self.pawn_en_passant(x, y);
        lemma_contains_concat4(single, double, left, right, a);
        lemma_contains_concat(single + double + left + right, passing, a);
        match a {
            Action::Move(m) => {
                assert(single[0] == a);
            },
            Action::PawnDoubleMove(m) => {
                assert(double[0] == a);
            },
            Action::Capture(m) => {
                if m.to.0 == x - 1 {
                    assert(left[0] == a);
                } else {
                    assert(right[0] == a);
                }
            },
            Action::EnPassant(m) => {
                assert(passing[0] == a);
            },
            Action::Castle(m) => {},
            Action::Promotion(m) => {
                let i = choose|i: int|
                    0 <= i < 4 && m.promoted_to == Piece::spec_encode(
                        self.turn,
                        #[trigger] crate::moves::promotion_kinds()[i],
                        true,
                    );
                assert(single[i] == a);
            },
            Action::PromotionCapture(m) => {
                let i = choose|i: int|
                    0 <= i < 4 && m.promoted_to == Piece::spec_encode(
                        self.turn,
                        #[trigger] crate::moves::promotion_kinds()[i],
                        true,
                    );
                if m.to.0 == x - 1 {
                    assert(left[i] == a);
                } else {
                    assert(right[i] == a);
                }
            },
        }
    }

    /// A pseudo-legal action is in the list of the square it starts from.
    proof fn lemma_square_complete(self, a: Action)
        requires
            self.wf(),
            self.permits(a),
        ensures
            square_on_board(a.origin()),
            self.square_actions(a.origin().0 as int, a.origin().1 as int).contains(a),
    {
        let x = a.origin().0 as int;
        let y = a.origin().1 as int;
        if self.at(x, y).is_kind(Type::Pawn) {
            self.lemma_pawn_complete(a, x, y);
        } else {
            match a {
                Action::Move(m) => {
                    self.lemma_step_complete(a);
                    self.lemma_piece_complete(a, x, y, m.to.0 as int, m.to.1 as int);
                },
                Action::Capture(m) => {
                    self.lemma_step_complete(a);
                    self.lemma_piece_complete(a, x, y, m.to.0 as int, m.to.1 as int);
                },
                Action::Castle(m) => {
                    let queenside = self.castle_actions(x, y, false);
                    let kingside = self.castle_actions(x, y, true);
                    lemma_contains_concat(self.king_steps(x, y), queenside, a);
                    lemma_contains_concat(self.king_steps(x, y) + queenside, kingside, a);
                    if m.to.0 == 6 {
                        assert(kingside[0] == a);
                    } else {
                        assert(queenside[0] == a);
                    }
                },
                _ => {},
            }
        }
    }

    proof fn lemma_square_in_upto(self, a: Action, x: int, y: int, n: nat)
        requires
            on_board(x, y),
            self.square_actions(x, y).contains(a),
            8 * y + x < n,
        ensures
            self.pseudo_legal_upto(n).contains(a),
        decreases n,
    {
        let before = self.pseudo_legal_upto((n - 1) as nat);
        let last = self.square_actions((n - 1) % 8, (n - 1) / 8);
        lemma_contains_concat(before, last, a);
        if 8 * y + x < n - 1 {
            self.lemma_square_in_upto(a, x, y, (n - 1) as nat);
        }
    }

    /// Every pseudo-legal action is in the generator's list.
    pub proof fn lemma_permitted_is_generated(self, a: Action)
        requires
            self.wf(),
            self.permits(a),
        ensures
            self.pseudo_legal().contains(a),
    {
        self.lemma_square_complete(a);
        self.lemma_square_in_upto(a, a.origin().0 as int, a.origin().1 as int, 64);
    }
}

} // verus!

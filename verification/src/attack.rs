//! Which squares a side attacks, and whether a king stands on one of them.

use vstd::prelude::*;
use crate::action::{Square, on_board, square_on_board};
use crate::board::Board;
use crate::piece::{Color, Type};
use crate::position::{Position, forward};

verus! {

/// The distance between two coordinates.
pub open spec fn spec_distance(a: int, b: int) -> int {
    if a <= b {
        b - a
    } else {
        a - b
    }
}

/// The direction from `a` to `b`: 1, -1, or 0 where they are equal.
pub open spec fn spec_direction(a: int, b: int) -> int {
    if a < b {
        1
    } else if a > b {
        -1
    } else {
        0
    }
}

/// The coordinate reached from `a` after `k` steps in direction `s`.
pub open spec fn travel(a: int, s: int, k: int) -> int {
    if s > 0 {
        a + k
    } else if s < 0 {
        a - k
    } else {
        a
    }
}

fn distance(a: u8, b: u8) -> (r: u8)
    ensures
        r == spec_distance(a as int, b as int),
{
    if a <= b {
        b - a
    } else {
        a - b
    }
}

fn direction(a: u8, b: u8) -> (r: i8)
    ensures
        r == spec_direction(a as int, b as int),
{
    if a < b {
        1
    } else if a > b {
        -1
    } else {
        0
    }
}

impl Position {
    /// The `k`-th square on the way from `(fx, fy)` towards `(tx, ty)` is
    /// empty.
    pub open spec fn free_on_way(self, fx: int, fy: int, tx: int, ty: int, k: int) -> bool {
        self.at(
            travel(fx, spec_direction(fx, tx), k),
            travel(fy, spec_direction(fy, ty), k),
        )@ is None
    }

    /// Every square strictly between `(fx, fy)` and `(tx, ty)`, which lie on
    /// one rank, file or diagonal, is empty.
    pub open spec fn clear_between(self, fx: int, fy: int, tx: int, ty: int) -> bool {
        forall|k: int|
            0 < k < spec_distance(fx, tx) || 0 < k < spec_distance(fy, ty) ==> #[trigger] self.free_on_way(
                fx,
                fy,
                tx,
                ty,
                k,
            )
    }

    /// `(tx, ty)` lies on a diagonal through `(fx, fy)`, and nothing stands
    /// between them.
    pub open spec fn sees_diagonally(self, fx: int, fy: int, tx: int, ty: int) -> bool {
        spec_distance(fx, tx) == spec_distance(fy, ty) && fx != tx && self.clear_between(
            fx,
            fy,
            tx,
            ty,
        )
    }

    /// `(tx, ty)` lies on the rank or the file of `(fx, fy)`, and nothing
    /// stands between them.
    pub open spec fn sees_straight(self, fx: int, fy: int, tx: int, ty: int) -> bool {
        (fx == tx) != (fy == ty) && self.clear_between(fx, fy, tx, ty)
    }

    /// The piece on `(fx, fy)` attacks `(tx, ty)`: it could take a piece of
    /// the other colour there. A pawn attacks the two squares diagonally in
    /// front of it, whatever stands on them.
    pub open spec fn attacks(self, fx: int, fy: int, tx: int, ty: int) -> bool {
        match self.at(fx, fy)@ {
            None => false,
            Some(o) => match o.kind {
                Type::Pawn => ty == fy + forward(o.color) && spec_distance(fx, tx) == 1,
                Type::Knight => (spec_distance(fx, tx) == 1 && spec_distance(fy, ty) == 2) || (
                spec_distance(fx, tx) == 2 && spec_distance(fy, ty) == 1),
                Type::Bishop => self.sees_diagonally(fx, fy, tx, ty),
                Type::Rook => self.sees_straight(fx, fy, tx, ty),
                Type::Queen => self.sees_diagonally(fx, fy, tx, ty) || self.sees_straight(
                    fx,
                    fy,
                    tx,
                    ty,
                ),
                Type::King => spec_distance(fx, tx) <= 1 && spec_distance(fy, ty) <= 1 && (fx != tx
                    || fy != ty),
            },
        }
    }

    /// A piece of colour `by` stands on `(fx, fy)` and attacks `(tx, ty)`.
    pub open spec fn attacked_from(self, fx: int, fy: int, tx: int, ty: int, by: Color) -> bool {
        on_board(fx, fy) && self.at(fx, fy).is_color(by) && self.attacks(fx, fy, tx, ty)
    }

    /// Some piece of colour `by` attacks `(tx, ty)`.
    pub open spec fn square_is_attacked(self, tx: int, ty: int, by: Color) -> bool {
        exists|fx: int, fy: int| #[trigger] self.attacked_from(fx, fy, tx, ty, by)
    }

    /// A king of `color` stands on `(x, y)` and the other side attacks it.
    pub open spec fn king_attacked_at(self, x: int, y: int, color: Color) -> bool {
        on_board(x, y) && self.at(x, y).is_color(color) && self.at(x, y).is_kind(Type::King)
            && self.square_is_attacked(x, y, color.spec_opposite())
    }

    /// The king of `color` is attacked.
    pub open spec fn is_in_check(self, color: Color) -> bool {
        exists|x: int, y: int| #[trigger] self.king_attacked_at(x, y, color)
    }
}

impl Board {
    fn clear_between(&self, from: Square, to: Square) -> (r: bool)
        requires
            square_on_board(from),
            square_on_board(to),
            from.0 == to.0 || from.1 == to.1 || spec_distance(from.0 as int, to.0 as int)
                == spec_distance(from.1 as int, to.1 as int),
        ensures
            r == self@.clear_between(from.0 as int, from.1 as int, to.0 as int, to.1 as int),
    {
        let ghost fx = from.0 as int;
        let ghost fy = from.1 as int;
        let ghost tx = to.0 as int;
        let ghost ty = to.1 as int;
        let sx: i8 = direction(from.0, to.0);
        let sy: i8 = direction(from.1, to.1);
        let nx: u8 = distance(from.0, to.0);
        let ny: u8 = distance(from.1, to.1);
        let n: u8 = if nx >= ny {
            nx
        } else {
            ny
        };
        let mut k: u8 = 1;
        while k < n
            invariant
                square_on_board(from),
                square_on_board(to),
                fx == from.0,
                fy == from.1,
                tx == to.0,
                ty == to.1,
                sx == spec_direction(fx, tx),
                sy == spec_direction(fy, ty),
                nx == spec_distance(fx, tx),
                ny == spec_distance(fy, ty),
                nx == 0 || ny == 0 || nx == ny,
                n == nx || n == ny,
                n >= nx,
                n >= ny,
                1 <= k,
                forall|j: int| 0 < j < k ==> #[trigger] self@.free_on_way(fx, fy, tx, ty, j),
            decreases n - k,
        {
            let cx: i8 = from.0 as i8 + sx * (k as i8);
            let cy: i8 = from.1 as i8 + sy * (k as i8);
            assert(cx == travel(fx, sx as int, k as int));
            assert(cy == travel(fy, sy as int, k as int));
            if !self.get((cx as u8, cy as u8)).is_empty() {
                assert(!self@.free_on_way(fx, fy, tx, ty, k as int));
                return false;
            }
            k = k + 1;
        }
        true
    }

    /// Whether the piece on `from` attacks `to`.
    pub fn attacks(&self, from: Square, to: Square) -> (r: bool)
        requires
            square_on_board(from),
            square_on_board(to),
        ensures
            r == self@.attacks(from.0 as int, from.1 as int, to.0 as int, to.1 as int),
    {
        let piece = self.get(from);
        if piece.is_empty() {
            return false;
        }
        let nx: u8 = distance(from.0, to.0);
        let ny: u8 = distance(from.1, to.1);
        match piece.type_() {
            Type::Pawn => {
                let ahead: i8 = from.1 as i8 + match piece.color() {
                    Color::Black => 1i8,
                    Color::White => -1i8,
                };
                to.1 as i8 == ahead && nx == 1
            },
            Type::Knight => (nx == 1 && ny == 2) || (nx == 2 && ny == 1),
            Type::Bishop => nx == ny && nx != 0 && self.clear_between(from, to),
            Type::Rook => (nx == 0) != (ny == 0) && self.clear_between(from, to),
            Type::Queen => (nx == ny && nx != 0 && self.clear_between(from, to)) || ((nx == 0) != (
            ny == 0) && self.clear_between(from, to)),
            Type::King => nx <= 1 && ny <= 1 && (nx != 0 || ny != 0),
        }
    }

    /// Whether some piece of `by_color` attacks `square`.
    pub fn square_is_attacked(&self, square: Square, by_color: Color) -> (r: bool)
        requires
            square_on_board(square),
        ensures
            r == self@.square_is_attacked(square.0 as int, square.1 as int, by_color),
    {
        let ghost tx = square.0 as int;
        let ghost ty = square.1 as int;
        let mut y: u8 = 0;
        while y < 8
            invariant
                square_on_board(square),
                tx == square.0,
                ty == square.1,
                y <= 8,
                forall|fx: int, fy: int|
                    fy < y ==> !#[trigger] self@.attacked_from(fx, fy, tx, ty, by_color),
            decreases 8 - y,
        {
            let mut x: u8 = 0;
            while x < 8
                invariant
                    square_on_board(square),
                    tx == square.0,
                    ty == square.1,
                    y < 8,
                    x <= 8,
                    forall|fx: int, fy: int|
                        fy < y || (fy == y && fx < x) ==> !#[trigger] self@.attacked_from(
                            fx,
                            fy,
                            tx,
                            ty,
                            by_color,
                        ),
                decreases 8 - x,
            {
                let piece = self.get((x, y));
                if !piece.is_empty() && piece.color() == by_color && self.attacks((x, y), square) {
                    assert(self@.attacked_from(x as int, y as int, tx, ty, by_color));
                    return true;
                }
                x = x + 1;
            }
            y = y + 1;
        }
        false
    }

    /// Whether the king of `color` is attacked.
    pub fn is_in_check(&self, color: Color) -> (r: bool)
        ensures
            r == self@.is_in_check(color),
    {
        let mut y: u8 = 0;
        while y < 8
            invariant
                y <= 8,
                forall|kx: int, ky: int| ky < y ==> !#[trigger] self@.king_attacked_at(kx, ky, color),
            decreases 8 - y,
        {
            let mut x: u8 = 0;
            while x < 8
                invariant
                    y < 8,
                    x <= 8,
                    forall|kx: int, ky: int|
                        ky < y || (ky == y && kx < x) ==> !#[trigger] self@.king_attacked_at(
                            kx,
                            ky,
                            color,
                        ),
                decreases 8 - x,
            {
                let piece = self.get((x, y));
                if !piece.is_empty() && piece.color() == color && piece.type_() == Type::King
                    && self.square_is_attacked((x, y), color.opposite()) {
                    assert(self@.king_attacked_at(x as int, y as int, color));
                    return true;
                }
                x = x + 1;
            }
            y = y + 1;
        }
        false
    }
}

} // verus!

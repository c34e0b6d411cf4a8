//! Pieces, packed into one byte.
//!
//! Bits 0..=2 hold the kind (1 to 6), bit 3 the colour and bit 4 the
//! "has moved" flag. The byte 0 is the empty square.

use vstd::prelude::*;

verus! {

/// The two sides of the game.
#[derive(Clone, Copy, Debug, PartialEq, Eq, Structural)]
pub enum Color {
    Black,
    White,
}

/// The six kinds of piece.
#[derive(Clone, Copy, Debug, PartialEq, Eq, Structural)]
pub enum Type {
    Pawn,
    Rook,
    Knight,
    Bishop,
    Queen,
    King,
}

/// What stands on an occupied square.
#[derive(Clone, Copy, Debug, PartialEq, Eq, Structural)]
pub struct Occupant {
    pub color: Color,
    pub kind: Type,
    pub has_moved: bool,
}

/// The content of one square: a piece, or nothing.
#[derive(Clone, Copy, Debug, PartialEq, Eq, Structural)]
pub struct Piece {
    data: u8,
}

impl Color {
    pub open spec fn spec_opposite(self) -> Color {
        match self {
            Color::Black => Color::White,
            Color::White => Color::Black,
        }
    }

    /// The other side.
    #[verifier::when_used_as_spec(spec_opposite)]
    pub fn opposite(self) -> (r: Color)
        ensures
            r == self.spec_opposite(),
    {
        match self {
            Color::Black => Color::White,
            Color::White => Color::Black,
        }
    }
}

pub closed spec fn kind_code(kind: Type) -> u8 {
    match kind {
        Type::Pawn => 1,
        Type::Rook => 2,
        Type::Knight => 3,
        Type::Bishop => 4,
        Type::Queen => 5,
        Type::King => 6,
    }
}

pub closed spec fn kind_of_code(code: u8) -> Type {
    if code == 2 {
        Type::Rook
    } else if code == 3 {
        Type::Knight
    } else if code == 4 {
        Type::Bishop
    } else if code == 5 {
        Type::Queen
    } else if code == 6 {
        Type::King
    } else {
        Type::Pawn
    }
}

pub closed spec fn color_bit(color: Color) -> u8 {
    match color {
        Color::Black => 0,
        Color::White => 8,
    }
}

pub closed spec fn moved_bit(has_moved: bool) -> u8 {
    if has_moved {
        16
    } else {
        0
    }
}

impl View for Piece {
    type V = Option<Occupant>;

    closed spec fn view(&self) -> Option<Occupant> {
        if self.data == 0 {
            None
        } else {
            Some(
                Occupant {
                    color: if self.data & 8 == 0 {
                        Color::Black
                    } else {
                        Color::White
                    },
                    kind: kind_of_code(self.data & 7),
                    has_moved: self.data & 16 != 0,
                },
            )
        }
    }
}

impl Piece {
    /// Every byte that the constructors produce: the empty square, or a kind
    /// from 1 to 6 with nothing above the flag bit.
    #[verifier::type_invariant]
    pub closed spec fn valid(self) -> bool {
        self.data == 0 || (1 <= self.data & 7 && self.data & 7 <= 6 && self.data < 32)
    }

    pub closed spec fn spec_empty() -> Piece {
        Piece { data: 0 }
    }

    pub closed spec fn spec_encode(color: Color, kind: Type, has_moved: bool) -> Piece {
        Piece { data: moved_bit(has_moved) | color_bit(color) | kind_code(kind) }
    }

    /// The same piece with its flag set to `has_moved`; the empty square stays
    /// empty.
    pub closed spec fn spec_with_moved(self, has_moved: bool) -> Piece {
        if self.data == 0 {
            self
        } else if has_moved {
            Piece { data: self.data | 16 }
        } else {
            Piece { data: self.data & 0xef }
        }
    }

    pub open spec fn spec_is_empty(&self) -> bool {
        self@ is None
    }

    /// The colour of the piece; `Black` for the empty square.
    pub open spec fn spec_color(&self) -> Color {
        match self@ {
            Some(o) => o.color,
            None => Color::Black,
        }
    }

    /// The flag of the piece; `false` for the empty square.
    pub open spec fn spec_has_moved(&self) -> bool {
        match self@ {
            Some(o) => o.has_moved,
            None => false,
        }
    }

    /// Whether this is a piece of the given kind.
    pub open spec fn is_kind(self, kind: Type) -> bool {
        self@ matches Some(o) && o.kind == kind
    }

    /// Whether this is a piece of the given colour.
    pub open spec fn is_color(self, color: Color) -> bool {
        self@ matches Some(o) && o.color == color
    }

    /// The empty square.
    pub fn empty() -> (r: Piece)
        ensures
            r == Piece::spec_empty(),
            r@ is None,
            r.valid(),
    {
        Piece { data: 0 }
    }

    /// A piece that has not moved yet.
    pub fn new(color: Color, type_: Type) -> (r: Piece)
        ensures
            r == Piece::spec_encode(color, type_, false),
            r@ == Some(Occupant { color, kind: type_, has_moved: false }),
            r.valid(),
    {
        Piece::encode(color, type_, false)
    }

    /// Packs colour, kind and flag into a piece.
    pub fn encode(color: Color, type_: Type, has_moved: bool) -> (r: Piece)
        ensures
            r == Piece::spec_encode(color, type_, has_moved),
            r@ == Some(Occupant { color, kind: type_, has_moved }),
            r.valid(),
    {
        let c: u8 = match color {
            Color::Black => 0,
            Color::White => 1,
        };
        let t: u8 = match type_ {
            Type::Pawn => 1,
            Type::Rook => 2,
            Type::Knight => 3,
            Type::Bishop => 4,
            Type::Queen => 5,
            Type::King => 6,
        };
        let m: u8 = if has_moved {
            1
        } else {
            0
        };
        let mut data: u8 = 0;
        data |= m << 4;
        data |= c << 3;
        data |= t & 0b0000_0111;
        proof {
            assert(c <= 1 && m <= 1 && 1 <= t <= 6 ==> ((0u8 | (m << 4)) | (c << 3)) | (t & 7) == (
            if m == 1 {
                16u8
            } else {
                0u8
            }) | (if c == 1 {
                8u8
            } else {
                0u8
            }) | t) by (bit_vector);
            Piece::lemma_encode(color, type_, has_moved);
        }
        Piece { data }
    }

    /// Whether the square is empty.
    #[verifier::when_used_as_spec(spec_is_empty)]
    pub fn is_empty(&self) -> (r: bool)
        ensures
            r == self.spec_is_empty(),
    {
        self.data == 0
    }

    /// The colour of the piece; `Black` for the empty square.
    #[verifier::when_used_as_spec(spec_color)]
    pub fn color(&self) -> (r: Color)
        ensures
            r == self.spec_color(),
    {
        let d: u8 = self.data;
        proof {
            assert(d == 0 ==> d & 8 == 0) by (bit_vector);
        }
        if self.data & 0b0000_1000 == 0 {
            Color::Black
        } else {
            Color::White
        }
    }

    /// The kind of the piece. The square must not be empty.
    pub fn type_(&self) -> (r: Type)
        requires
            self@ is Some,
        ensures
            self@ matches Some(o) && r == o.kind,
    {
        proof {
            use_type_invariant(self);
        }
        let data: u8 = self.data & 0b0000_0111;
        if data == 1 {
            Type::Pawn
        } else if data == 2 {
            Type::Rook
        } else if data == 3 {
            Type::Knight
        } else if data == 4 {
            Type::Bishop
        } else if data == 5 {
            Type::Queen
        } else {
            Type::King
        }
    }

    /// The flag of the piece; `false` for the empty square.
    #[verifier::when_used_as_spec(spec_has_moved)]
    pub fn has_moved(&self) -> (r: bool)
        ensures
            r == self.spec_has_moved(),
    {
        let d: u8 = self.data;
        proof {
            assert(d == 0 ==> d & 16 == 0) by (bit_vector);
        }
        self.data & 0b0001_0000 != 0
    }

    /// The same piece with its flag set to `has_moved`; the empty square stays
    /// empty.
    #[verifier::when_used_as_spec(spec_with_moved)]
    pub fn with_moved(self, has_moved: bool) -> (r: Piece)
        ensures
            r == self.spec_with_moved(has_moved),
            r@ == match self@ {
                Some(o) => Some(Occupant { color: o.color, kind: o.kind, has_moved }),
                None => None,
            },
            r.valid(),
    {
        proof {
            use_type_invariant(self);
            Piece::lemma_with_moved(self, has_moved);
        }
        if self.data == 0 {
            self
        } else if has_moved {
            Piece { data: self.data | 0b0001_0000 }
        } else {
            Piece { data: self.data & 0b1110_1111 }
        }
    }

    /// Encoding and the three projections are round trips of each other.
    pub broadcast proof fn lemma_encode(color: Color, kind: Type, has_moved: bool)
        ensures
            #![trigger Piece::spec_encode(color, kind, has_moved)]
            Piece::spec_encode(color, kind, has_moved).valid(),
            Piece::spec_encode(color, kind, has_moved)@ == Some(
                Occupant { color, kind, has_moved },
            ),
    {
        let m = moved_bit(has_moved);
        let c = color_bit(color);
        let k = kind_code(kind);
        let d = m | c | k;
        assert((m == 0 || m == 16) && (c == 0 || c == 8) && 1 <= k <= 6 ==> d != 0 && d < 32 && d
            & 7 == k && (d & 8 == 0 <==> c == 0) && (d & 16 != 0 <==> m == 16)) by (bit_vector)
            requires
                d == m | c | k,
        ;
    }

    /// The empty square holds nothing.
    pub broadcast proof fn lemma_empty_holds_nothing()
        ensures
            #[trigger] Piece::spec_empty()@ is None,
            Piece::spec_empty().valid(),
    {
    }

    /// The empty square is the one piece without an occupant.
    pub proof fn lemma_empty(p: Piece)
        ensures
            Piece::spec_empty().valid(),
            Piece::spec_empty()@ is None,
            p@ is None <==> p == Piece::spec_empty(),
    {
    }

    /// Setting the flag of a valid piece changes the flag and nothing else.
    pub broadcast proof fn lemma_with_moved(p: Piece, has_moved: bool)
        requires
            p.valid(),
        ensures
            #![trigger p.spec_with_moved(has_moved)]
            p.spec_with_moved(has_moved).valid(),
            p.spec_with_moved(has_moved)@ == match p@ {
                Some(o) => Some(Occupant { color: o.color, kind: o.kind, has_moved }),
                None => None,
            },
    {
        let d = p.data;
        assert(1 <= d & 7 ==> (d | 16) != 0 && (d | 16) & 7 == d & 7 && (d | 16) & 8 == d & 8 && (d
            | 16) & 16 != 0 && (d < 32 ==> (d | 16) < 32)) by (bit_vector);
        assert(1 <= d & 7 ==> (d & 0xef) != 0 && (d & 0xef) & 7 == d & 7 && (d & 0xef) & 8 == d & 8
            && (d & 0xef) & 16 == 0 && (d < 32 ==> (d & 0xef) < 32)) by (bit_vector);
    }

    /// Setting the flag and then putting the old flag back gives the piece
    /// back.
    pub proof fn lemma_with_moved_restores(p: Piece)
        ensures
            p.spec_with_moved(true).spec_with_moved(p.spec_has_moved()) == p,
    {
        let d = p.data;
        assert(d != 0 ==> (d | 16) != 0 && (d & 16 != 0 ==> (d | 16) | 16 == d) && (d & 16 == 0
            ==> (d | 16) & 0xef == d)) by (bit_vector);
    }

    /// Two valid pieces with the same occupant are the same piece.
    pub proof fn lemma_view_injective(p: Piece, q: Piece)
        requires
            p.valid(),
            q.valid(),
            p@ == q@,
        ensures
            p == q,
    {
        let a = p.data;
        let b = q.data;
        if a != 0 && b != 0 {
            assert(kind_of_code(a & 7) == kind_of_code(b & 7));
            assert(a & 7 == b & 7);
            assert((a & 8 == 0) == (b & 8 == 0));
            assert((a & 16 == 0) == (b & 16 == 0));
            assert(a < 32 && b < 32 && a & 7 == b & 7 && ((a & 8 == 0) == (b & 8 == 0)) && ((a & 16
                == 0) == (b & 16 == 0)) ==> a == b) by (bit_vector);
        }
    }
}

/// What the constructors of pieces build, for proofs that do not wish to
/// name each fact.
pub broadcast group group_piece_model {
    Piece::lemma_encode,
    Piece::lemma_empty_holds_nothing,
    Piece::lemma_with_moved,
}

} // verus!

//! A position as a text of 70 characters: 64 squares, rank by rank from rank
//! 0 and file by file from file 0, then the four castling rights, the
//! en-passant file and the side to move.

use vstd::prelude::*;
use vstd::string::*;
use crate::action::{Square, on_board};
use crate::board::Board;
use crate::legal::GameState;
use crate::moves::{back_rank, spec_back_rank};
use crate::piece::{Color, Occupant, Piece, Type};
use crate::position::{Position, forward, pawn_home_rank};

verus! {

/// Why a text is not a position.
#[derive(Clone, Copy, Debug, PartialEq, Eq, Structural)]
pub enum DecodeError {
    /// The text does not have 70 characters.
    WrongLength,
    /// A character is not one that may stand at its place.
    InvalidCharacter,
    /// The text shows a position, but none to play on: it names an
    /// en-passant file on which no pawn of the side that has just moved
    /// stands after a double step, or the square that pawn passed over is
    /// not empty.
    ImpossibleEnPassant,
}

/// The letter of a kind, in lower case.
pub open spec fn kind_letter(kind: Type) -> char {
    match kind {
        Type::Pawn => 'p',
        Type::Rook => 'r',
        Type::Knight => 'n',
        Type::Bishop => 'b',
        Type::Queen => 'q',
        Type::King => 'k',
    }
}

/// The letter of a kind, in upper case.
pub open spec fn kind_capital(kind: Type) -> char {
    match kind {
        Type::Pawn => 'P',
        Type::Rook => 'R',
        Type::Knight => 'N',
        Type::Bishop => 'B',
        Type::Queen => 'Q',
        Type::King => 'K',
    }
}

/// The character of a square: `.` where it is empty, the letter of the kind
/// for a black piece, the capital letter for a white one.
pub open spec fn piece_symbol(p: Piece) -> char {
    match p@ {
        None => '.',
        Some(o) => match o.color {
            Color::Black => kind_letter(o.kind),
            Color::White => kind_capital(o.kind),
        },
    }
}

/// The colour and kind that a character stands for, if it is the letter of a
/// piece.
pub open spec fn symbol_occupant(c: char) -> Option<(Color, Type)> {
    if c == 'p' {
        Some((Color::Black, Type::Pawn))
    } else if c == 'r' {
        Some((Color::Black, Type::Rook))
    } else if c == 'n' {
        Some((Color::Black, Type::Knight))
    } else if c == 'b' {
        Some((Color::Black, Type::Bishop))
    } else if c == 'q' {
        Some((Color::Black, Type::Queen))
    } else if c == 'k' {
        Some((Color::Black, Type::King))
    } else if c == 'P' {
        Some((Color::White, Type::Pawn))
    } else if c == 'R' {
        Some((Color::White, Type::Rook))
    } else if c == 'N' {
        Some((Color::White, Type::Knight))
    } else if c == 'B' {
        Some((Color::White, Type::Bishop))
    } else if c == 'Q' {
        Some((Color::White, Type::Queen))
    } else if c == 'K' {
        Some((Color::White, Type::King))
    } else {
        None
    }
}

/// Whether a piece of that colour and kind stands on `(x, y)` when the game
/// starts.
pub open spec fn spec_starts_on(color: Color, kind: Type, x: int, y: int) -> bool {
    match kind {
        Type::Pawn => y == pawn_home_rank(color),
        Type::Rook => y == spec_back_rank(color) && (x == 0 || x == 7),
        Type::Knight => y == spec_back_rank(color) && (x == 1 || x == 6),
        Type::Bishop => y == spec_back_rank(color) && (x == 2 || x == 5),
        Type::Queen => y == spec_back_rank(color) && x == 3,
        Type::King => y == spec_back_rank(color) && x == 4,
    }
}

/// The piece that a character puts on `(x, y)`. The text does not say
/// whether a piece has moved: a piece counts as moved where it does not
/// stand on a square on which such a piece starts the game.
pub open spec fn symbol_piece(c: char, x: int, y: int) -> Piece {
    match symbol_occupant(c) {
        Some((color, kind)) => Piece::spec_encode(color, kind, !spec_starts_on(color, kind, x, y)),
        None => Piece::spec_empty(),
    }
}

pub open spec fn is_square_symbol(c: char) -> bool {
    c == '.' || symbol_occupant(c) is Some
}

pub open spec fn flag_symbol(flag: bool) -> char {
    if flag {
        't'
    } else {
        'f'
    }
}

/// The digit of a file from 0 to 7.
pub open spec fn file_digit(file: u8) -> char {
    if file == 0 {
        '0'
    } else if file == 1 {
        '1'
    } else if file == 2 {
        '2'
    } else if file == 3 {
        '3'
    } else if file == 4 {
        '4'
    } else if file == 5 {
        '5'
    } else if file == 6 {
        '6'
    } else {
        '7'
    }
}

/// The file that a digit from `0` to `7` names.
pub open spec fn digit_file(c: char) -> Option<u8> {
    if c == '0' {
        Some(0u8)
    } else if c == '1' {
        Some(1u8)
    } else if c == '2' {
        Some(2u8)
    } else if c == '3' {
        Some(3u8)
    } else if c == '4' {
        Some(4u8)
    } else if c == '5' {
        Some(5u8)
    } else if c == '6' {
        Some(6u8)
    } else if c == '7' {
        Some(7u8)
    } else {
        None
    }
}

pub open spec fn en_passant_symbol(file: Option<u8>) -> char {
    match file {
        None => 'f',
        Some(f) => file_digit(f),
    }
}

pub open spec fn turn_symbol(turn: Color) -> char {
    match turn {
        Color::Black => 'b',
        Color::White => 'w',
    }
}

/// Every character of the text may stand at its place.
pub open spec fn symbols_valid(s: Seq<char>) -> bool {
    &&& s.len() == 70
    &&& forall|i: int| 0 <= i < 64 ==> is_square_symbol(#[trigger] s[i])
    &&& forall|i: int| 64 <= i < 68 ==> (#[trigger] s[i] == 't' || s[i] == 'f')
    &&& (s[68] == 'f' || digit_file(s[68]) is Some)
    &&& (s[69] == 'b' || s[69] == 'w')
}

/// The position that a text with valid characters shows.
pub open spec fn text_position(s: Seq<char>) -> Position {
    Position {
        squares: Seq::new(8, |y: int| Seq::new(8, |x: int| symbol_piece(s[8 * y + x], x, y))),
        can_castle_black_queenside: s[64] == 't',
        can_castle_black_kingside: s[65] == 't',
        can_castle_white_queenside: s[66] == 't',
        can_castle_white_kingside: s[67] == 't',
        can_en_passant: digit_file(s[68]),
        turn: if s[69] == 'b' {
            Color::Black
        } else {
            Color::White
        },
    }
}

impl Position {
    /// The text of the position: the squares, then the four castling rights
    /// as the position holds them, for Black on the queen's side and on the
    /// king's side and then the same for White, then the en-passant file and
    /// the side to move.
    pub open spec fn encoding(self) -> Seq<char> {
        Seq::new(
            70,
            |i: int|
                if i < 64 {
                    piece_symbol(self.at(i % 8, i / 8))
                } else if i == 64 {
                    flag_symbol(self.can_castle_black_queenside)
                } else if i == 65 {
                    flag_symbol(self.can_castle_black_kingside)
                } else if i == 66 {
                    flag_symbol(self.can_castle_white_queenside)
                } else if i == 67 {
                    flag_symbol(self.can_castle_white_kingside)
                } else if i == 68 {
                    en_passant_symbol(self.can_en_passant)
                } else {
                    turn_symbol(self.turn)
                },
        )
    }

    /// If an en-passant file is set, a pawn of the side that has just moved
    /// stands on it where its double step landed, and the square that it
    /// passed over is empty.
    pub open spec fn en_passant_possible(self) -> bool {
        self.can_en_passant matches Some(f) ==> {
            &&& f < 8
            &&& self.at(f as int, self.en_passant_pawn_rank()).is_color(self.turn.spec_opposite())
            &&& self.at(f as int, self.en_passant_pawn_rank()).is_kind(Type::Pawn)
            &&& self.at(f as int, self.en_passant_pawn_rank() + forward(self.turn))@ is None
        }
    }
}

/// What a text decodes to: the position it shows, or why it shows none.
/// Every text of 70 characters that may stand at their places shows a
/// position.
pub open spec fn decode(s: Seq<char>) -> Result<Position, DecodeError> {
    if s.len() != 70 {
        Err(DecodeError::WrongLength)
    } else if !symbols_valid(s) {
        Err(DecodeError::InvalidCharacter)
    } else {
        Ok(text_position(s))
    }
}

/// What a text decodes to for play: the position it shows, if an en-passant
/// file that it names is backed by a pawn; or why there is none.
pub open spec fn decode_for_play(s: Seq<char>) -> Result<Position, DecodeError> {
    match decode(s) {
        Err(e) => Err(e),
        Ok(p) => if p.en_passant_possible() {
            Ok(p)
        } else {
            Err(DecodeError::ImpossibleEnPassant)
        },
    }
}

/// The name of a state, as the host receives it.
pub open spec fn state_name(state: GameState) -> Seq<char> {
    match state {
        GameState::Playing => "Playing"@,
        GameState::Check(Color::Black) => "CheckBlack"@,
        GameState::Check(Color::White) => "CheckWhite"@,
        GameState::Checkmate(Color::Black) => "CheckmateBlack"@,
        GameState::Checkmate(Color::White) => "CheckmateWhite"@,
        GameState::Stalemate => "Stalemate"@,
    }
}

/// A position that a text decodes to is consistent exactly if its
/// en-passant file, where it names one, is backed by a pawn.
pub proof fn lemma_decoded_consistent(s: Seq<char>)
    requires
        decode(s) is Ok,
    ensures
        decode(s)->Ok_0.consistent() <==> decode(s)->Ok_0.en_passant_possible(),
{
    let p = text_position(s);
    assert forall|x: int, y: int| on_board(x, y) implies (#[trigger] p.at(x, y)).valid() && (p.at(
        x,
        y,
    ).is_kind(Type::Pawn) && y != pawn_home_rank(p.at(x, y).spec_color()) ==> p.at(
        x,
        y,
    ).spec_has_moved()) by {
        lemma_symbol_piece(s[8 * y + x], x, y);
    }
    if p.can_en_passant is Some {
        let f = p.can_en_passant->0 as int;
        let y = p.en_passant_pawn_rank();
        lemma_symbol_piece(s[8 * y + f], f, y);
        Piece::lemma_encode(p.turn.spec_opposite(), Type::Pawn, true);
        Piece::lemma_empty(p.at(f, y + forward(p.turn)));
        if p.en_passant_possible() {
            Piece::lemma_view_injective(
                p.at(f, y),
                Piece::spec_encode(p.turn.spec_opposite(), Type::Pawn, true),
            );
        }
    }
}

/// What a character puts on a square: a valid piece of the colour and kind
/// it names, moved iff it stands off its first squares; or nothing.
pub proof fn lemma_symbol_piece(c: char, x: int, y: int)
    ensures
        symbol_piece(c, x, y).valid(),
        symbol_piece(c, x, y)@ == match symbol_occupant(c) {
            Some((color, kind)) => Some(
                Occupant { color, kind, has_moved: !spec_starts_on(color, kind, x, y) },
            ),
            None => None,
        },
        is_square_symbol(c) ==> piece_symbol(symbol_piece(c, x, y)) == c,
{
    match symbol_occupant(c) {
        Some((color, kind)) => {
            Piece::lemma_encode(color, kind, !spec_starts_on(color, kind, x, y));
        },
        None => {
            Piece::lemma_empty(Piece::spec_empty());
        },
    }
}

/// Encoding the position that a text decodes to gives the text back.
pub proof fn law_encode_decoded(s: Seq<char>)
    requires
        decode(s) is Ok,
    ensures
        decode(s)->Ok_0.encoding() == s,
{
    let p = text_position(s);
    let t = p.encoding();
    assert forall|i: int| 0 <= i < 70 implies t[i] == s[i] by {
        if i < 64 {
            assert(p.at(i % 8, i / 8) == symbol_piece(s[i], i % 8, i / 8));
            lemma_symbol_piece(s[i], i % 8, i / 8);
        }
    }
    assert(t =~= s);
}

/// Two squares hold pieces of the same colour and kind, or both are empty.
pub open spec fn same_occupant(a: Piece, b: Piece) -> bool {
    match (a@, b@) {
        (None, None) => true,
        (Some(o), Some(u)) => o.color == u.color && o.kind == u.kind,
        _ => false,
    }
}

impl Position {
    /// The two positions show the same: pieces of the same colour and kind
    /// on the same squares, the same four castling rights, the same
    /// en-passant file and the same side to move. Whether a piece has moved
    /// is not shown.
    pub open spec fn shows_same(self, other: Position) -> bool {
        &&& self.turn == other.turn
        &&& self.can_en_passant == other.can_en_passant
        &&& self.can_castle_black_queenside == other.can_castle_black_queenside
        &&& self.can_castle_black_kingside == other.can_castle_black_kingside
        &&& self.can_castle_white_queenside == other.can_castle_white_queenside
        &&& self.can_castle_white_kingside == other.can_castle_white_kingside
        &&& forall|x: int, y: int|
            on_board(x, y) ==> same_occupant(#[trigger] self.at(x, y), other.at(x, y))
    }
}

/// The character of a square names the colour and kind of what stands
/// there.
pub proof fn lemma_piece_symbol(p: Piece, x: int, y: int)
    ensures
        is_square_symbol(piece_symbol(p)),
        same_occupant(symbol_piece(piece_symbol(p), x, y), p),
{
    lemma_symbol_piece(piece_symbol(p), x, y);
}

/// What is written of a position can be read, and shows the same pieces on
/// the same squares, the same four castling rights, the same en-passant
/// file and the same side to move. The en-passant file, if there is one,
/// must be a file of the board.
pub proof fn law_written_is_readable(p: Position)
    requires
        p.wf(),
        p.can_en_passant matches Some(f) ==> f < 8,
    ensures
        decode(p.encoding()) matches Ok(q) && q.shows_same(p),
{
    let s = p.encoding();
    let q = text_position(s);
    assert forall|i: int| 0 <= i < 64 implies is_square_symbol(#[trigger] s[i]) by {
        lemma_piece_symbol(p.at(i % 8, i / 8), i % 8, i / 8);
    }
    assert(symbols_valid(s));
    assert forall|x: int, y: int| on_board(x, y) implies same_occupant(
        #[trigger] q.at(x, y),
        p.at(x, y),
    ) by {
        assert(s[8 * y + x] == piece_symbol(p.at((8 * y + x) % 8, (8 * y + x) / 8)));
        lemma_piece_symbol(p.at(x, y), x, y);
    }
}

/// What is written of a consistent position can be read for play.
pub proof fn law_written_is_playable(p: Position)
    requires
        p.consistent(),
    ensures
        decode_for_play(p.encoding()) is Ok,
        decode_for_play(p.encoding()) == decode(p.encoding()),
{
    law_written_is_readable(p);
    let q = text_position(p.encoding());
    if p.can_en_passant is Some {
        let f = p.can_en_passant->0 as int;
        let y = p.en_passant_pawn_rank();
        Piece::lemma_encode(p.turn.spec_opposite(), Type::Pawn, true);
        Piece::lemma_empty(p.at(f, y + forward(p.turn)));
        assert(same_occupant(q.at(f, y), p.at(f, y)));
        assert(same_occupant(q.at(f, y + forward(p.turn)), p.at(f, y + forward(p.turn))));
    }
}

fn starts_on(color: Color, kind: Type, sq: Square) -> (r: bool)
    ensures
        r == spec_starts_on(color, kind, sq.0 as int, sq.1 as int),
{
    let x = sq.0;
    let y = sq.1;
    let back = back_rank(color);
    match kind {
        Type::Pawn => match color {
            Color::Black => y == 1,
            Color::White => y == 6,
        },
        Type::Rook => y == back && (x == 0 || x == 7),
        Type::Knight => y == back && (x == 1 || x == 6),
        Type::Bishop => y == back && (x == 2 || x == 5),
        Type::Queen => y == back && x == 3,
        Type::King => y == back && x == 4,
    }
}

/// The colour and kind that a character stands for, if it is the letter of a
/// piece.
fn occupant_of_symbol(c: char) -> (r: Option<(Color, Type)>)
    ensures
        r == symbol_occupant(c),
{
    if c == 'p' {
        Some((Color::Black, Type::Pawn))
    } else if c == 'r' {
        Some((Color::Black, Type::Rook))
    } else if c == 'n' {
        Some((Color::Black, Type::Knight))
    } else if c == 'b' {
        Some((Color::Black, Type::Bishop))
    } else if c == 'q' {
        Some((Color::Black, Type::Queen))
    } else if c == 'k' {
        Some((Color::Black, Type::King))
    } else if c == 'P' {
        Some((Color::White, Type::Pawn))
    } else if c == 'R' {
        Some((Color::White, Type::Rook))
    } else if c == 'N' {
        Some((Color::White, Type::Knight))
    } else if c == 'B' {
        Some((Color::White, Type::Bishop))
    } else if c == 'Q' {
        Some((Color::White, Type::Queen))
    } else if c == 'K' {
        Some((Color::White, Type::King))
    } else {
        None
    }
}

fn file_of_digit(c: char) -> (r: Option<u8>)
    ensures
        r == digit_file(c),
{
    if c == '0' {
        Some(0)
    } else if c == '1' {
        Some(1)
    } else if c == '2' {
        Some(2)
    } else if c == '3' {
        Some(3)
    } else if c == '4' {
        Some(4)
    } else if c == '5' {
        Some(5)
    } else if c == '6' {
        Some(6)
    } else if c == '7' {
        Some(7)
    } else {
        None
    }
}

fn piece_text(p: Piece) -> (r: &'static str)
    ensures
        r@ == seq![piece_symbol(p)],
{
    proof {
        reveal_strlit(".");
        reveal_strlit("p");
        reveal_strlit("r");
        reveal_strlit("n");
        reveal_strlit("b");
        reveal_strlit("q");
        reveal_strlit("k");
        reveal_strlit("P");
        reveal_strlit("R");
        reveal_strlit("N");
        reveal_strlit("B");
        reveal_strlit("Q");
        reveal_strlit("K");
    }
    let r = if p.is_empty() {
        "."
    } else {
        match p.color() {
            Color::Black => match p.type_() {
                Type::Pawn => "p",
                Type::Rook => "r",
                Type::Knight => "n",
                Type::Bishop => "b",
                Type::Queen => "q",
                Type::King => "k",
            },
            Color::White => match p.type_() {
                Type::Pawn => "P",
                Type::Rook => "R",
                Type::Knight => "N",
                Type::Bishop => "B",
                Type::Queen => "Q",
                Type::King => "K",
            },
        }
    };
    assert(r@ =~= seq![piece_symbol(p)]);
    r
}

fn flag_text(flag: bool) -> (r: &'static str)
    ensures
        r@ == seq![flag_symbol(flag)],
{
    proof {
        reveal_strlit("t");
        reveal_strlit("f");
    }
    let r = if flag {
        "t"
    } else {
        "f"
    };
    assert(r@ =~= seq![flag_symbol(flag)]);
    r
}

fn en_passant_text(file: Option<u8>) -> (r: &'static str)
    requires
        file matches Some(f) ==> f < 8,
    ensures
        r@ == seq![en_passant_symbol(file)],
{
    proof {
        reveal_strlit("f");
        reveal_strlit("0");
        reveal_strlit("1");
        reveal_strlit("2");
        reveal_strlit("3");
        reveal_strlit("4");
        reveal_strlit("5");
        reveal_strlit("6");
        reveal_strlit("7");
    }
    let r = match file {
        None => "f",
        Some(f) => if f == 0 {
            "0"
        } else if f == 1 {
            "1"
        } else if f == 2 {
            "2"
        } else if f == 3 {
            "3"
        } else if f == 4 {
            "4"
        } else if f == 5 {
            "5"
        } else if f == 6 {
            "6"
        } else {
            "7"
        },
    };
    assert(r@ =~= seq![en_passant_symbol(file)]);
    r
}

fn turn_text(turn: Color) -> (r: &'static str)
    ensures
        r@ == seq![turn_symbol(turn)],
{
    proof {
        reveal_strlit("b");
        reveal_strlit("w");
    }
    let r = match turn {
        Color::Black => "b",
        Color::White => "w",
    };
    assert(r@ =~= seq![turn_symbol(turn)]);
    r
}

impl GameState {
    /// The name of the state, as the host receives it.
    pub fn name(&self) -> (r: &'static str)
        ensures
            r@ == state_name(*self),
    {
        match self {
            GameState::Playing => "Playing",
            GameState::Check(Color::Black) => "CheckBlack",
            GameState::Check(Color::White) => "CheckWhite",
            GameState::Checkmate(Color::Black) => "CheckmateBlack",
            GameState::Checkmate(Color::White) => "CheckmateWhite",
            GameState::Stalemate => "Stalemate",
        }
    }
}

impl Board {
    /// Whether the en-passant file, if one is set, names a pawn that has
    /// just made its double step.
    pub fn en_passant_possible(&self) -> (r: bool)
        ensures
            r == self@.en_passant_possible(),
    {
        match self.can_en_passant {
            None => true,
            Some(f) => {
                if f >= 8 {
                    return false;
                }
                let mover = self.turn.opposite();
                let pawn_rank: u8 = match mover {
                    Color::Black => 3,
                    Color::White => 4,
                };
                let passed_rank: u8 = match mover {
                    Color::Black => 2,
                    Color::White => 5,
                };
                let pawn = self.get((f, pawn_rank));
                !pawn.is_empty() && pawn.color() == mover && pawn.type_() == Type::Pawn
                    && self.get((f, passed_rank)).is_empty()
            },
        }
    }

    /// Writes the board as a text: the squares, the four castling rights as
    /// the board holds them, the en-passant file and the side to move. The
    /// text can be read again, and then shows the same. The en-passant
    /// file, if one is set, must be a file of the board.
    pub fn serialize(&self) -> (r: String)
        requires
            self.can_en_passant matches Some(f) ==> f < 8,
        ensures
            r@ == self@.encoding(),
            r@.len() == 70,
            decode(r@) matches Ok(q) && q.shows_same(self@),
    {
        proof {
            law_written_is_readable(self@);
        }
        let mut s = String::new();
        let mut y: u8 = 0;
        while y < 8
            invariant
                y <= 8,
                s@.len() == 8 * y,
                forall|i: int| 0 <= i < 8 * y ==> #[trigger] s@[i] == self@.encoding()[i],
            decreases 8 - y,
        {
            let mut x: u8 = 0;
            while x < 8
                invariant
                    y < 8,
                    x <= 8,
                    s@.len() == 8 * y + x,
                    forall|i: int| 0 <= i < 8 * y + x ==> #[trigger] s@[i] == self@.encoding()[i],
                decreases 8 - x,
            {
                let piece = self.get((x, y));
                assert((8 * y + x) % 8 == x as int && (8 * y + x) / 8 == y as int);
                s.append(piece_text(piece));
                x = x + 1;
            }
            y = y + 1;
        }
        s.append(flag_text(self.can_castle_black_queenside));
        s.append(flag_text(self.can_castle_black_kingside));
        s.append(flag_text(self.can_castle_white_queenside));
        s.append(flag_text(self.can_castle_white_kingside));
        s.append(en_passant_text(self.can_en_passant));
        s.append(turn_text(self.turn));
        assert(s@ =~= self@.encoding());
        s
    }

    /// Reads a board from a text: the position that the text shows, or the
    /// reason why it shows none. Every text that `serialize` writes is read.
    /// The board that is read is consistent exactly if its en-passant file,
    /// where it has one, is backed by a pawn.
    pub fn deserialize(s: &str) -> (r: Result<Board, DecodeError>)
        ensures
            match r {
                Ok(board) => decode(s@) == Ok::<Position, DecodeError>(board@) && (
                board@.consistent() <==> board@.en_passant_possible()),
                Err(e) => decode(s@) == Err::<Position, DecodeError>(e),
            },
    {
        if s.unicode_len() != 70 {
            return Err(DecodeError::WrongLength);
        }
        let mut squares = [[Piece::empty();8];8];
        let mut y: u8 = 0;
        while y < 8
            invariant
                y <= 8,
                s@.len() == 70,
                forall|i: int| 0 <= i < 8 * y ==> is_square_symbol(#[trigger] s@[i]),
                forall|u: int, v: int|
                    0 <= u < 8 && 0 <= v < y ==> #[trigger] squares[v][u] == symbol_piece(
                        s@[8 * v + u],
                        u,
                        v,
                    ),
            decreases 8 - y,
        {
            let mut x: u8 = 0;
            while x < 8
                invariant
                    y < 8,
                    x <= 8,
                    s@.len() == 70,
                    forall|i: int| 0 <= i < 8 * y + x ==> is_square_symbol(#[trigger] s@[i]),
                    forall|u: int, v: int|
                        0 <= u < 8 && (0 <= v < y || (v == y && u < x)) ==> #[trigger] squares[v][u]
                            == symbol_piece(s@[8 * v + u], u, v),
                decreases 8 - x,
            {
                let c = s.get_char(8 * (y as usize) + (x as usize));
                match occupant_of_symbol(c) {
                    Some((color, kind)) => {
                        squares[y as usize][x as usize] = Piece::encode(
                            color,
                            kind,
                            !starts_on(color, kind, (x, y)),
                        );
                    },
                    None => {
                        if c != '.' {
                            assert(!is_square_symbol(s@[8 * y + x]));
                            return Err(DecodeError::InvalidCharacter);
                        }
                        squares[y as usize][x as usize] = Piece::empty();
                    },
                }
                x = x + 1;
            }
            y = y + 1;
        }
        let c64 = s.get_char(64);
        let c65 = s.get_char(65);
        let c66 = s.get_char(66);
        let c67 = s.get_char(67);
        let c68 = s.get_char(68);
        let c69 = s.get_char(69);
        if (c64 != 't' && c64 != 'f') || (c65 != 't' && c65 != 'f') || (c66 != 't' && c66 != 'f')
            || (c67 != 't' && c67 != 'f') {
            return Err(DecodeError::InvalidCharacter);
        }
        let can_en_passant = file_of_digit(c68);
        if c68 != 'f' && can_en_passant.is_none() {
            return Err(DecodeError::InvalidCharacter);
        }
        if c69 != 'b' && c69 != 'w' {
            return Err(DecodeError::InvalidCharacter);
        }
        let board = Board {
            squares,
            can_castle_black_queenside: c64 == 't',
            can_castle_black_kingside: c65 == 't',
            can_castle_white_queenside: c66 == 't',
            can_castle_white_kingside: c67 == 't',
            can_en_passant,
            turn: if c69 == 'b' {
                Color::Black
            } else {
                Color::White
            },
        };
        proof {
            assert(symbols_valid(s@));
            let p = text_position(s@);
            assert forall|v: int| 0 <= v < 8 implies board@.squares[v] == p.squares[v] by {
                assert forall|u: int| 0 <= u < 8 implies board@.squares[v][u] == p.squares[v][u] by {
                    assert(squares[v][u] == symbol_piece(s@[8 * v + u], u, v));
                }
                assert(board@.squares[v] =~= p.squares[v]);
            }
            assert(board@.squares =~= p.squares);
            assert(board@ == p);
        }
        proof {
            lemma_decoded_consistent(s@);
        }
        Ok(board)
    }

    /// Reads a board to play on: the position that the text shows, if an
    /// en-passant file that it names is backed by a pawn; or the reason why
    /// there is none. The board that is read is consistent.
    pub fn deserialize_for_play(s: &str) -> (r: Result<Board, DecodeError>)
        ensures
            match r {
                Ok(board) => decode_for_play(s@) == Ok::<Position, DecodeError>(board@)
                    && board@.consistent(),
                Err(e) => decode_for_play(s@) == Err::<Position, DecodeError>(e),
            },
    {
        match Board::deserialize(s) {
            Ok(board) => if board.en_passant_possible() {
                Ok(board)
            } else {
                Err(DecodeError::ImpossibleEnPassant)
            },
            Err(e) => Err(e),
        }
    }
}

/// The positions that the legal moves of the side to move lead to, each as a
/// text, in the order of the generator; or why the text shows no position to
/// play on.
pub fn get_legal_actions(board: &str) -> (r: Result<Vec<String>, DecodeError>)
    ensures
        match r {
            Ok(texts) => decode_for_play(board@) matches Ok(p) && texts@.len() == p.legal().len()
                && forall|i: int|
                0 <= i < texts@.len() ==> (#[trigger] texts@[i])@ == p.apply(
                    p.legal()[i],
                ).encoding(),
            Err(e) => decode_for_play(board@) == Err::<Position, DecodeError>(e),
        },
{
    let mut board = match Board::deserialize_for_play(board) {
        Ok(b) => b,
        Err(e) => {
            return Err(e);
        },
    };
    let ghost p = board@;
    let actions = board.get_legal_actions();
    let mut texts: Vec<String> = Vec::new();
    let mut i: usize = 0;
    proof {
        p.lemma_pseudo_legal_allowed();
    }
    while i < actions.len()
        invariant
            i <= actions.len(),
            board@ == p,
            p.consistent(),
            actions@ == p.legal(),
            texts@.len() == i,
            forall|j: int|
                0 <= j < i ==> (#[trigger] texts@[j])@ == p.apply(p.legal()[j]).encoding(),
        decreases actions.len() - i,
    {
        let action = actions[i];
        proof {
            assert(p.legal().contains(action));
            crate::laws::law_legal_is_pseudo_legal(p, action);
            crate::laws::law_undo_reverses_apply(p, action);
            crate::laws::law_apply_keeps_consistent(p, action);
            p.lemma_pseudo_legal_allowed();
            p.lemma_allowed_can_be_made(action);
        }
        board.apply_action(&action);
        texts.push(board.serialize());
        board.undo_action(&action);
        i = i + 1;
    }
    Ok(texts)
}

/// The position after the move that the engine picks, as a text; `None`
/// where the side to move has no legal move; or why the text shows no
/// position to play on.
pub fn get_best_move(board: &str) -> (r: Result<Option<String>, DecodeError>)
    ensures
        match r {
            Ok(Some(text)) => decode_for_play(board@) matches Ok(p) && p.legal().len() > 0
                && text@ == p.apply(p.legal().last()).encoding(),
            Ok(None) => decode_for_play(board@) matches Ok(p) && p.legal().len() == 0,
            Err(e) => decode_for_play(board@) == Err::<Position, DecodeError>(e),
        },
{
    let mut board = match Board::deserialize_for_play(board) {
        Ok(b) => b,
        Err(e) => {
            return Err(e);
        },
    };
    let ghost p = board@;
    let mut scratch = board;
    if scratch.get_legal_actions().len() == 0 {
        return Ok(None);
    }
    let action = crate::ai::get_best_move(&mut board);
    proof {
        assert(p.legal().contains(action));
        crate::laws::law_legal_is_pseudo_legal(p, action);
        crate::laws::law_apply_keeps_consistent(p, action);
        p.lemma_pseudo_legal_allowed();
        p.lemma_allowed_can_be_made(action);
    }
    board.apply_action(&action);
    let text = board.serialize();
    board.undo_action(&action);
    Ok(Some(text))
}

/// The name of the state of the position that the text shows; or why the
/// text shows no position to play on.
pub fn get_state(board: &str) -> (r: Result<&'static str, DecodeError>)
    ensures
        match r {
            Ok(name) => decode_for_play(board@) matches Ok(p) && name@ == state_name(p.state()),
            Err(e) => decode_for_play(board@) == Err::<Position, DecodeError>(e),
        },
{
    match Board::deserialize_for_play(board) {
        Ok(b) => Ok(b.classify_state().name()),
        Err(e) => Err(e),
    }
}

} // verus!
